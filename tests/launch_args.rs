use token_splice::launch::user_data_dir_from_args;

fn args(v: &[&str]) -> Vec<String> {
    v.iter().map(|s| s.to_string()).collect()
}

#[test]
fn data_dir_after_the_flag() {
    let a = args(&["app", "--user-data-dir", "/tmp/profile", "--x"]);
    assert_eq!(user_data_dir_from_args(&a), Some("/tmp/profile".to_string()));
}

#[test]
fn data_dir_after_equals() {
    let a = args(&["app", "--user-data-dir=/data/a=b"]);
    assert_eq!(user_data_dir_from_args(&a), Some("/data/a=b".to_string()));
}

#[test]
fn no_data_dir() {
    assert_eq!(user_data_dir_from_args(&args(&["app", "--user-data-dir"])), None);
    assert_eq!(user_data_dir_from_args(&args(&[])), None);
    assert_eq!(
        user_data_dir_from_args(&args(&["--user-data-dir", "--user-data-dir=/x"])),
        Some("--user-data-dir=/x".to_string())
    );
}
