use token_splice::error::EditError;
use token_splice::message::{find_field, remove_field, skip_field};

fn sample() -> (Vec<u8>, Vec<u8>, Vec<u8>, Vec<u8>) {
    let f1 = vec![8, 42];
    let f2 = vec![18, 3, b'a', b'b', b'c'];
    let f6 = vec![50, 2, 1, 2];
    let f7 = vec![61, 1, 2, 3, 4];
    (f1, f2, f6, f7)
}

#[test]
fn removing_a_field_keeps_the_others_in_order() {
    let (f1, f2, f6, f7) = sample();
    let b = [f1.clone(), f2.clone(), f6, f7.clone()].concat();
    assert_eq!(remove_field(&b, 6), Ok([f1, f2, f7].concat()));
}

#[test]
fn removing_twice_equals_removing_once() {
    let (f1, f2, f6, f7) = sample();
    let b = [f6.clone(), f1, f6.clone(), f2, f7, f6].concat();
    let once = remove_field(&b, 6).unwrap();
    assert_eq!(remove_field(&once, 6), Ok(once.clone()));
    assert_eq!(once.len(), 2 + 5 + 5);
}

#[test]
fn removal_takes_every_wire_type_of_the_number() {
    let b = vec![8, 1, 10, 1, 0, 13, 1, 2, 3, 4, 9, 1, 2, 3, 4, 5, 6, 7, 8, 16, 5];
    assert_eq!(remove_field(&b, 1), Ok(vec![16, 5]));
}

#[test]
fn removal_refuses_unknown_wire_types() {
    assert_eq!(remove_field(&[11, 0], 2), Err(EditError::UnsupportedWireType(3)));
    assert_eq!(remove_field(&[12], 1), Err(EditError::UnsupportedWireType(4)));
}

#[test]
fn removal_refuses_truncated_fields() {
    assert_eq!(remove_field(&[18, 5, 1, 2], 3), Err(EditError::MalformedField));
    assert_eq!(remove_field(&[0x80], 3), Err(EditError::MalformedField));
    assert_eq!(remove_field(&[9, 1, 2], 3), Err(EditError::MalformedField));
    assert_eq!(remove_field(&[], 3), Ok(vec![]));
}

#[test]
fn find_returns_first_length_delimited_payload() {
    let b = vec![16, 7, 18, 2, b'h', b'i', 18, 1, b'x'];
    assert_eq!(find_field(&b, 2), Some(vec![b'h', b'i']));
    assert_eq!(find_field(&b, 3), None);
}

#[test]
fn find_stops_quietly_on_malformed_bytes() {
    let b = vec![8, 1, 0x80];
    assert_eq!(find_field(&b, 5), None);
    let c = vec![18, 9, 1];
    assert_eq!(find_field(&c, 2), None);
}

#[test]
fn skip_reports_payload_ends() {
    let b = vec![1, 2, 3, 4, 5, 6, 7, 8, 9];
    assert_eq!(skip_field(&b, 0, 1), Ok(8));
    assert_eq!(skip_field(&b, 2, 1), Err(EditError::MalformedField));
    assert_eq!(skip_field(&b, 5, 5), Ok(9));
    assert_eq!(skip_field(&b, 0, 2), Ok(2));
    assert_eq!(skip_field(&b, 0, 0), Ok(1));
    assert_eq!(skip_field(&b, 0, 6), Err(EditError::UnsupportedWireType(6)));
}
