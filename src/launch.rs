use vstd::prelude::*;
use vstd::string::StrSliceExecFns;

verus! {

/// The flag that names the target application's data directory.
pub open spec fn data_dir_flag() -> Seq<char> {
    "--user-data-dir"@
}

/// The flag in its `--flag=value` form, up to and including the `=`.
pub open spec fn data_dir_prefix() -> Seq<char> {
    "--user-data-dir="@
}

/// The data directory that `args[i..]` name: the argument after the first
/// bare flag that has one, or the value of the first `--user-data-dir=`
/// argument, whichever comes first.
pub open spec fn data_dir_from(args: Seq<Seq<char>>, i: nat) -> Option<Seq<char>>
    decreases args.len() - i,
{
    if i >= args.len() {
        None
    } else if args[i as int] == data_dir_flag() && i + 1 < args.len() {
        Some(args[i + 1 as int])
    } else if args[i as int].len() >= 16 && args[i as int].take(16) == data_dir_prefix() {
        Some(args[i as int].skip(16))
    } else {
        data_dir_from(args, i + 1)
    }
}

pub open spec fn arg_views(v: Seq<String>) -> Seq<Seq<char>> {
    v.map_values(|s: String| s@)
}

fn has_prefix(s: &String, prefix: &str) -> (r: bool)
    ensures
        r == (s@.len() >= prefix@.len() && s@.take(prefix@.len() as int) == prefix@),
{
    let n = prefix.unicode_len();
    let m = s.as_str().unicode_len();
    if m < n {
        return false;
    }
    let mut i: usize = 0;
    while i < n
        invariant
            n == prefix@.len(),
            m == s@.len(),
            n <= m,
            i <= n,
            forall|k: int| 0 <= k < i ==> s@[k] == prefix@[k],
        decreases n - i,
    {
        if s.as_str().get_char(i) != prefix.get_char(i) {
            assert(s@.take(n as int)[i as int] != prefix@[i as int]);
            return false;
        }
        i = i + 1;
    }
    assert(s@.take(n as int) =~= prefix@);
    true
}

/// The data directory that a command line names with `--user-data-dir`,
/// either as the next argument or after `=`.
pub fn user_data_dir_from_args(args: &Vec<String>) -> (r: Option<String>)
    ensures
        match r {
            Some(d) => data_dir_from(arg_views(args@), 0) == Some(d@),
            None => data_dir_from(arg_views(args@), 0) is None,
        },
{
    let ghost a = arg_views(args@);
    let flag = "--user-data-dir".to_string();
    proof {
        reveal_strlit("--user-data-dir=");
        assert(data_dir_prefix().len() == 16);
    }
    let mut i: usize = 0;
    while i < args.len()
        invariant
            i <= args@.len(),
            a == arg_views(args@),
            flag@ == data_dir_flag(),
            data_dir_prefix().len() == 16,
            data_dir_from(a, 0) == data_dir_from(a, i as nat),
        decreases args@.len() - i,
    {
        proof {
            assert(a[i as int] == args@[i as int]@);
        }
        if args[i] == flag && i + 1 < args.len() {
            proof {
                assert(a[i + 1] == args@[i + 1]@);
            }
            return Some(args[i + 1].clone());
        }
        if has_prefix(&args[i], "--user-data-dir=") {
            assert(a[i as int].len() >= 16 && a[i as int].take(16) == data_dir_prefix());
            let n = args[i].as_str().unicode_len();
            let rest = args[i].as_str().substring_char(16, n);
            proof {
                assert(rest@ =~= a[i as int].skip(16));
            }
            return Some(rest.to_string());
        }
        i = i + 1;
    }
    None
}

} // verus!
