use vstd::prelude::*;
use vstd::string::StrSliceExecFns;

verus! {

/// The pieces of `s.take(i)` between occurrences of `sep`, empty pieces
/// included.
pub open spec fn split_upto(s: Seq<char>, sep: char, i: nat) -> Seq<Seq<char>>
    decreases i,
{
    if i == 0 {
        seq![Seq::empty()]
    } else {
        let p = split_upto(s, sep, (i - 1) as nat);
        if s[i - 1] == sep {
            p.push(Seq::empty())
        } else {
            p.update(p.len() - 1, p.last().push(s[i - 1]))
        }
    }
}

/// The pieces of `s` between occurrences of `sep`, as `str::split` gives them.
pub open spec fn split_on(s: Seq<char>, sep: char) -> Seq<Seq<char>> {
    split_upto(s, sep, s.len())
}

pub open spec fn is_digit(c: char) -> bool {
    '0' <= c && c <= '9'
}

/// The number that the decimal digits `d` stand for.
pub open spec fn digits_value(d: Seq<char>) -> nat
    decreases d.len(),
{
    if d.len() == 0 {
        0
    } else {
        digits_value(d.drop_last()) * 10 + ((d.last() as u32) - 48) as nat
    }
}

/// `s` without a leading `+`.
pub open spec fn unsigned_part(s: Seq<char>) -> Seq<char> {
    if s.len() > 0 && s[0] == '+' {
        s.drop_first()
    } else {
        s
    }
}

/// The value of `s` read as an unsigned byte: an optional `+`, then one or
/// more decimal digits standing for at most 255.
pub open spec fn byte_value(s: Seq<char>) -> Option<nat> {
    let d = unsigned_part(s);
    if d.len() > 0 && (forall|i: int| 0 <= i < d.len() ==> is_digit(#[trigger] d[i]))
        && digits_value(d) <= 255 {
        Some(digits_value(d))
    } else {
        None
    }
}

/// Four dot-separated pieces, each an unsigned byte.
pub open spec fn valid_ip(s: Seq<char>) -> bool {
    let parts = split_on(s, '.');
    parts.len() == 4 && forall|i: int| 0 <= i < 4 ==> (#[trigger] byte_value(parts[i])) is Some
}

/// An address, or an address, one `/` and a prefix length of at most 32.
pub open spec fn valid_ip_pattern(s: Seq<char>) -> bool {
    let parts = split_on(s, '/');
    if parts.len() == 1 {
        valid_ip(s)
    } else {
        parts.len() == 2 && valid_ip(parts[0]) && (byte_value(parts[1]) matches Some(m) && m <= 32)
    }
}

pub open spec fn piece_views(v: Seq<Vec<char>>) -> Seq<Seq<char>> {
    v.map_values(|p: Vec<char>| p@)
}

fn chars_of(s: &str) -> (r: Vec<char>)
    ensures
        r@ == s@,
{
    let n = s.unicode_len();
    let mut out: Vec<char> = Vec::new();
    let mut i: usize = 0;
    while i < n
        invariant
            n == s@.len(),
            i <= n,
            out@ == s@.take(i as int),
        decreases n - i,
    {
        out.push(s.get_char(i));
        proof {
            assert(out@ =~= s@.take(i + 1));
        }
        i = i + 1;
    }
    proof {
        assert(s@.take(n as int) =~= s@);
    }
    out
}

fn split_chars(s: &Vec<char>, sep: char) -> (r: Vec<Vec<char>>)
    ensures
        piece_views(r@) == split_on(s@, sep),
{
    let mut done: Vec<Vec<char>> = Vec::new();
    let mut current: Vec<char> = Vec::new();
    let mut i: usize = 0;
    while i < s.len()
        invariant
            i <= s@.len(),
            split_upto(s@, sep, i as nat) == piece_views(done@).push(current@),
        decreases s@.len() - i,
    {
        let c = s[i];
        let ghost p = split_upto(s@, sep, i as nat);
        if c == sep {
            let ghost before = done@;
            done.push(current);
            current = Vec::new();
            proof {
                assert(piece_views(done@) =~= piece_views(before).push(p.last()));
                assert(split_upto(s@, sep, (i + 1) as nat) == p.push(Seq::empty()));
            }
        } else {
            let ghost cur = current@;
            current.push(c);
            proof {
                assert(split_upto(s@, sep, (i + 1) as nat) == p.update(p.len() - 1, p.last().push(c)));
                assert(p.update(p.len() - 1, p.last().push(c)) =~= piece_views(done@).push(current@));
            }
        }
        i = i + 1;
    }
    let ghost before = done@;
    done.push(current);
    proof {
        assert(piece_views(done@) =~= piece_views(before).push(done@.last()@));
    }
    done
}

fn byte_of(s: &Vec<char>) -> (r: Option<u8>)
    ensures
        match r {
            Some(v) => byte_value(s@) == Some(v as nat),
            None => byte_value(s@) is None,
        },
{
    let start: usize = if s.len() > 0 && s[0] == '+' {
        1
    } else {
        0
    };
    let ghost d = unsigned_part(s@);
    proof {
        assert(d =~= s@.skip(start as int));
    }
    if start >= s.len() {
        return None;
    }
    let mut val: u32 = 0;
    let mut i: usize = start;
    proof {
        assert(d.take(0).len() == 0);
    }
    while i < s.len()
        invariant
            start <= i <= s@.len(),
            d == s@.skip(start as int),
            d == unsigned_part(s@),
            forall|k: int| 0 <= k < i - start ==> is_digit(#[trigger] d[k]),
            val == (if digits_value(d.take(i - start)) > 255 {
                256
            } else {
                digits_value(d.take(i - start))
            }),
        decreases s@.len() - i,
    {
        let c = s[i];
        if !('0' <= c && c <= '9') {
            proof {
                assert(d[(i - start) as int] == c);
                assert(!is_digit(d[(i - start) as int]));
            }
            return None;
        }
        proof {
            assert(d.take(i - start + 1).drop_last() =~= d.take(i - start));
        }
        let digit: u32 = (c as u32) - 48;
        if val > 255 {
            val = 256;
        } else {
            val = val * 10 + digit;
            if val > 255 {
                val = 256;
            }
        }
        i = i + 1;
    }
    proof {
        assert(d.take(i - start) =~= d);
    }
    if val > 255 {
        None
    } else {
        Some(val as u8)
    }
}

fn ip_of_chars(s: &Vec<char>) -> (r: bool)
    ensures
        r == valid_ip(s@),
{
    let parts = split_chars(s, '.');
    if parts.len() != 4 {
        return false;
    }
    let mut i: usize = 0;
    while i < 4
        invariant
            i <= 4,
            parts@.len() == 4,
            piece_views(parts@) == split_on(s@, '.'),
            forall|k: int| 0 <= k < i ==> (#[trigger] byte_value(split_on(s@, '.')[k])) is Some,
        decreases 4 - i,
    {
        proof {
            assert(piece_views(parts@)[i as int] == parts@[i as int]@);
        }
        if byte_of(&parts[i]).is_none() {
            return false;
        }
        i = i + 1;
    }
    true
}

/// Whether `ip` is a dotted IPv4 address: four pieces, each an unsigned byte.
pub fn is_valid_ip(ip: &str) -> (r: bool)
    ensures
        r == valid_ip(ip@),
{
    let s = chars_of(ip);
    ip_of_chars(&s)
}

/// Whether `pattern` is an IPv4 address or a CIDR block: an address, `/`,
/// and a prefix length of at most 32.
pub fn is_valid_ip_pattern(pattern: &str) -> (r: bool)
    ensures
        r == valid_ip_pattern(pattern@),
{
    let s = chars_of(pattern);
    let parts = split_chars(&s, '/');
    if parts.len() == 1 {
        return ip_of_chars(&s);
    }
    if parts.len() != 2 {
        return false;
    }
    if !ip_of_chars(&parts[0]) {
        return false;
    }
    match byte_of(&parts[1]) {
        Some(m) => m <= 32,
        None => false,
    }
}

} // verus!
