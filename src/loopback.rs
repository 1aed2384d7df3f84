use vstd::prelude::*;
use vstd::string::StringExecFns;

verus! {

/// The character of decimal digit `d`.
pub open spec fn digit_char(d: nat) -> char {
    if d == 0 { '0' }
    else if d == 1 { '1' }
    else if d == 2 { '2' }
    else if d == 3 { '3' }
    else if d == 4 { '4' }
    else if d == 5 { '5' }
    else if d == 6 { '6' }
    else if d == 7 { '7' }
    else if d == 8 { '8' }
    else { '9' }
}

/// The decimal numeral of `n`, without leading zeros.
pub open spec fn decimal(n: nat) -> Seq<char>
    decreases n,
{
    if n < 10 {
        seq![digit_char(n)]
    } else {
        decimal(n / 10) + seq![digit_char(n % 10)]
    }
}

/// The host of the redirect URI: `localhost` where both loopback stacks are
/// bound, so that either resolution reaches a listener, else the one address
/// that is bound.
pub open spec fn redirect_host(has_ipv4: bool, has_ipv6: bool) -> Seq<char> {
    if has_ipv4 && has_ipv6 {
        "localhost"@
    } else if has_ipv4 {
        "127.0.0.1"@
    } else {
        "[::1]"@
    }
}

/// The redirect URI that the provider sends the browser back to.
pub open spec fn redirect_uri(port: u16, has_ipv4: bool, has_ipv6: bool) -> Seq<char> {
    "http://"@ + redirect_host(has_ipv4, has_ipv6) + ":"@ + decimal(port as nat) + "/oauth-callback"@
}

fn digit_text(d: u16) -> (r: &'static str)
    requires
        d < 10,
    ensures
        r@ == seq![digit_char(d as nat)],
{
    proof {
        reveal_strlit("0");
        reveal_strlit("1");
        reveal_strlit("2");
        reveal_strlit("3");
        reveal_strlit("4");
        reveal_strlit("5");
        reveal_strlit("6");
        reveal_strlit("7");
        reveal_strlit("8");
        reveal_strlit("9");
    }
    if d == 0 { "0" }
    else if d == 1 { "1" }
    else if d == 2 { "2" }
    else if d == 3 { "3" }
    else if d == 4 { "4" }
    else if d == 5 { "5" }
    else if d == 6 { "6" }
    else if d == 7 { "7" }
    else if d == 8 { "8" }
    else { "9" }
}

/// The decimal numeral of `n`.
pub fn decimal_text(n: u16) -> (r: String)
    ensures
        r@ == decimal(n as nat),
    decreases n,
{
    if n < 10 {
        digit_text(n).to_string()
    } else {
        let head = decimal_text(n / 10);
        head.concat(digit_text(n % 10))
    }
}

/// The redirect URI for listeners bound on `port`, on the IPv4 loopback,
/// the IPv6 loopback, or both.
pub fn redirect_uri_for(port: u16, has_ipv4: bool, has_ipv6: bool) -> (r: String)
    ensures
        r@ == redirect_uri(port, has_ipv4, has_ipv6),
{
    let host: &str = if has_ipv4 && has_ipv6 {
        "localhost"
    } else if has_ipv4 {
        "127.0.0.1"
    } else {
        "[::1]"
    };
    let digits = decimal_text(port);
    "http://".to_string().concat(host).concat(":").concat(digits.as_str()).concat("/oauth-callback")
}

} // verus!
