use vstd::prelude::*;
use vstd::string::{StrSliceExecFns, StringExecFns};
use crate::error::FlowError;

verus! {

/// The decoded name/value pairs of the query of URL text `s`, in order, or
/// `None` where `s` does not parse as an absolute URL.
pub uninterp spec fn url_query_pairs(s: Seq<char>) -> Option<Seq<(Seq<char>, Seq<char>)>>;

/// The text that bytes `b` read as, each invalid UTF-8 sequence replaced by
/// U+FFFD.
pub uninterp spec fn lossy_text(b: Seq<u8>) -> Seq<char>;

/// Relies on url's `Url::parse` and `Url::query_pairs`: the query's pairs,
/// percent-decoded, in the order they appear.
#[verifier::external_body]
fn parse_query_pairs(s: &str) -> (r: Option<Vec<(String, String)>>)
    ensures
        match r {
            Some(v) => url_query_pairs(s@) == Some(
                v@.map_values(|p: (String, String)| (p.0@, p.1@)),
            ),
            None => url_query_pairs(s@) is None,
        },
{
    url::Url::parse(s).ok().map(
        |u| u.query_pairs().map(|(k, v)| (k.into_owned(), v.into_owned())).collect(),
    )
}

/// Relies on `String::from_utf8_lossy`.
#[verifier::external_body]
fn utf8_lossy(b: &[u8]) -> (r: String)
    ensures
        r@ == lossy_text(b@),
{
    String::from_utf8_lossy(b).into_owned()
}

/// The value of the first pair named `key`.
pub open spec fn first_value(ps: Seq<(Seq<char>, Seq<char>)>, key: Seq<char>) -> Option<Seq<char>>
    decreases ps.len(),
{
    if ps.len() == 0 {
        None
    } else if ps[0].0 == key {
        Some(ps[0].1)
    } else {
        first_value(ps.drop_first(), key)
    }
}

/// The value of the last pair named `key`.
pub open spec fn last_value(ps: Seq<(Seq<char>, Seq<char>)>, key: Seq<char>) -> Option<Seq<char>>
    decreases ps.len(),
{
    if ps.len() == 0 {
        None
    } else if ps.last().0 == key {
        Some(ps.last().1)
    } else {
        last_value(ps.drop_last(), key)
    }
}

pub open spec fn pair_views(v: Seq<(String, String)>) -> Seq<(Seq<char>, Seq<char>)> {
    v.map_values(|p: (String, String)| (p.0@, p.1@))
}

/// The value of the first pair named `key`.
pub fn first_query_value(pairs: &Vec<(String, String)>, key: &String) -> (r: Option<String>)
    ensures
        match r {
            Some(v) => first_value(pair_views(pairs@), key@) == Some(v@),
            None => first_value(pair_views(pairs@), key@) is None,
        },
{
    let ghost ps = pair_views(pairs@);
    let mut i: usize = 0;
    proof {
        assert(ps.skip(0) =~= ps);
    }
    while i < pairs.len()
        invariant
            i <= pairs@.len(),
            ps == pair_views(pairs@),
            first_value(ps, key@) == first_value(ps.skip(i as int), key@),
        decreases pairs@.len() - i,
    {
        proof {
            assert(ps.skip(i as int).drop_first() =~= ps.skip(i + 1));
        }
        if pairs[i].0 == *key {
            return Some(pairs[i].1.clone());
        }
        i = i + 1;
    }
    None
}

/// The value of the last pair named `key`.
pub fn last_query_value(pairs: &Vec<(String, String)>, key: &String) -> (r: Option<String>)
    ensures
        match r {
            Some(v) => last_value(pair_views(pairs@), key@) == Some(v@),
            None => last_value(pair_views(pairs@), key@) is None,
        },
{
    let ghost ps = pair_views(pairs@);
    let mut i: usize = pairs.len();
    proof {
        assert(ps.take(i as int) =~= ps);
    }
    while i > 0
        invariant
            i <= pairs@.len(),
            ps == pair_views(pairs@),
            last_value(ps, key@) == last_value(ps.take(i as int), key@),
        decreases i,
    {
        proof {
            assert(ps.take(i as int).drop_last() =~= ps.take(i - 1));
        }
        if pairs[i - 1].0 == *key {
            return Some(pairs[i - 1].1.clone());
        }
        i = i - 1;
    }
    None
}

/// `s` begins with the four characters `http`.
pub open spec fn starts_with_http(s: Seq<char>) -> bool {
    s.len() >= 4 && s[0] == 'h' && s[1] == 't' && s[2] == 't' && s[3] == 'p'
}

/// The code that a manual submission stands for: the `code` query value of a
/// URL that begins with `http`, or else the text itself.
pub open spec fn manual_code(s: Seq<char>) -> Seq<char> {
    if starts_with_http(s) {
        match url_query_pairs(s) {
            Some(ps) => match first_value(ps, "code"@) {
                Some(c) => c,
                None => s,
            },
            None => s,
        }
    } else {
        s
    }
}

/// Takes the authorization code out of what a user pasted: either the bare
/// code or the whole redirect URL.
pub fn extract_manual_code(code_input: &str) -> (r: String)
    ensures
        r@ == manual_code(code_input@),
{
    let n = code_input.unicode_len();
    let is_url = n >= 4 && code_input.get_char(0) == 'h' && code_input.get_char(1) == 't'
        && code_input.get_char(2) == 't' && code_input.get_char(3) == 'p';
    if !is_url {
        return code_input.to_string();
    }
    match parse_query_pairs(code_input) {
        Some(pairs) => {
            let key = "code".to_string();
            match first_query_value(&pairs, &key) {
                Some(c) => c,
                None => code_input.to_string(),
            }
        },
        None => code_input.to_string(),
    }
}

/// Whitespace as a request line's tokens are separated by.
pub open spec fn is_space(b: u8) -> bool {
    b == 32 || (9 <= b && b <= 13)
}

/// The first index at or after `i` below `end` whose byte is whitespace
/// (`ws`) or is not (`!ws`); `end` where there is none.
pub open spec fn scan(s: Seq<u8>, i: nat, end: nat, ws: bool) -> nat
    decreases end - i,
{
    if i >= end {
        end
    } else if is_space(s[i as int]) == ws {
        i
    } else {
        scan(s, i + 1, end, ws)
    }
}

/// The first index at or after `i` of a line feed, or `s.len()`.
pub open spec fn line_end(s: Seq<u8>, i: nat) -> nat
    decreases s.len() - i,
{
    if i >= s.len() {
        s.len()
    } else if s[i as int] == 10 {
        i
    } else {
        line_end(s, i + 1)
    }
}

/// The second whitespace-separated token of the first line of `req`: the
/// target of an HTTP request line.
pub open spec fn request_target(req: Seq<u8>) -> Option<Seq<u8>> {
    let end = line_end(req, 0);
    let a = scan(req, 0, end, false);
    let b = scan(req, a, end, true);
    let c = scan(req, b, end, false);
    let d = scan(req, c, end, true);
    if c < end {
        Some(req.subrange(c as int, d as int))
    } else {
        None
    }
}

/// The last `code` and the last `state` in the query of a callback request.
pub open spec fn callback_params(req: Seq<u8>) -> (Option<Seq<char>>, Option<Seq<char>>) {
    match request_target(req) {
        None => (None, None),
        Some(path) => match url_query_pairs("http://localhost"@ + lossy_text(path)) {
            None => (None, None),
            Some(ps) => (last_value(ps, "code"@), last_value(ps, "state"@)),
        },
    }
}

/// What a callback request delivers: its code where the code is there and its
/// state equals the expected CSRF token, a state mismatch where the code is
/// there and the state is not that token, a missing code otherwise.
pub open spec fn callback_result(req: Seq<u8>, expected: Option<Seq<char>>) -> Result<Seq<char>, FlowError> {
    let (code, state) = callback_params(req);
    match code {
        None => Err(FlowError::MissingCode),
        Some(c) => if expected is Some && state == expected {
            Ok(c)
        } else {
            Err(FlowError::StateMismatch)
        },
    }
}

pub open spec fn result_view(r: Result<String, FlowError>) -> Result<Seq<char>, FlowError> {
    match r {
        Ok(s) => Ok(s@),
        Err(e) => Err(e),
    }
}

fn scan_bytes(req: &[u8], i: usize, end: usize, ws: bool) -> (r: usize)
    requires
        i <= end <= req@.len(),
    ensures
        r == scan(req@, i as nat, end as nat, ws),
        i <= r <= end,
{
    let mut k: usize = i;
    while k < end
        invariant
            i <= k <= end <= req@.len(),
            scan(req@, i as nat, end as nat, ws) == scan(req@, k as nat, end as nat, ws),
        decreases end - k,
    {
        let b = req[k];
        if (b == 32 || (9 <= b && b <= 13)) == ws {
            return k;
        }
        k = k + 1;
    }
    k
}

fn find_line_end(req: &[u8]) -> (r: usize)
    ensures
        r == line_end(req@, 0),
        r <= req@.len(),
{
    let mut k: usize = 0;
    while k < req.len()
        invariant
            k <= req@.len(),
            line_end(req@, 0) == line_end(req@, k as nat),
        decreases req@.len() - k,
    {
        if req[k] == 10 {
            return k;
        }
        k = k + 1;
    }
    k
}

/// Reads the `code` and `state` query values of a callback request and
/// decides what it delivers, given the CSRF token that the attempt expects.
pub fn handle_callback(request: &[u8], expected_state: Option<&str>) -> (r: Result<String, FlowError>)
    ensures
        result_view(r) == callback_result(
            request@,
            match expected_state {
                Some(s) => Some(s@),
                None => None,
            },
        ),
{
    let end = find_line_end(request);
    let a = scan_bytes(request, 0, end, false);
    let b = scan_bytes(request, a, end, true);
    let c = scan_bytes(request, b, end, false);
    let d = scan_bytes(request, c, end, true);
    if c >= end {
        return Err(FlowError::MissingCode);
    }
    let mut path: Vec<u8> = Vec::new();
    let mut i: usize = c;
    while i < d
        invariant
            c <= i <= d <= request@.len(),
            path@ == request@.subrange(c as int, i as int),
        decreases d - i,
    {
        path.push(request[i]);
        proof {
            assert(path@ =~= request@.subrange(c as int, i + 1));
        }
        i = i + 1;
    }
    let text = utf8_lossy(path.as_slice());
    let url = "http://localhost".to_string().concat(text.as_str());
    let pairs = match parse_query_pairs(url.as_str()) {
        Some(p) => p,
        None => return Err(FlowError::MissingCode),
    };
    let code_key = "code".to_string();
    let state_key = "state".to_string();
    let code = match last_query_value(&pairs, &code_key) {
        Some(c) => c,
        None => return Err(FlowError::MissingCode),
    };
    let state = last_query_value(&pairs, &state_key);
    let matches = match (expected_state, state) {
        (Some(e), Some(s)) => s == e.to_string(),
        _ => false,
    };
    if matches {
        Ok(code)
    } else {
        Err(FlowError::StateMismatch)
    }
}

/// The page sent back for a callback that delivered a code.
pub open spec fn success_page() -> Seq<char> {
    "HTTP/1.1 200 OK\r\nContent-Type: text/html; charset=utf-8\r\n\r\n<html><body style='font-family: sans-serif; text-align: center; padding: 50px;'><h1 style='color: green;'>\u{2705} Authorization Successful!</h1><p>You can close this window and return to the application.</p><script>setTimeout(function() { window.close(); }, 2000);</script></body></html>"@
}

/// The page sent back for any other callback.
pub open spec fn failure_page() -> Seq<char> {
    "HTTP/1.1 400 Bad Request\r\nContent-Type: text/html; charset=utf-8\r\n\r\n<html><body style='font-family: sans-serif; text-align: center; padding: 50px;'><h1 style='color: red;'>\u{274c} Authorization Failed</h1><p>Failed to obtain Authorization Code. Please return to the app and try again.</p></body></html>"@
}

/// The full HTTP response for a callback that delivered a code.
pub fn oauth_success_html() -> (r: &'static str)
    ensures
        r@ == success_page(),
{
    "HTTP/1.1 200 OK\r\nContent-Type: text/html; charset=utf-8\r\n\r\n<html><body style='font-family: sans-serif; text-align: center; padding: 50px;'><h1 style='color: green;'>\u{2705} Authorization Successful!</h1><p>You can close this window and return to the application.</p><script>setTimeout(function() { window.close(); }, 2000);</script></body></html>"
}

/// The full HTTP response for a callback that did not.
pub fn oauth_fail_html() -> (r: &'static str)
    ensures
        r@ == failure_page(),
{
    "HTTP/1.1 400 Bad Request\r\nContent-Type: text/html; charset=utf-8\r\n\r\n<html><body style='font-family: sans-serif; text-align: center; padding: 50px;'><h1 style='color: red;'>\u{274c} Authorization Failed</h1><p>Failed to obtain Authorization Code. Please return to the app and try again.</p></body></html>"
}

/// The response to write back for what a callback delivered.
pub fn response_for(result: &Result<String, FlowError>) -> (r: &'static str)
    ensures
        r@ == (if result is Ok {
            success_page()
        } else {
            failure_page()
        }),
{
    match result {
        Ok(_) => oauth_success_html(),
        Err(_) => oauth_fail_html(),
    }
}

} // verus!
