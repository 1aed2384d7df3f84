use vstd::prelude::*;
use base64::Engine;
use vstd::string::StringSliceAdditionalSpecFns;
use vstd::utf8::{encode_utf8, is_ascii_chars, is_ascii_chars_encode_utf8};
use crate::error::{EditError, LegacyEditError};
use crate::message::{field_len, remove_field, removed};
use crate::varint::{encode_varint, varint_bytes, varint_round_trip};

verus! {

/// The standard-alphabet, padded base64 text of `b`.
pub uninterp spec fn base64_text(b: Seq<u8>) -> Seq<char>;

/// The bytes that standard, padded base64 text `t` stands for, or `None`
/// where `t` is not such text.
pub uninterp spec fn base64_decoded(t: Seq<char>) -> Option<Seq<u8>>;

/// Relies on base64's `STANDARD.encode`: the standard alphabet with padding,
/// four ASCII characters for every three bytes or part of three.
/// It panics only where the encoded length overflows `usize`.
#[verifier::external_body]
fn encode_base64(b: &[u8]) -> (r: String)
    requires
        b@.len() <= 3 * (usize::MAX / 4),
    ensures
        r@ == base64_text(b@),
        r@.len() == 4 * ((b@.len() + 2) / 3),
        is_ascii_chars(r@),
{
    base64::engine::general_purpose::STANDARD.encode(b)
}

/// Relies on base64's `STANDARD.decode`, which reads padded standard-alphabet
/// text; its output buffer holds at most three bytes per four bytes of input,
/// rounded up.
#[verifier::external_body]
fn decode_base64(t: &str) -> (r: Option<Vec<u8>>)
    ensures
        match r {
            Some(v) => base64_decoded(t@) == Some(v@) && v@.len() <= (t.spec_bytes().len() + 3)
                / 4 * 3,
            None => base64_decoded(t@) is None,
        },
{
    base64::engine::general_purpose::STANDARD.decode(t).ok()
}

/// The two's-complement reading of `e` as an unsigned 64-bit number.
pub open spec fn unsigned_of(e: i64) -> nat {
    if e >= 0 {
        e as nat
    } else {
        (e + 0x1_0000_0000_0000_0000) as nat
    }
}

/// A length-delimited occurrence of field `num` holding `payload`.
pub open spec fn delimited_field(num: nat, payload: Seq<u8>) -> Seq<u8> {
    varint_bytes(num * 8 + 2) + varint_bytes(payload.len()) + payload
}

/// A varint occurrence of field `num` holding `v`.
pub open spec fn varint_field(num: nat, v: nat) -> Seq<u8> {
    varint_bytes(num * 8) + varint_bytes(v)
}

/// The token type written into every token record.
pub open spec fn bearer() -> Seq<u8> {
    "Bearer".spec_bytes()
}

/// The key under which the unified record stores the token.
pub open spec fn sentinel_key() -> Seq<u8> {
    "oauthTokenInfoSentinelKey".spec_bytes()
}

/// Fields 1 to 4 of a token record: access token, token type, refresh token
/// and a nested timestamp whose field 1 holds the expiry in seconds.
pub open spec fn token_info(access: Seq<u8>, refresh: Seq<u8>, expiry: i64) -> Seq<u8> {
    delimited_field(1, access) + delimited_field(2, bearer()) + delimited_field(3, refresh)
        + delimited_field(4, varint_field(1, unsigned_of(expiry)))
}

/// The token record wrapped as field 6.
pub open spec fn oauth_field(access: Seq<u8>, refresh: Seq<u8>, expiry: i64) -> Seq<u8> {
    delimited_field(6, token_info(access, refresh, expiry))
}

/// The address as field 2.
pub open spec fn email_field(email: Seq<u8>) -> Seq<u8> {
    delimited_field(2, email)
}

/// The unified record around the text form of a token record: the text as
/// field 1 of a wrapper, the wrapper as field 2 beside the sentinel key in
/// field 1, all of it as field 1 of the root.
pub open spec fn unified_wrapping(encoded: Seq<u8>) -> Seq<u8> {
    delimited_field(
        1,
        delimited_field(1, sentinel_key()) + delimited_field(2, delimited_field(1, encoded)),
    )
}

/// The unified record of a credential: its token record, in base64 text,
/// inside the unified wrapping.
pub open spec fn unified_token(access: Seq<u8>, refresh: Seq<u8>, expiry: i64) -> Seq<u8> {
    unified_wrapping(encode_utf8(base64_text(token_info(access, refresh, expiry))))
}

/// The legacy state record with fields 1, 2 and 6 taken out, then the new
/// address and token record appended.
pub open spec fn legacy_rewritten(
    blob: Seq<u8>,
    email: Seq<u8>,
    access: Seq<u8>,
    refresh: Seq<u8>,
    expiry: i64,
) -> Result<Seq<u8>, EditError> {
    match removed(blob, 1) {
        Err(e) => Err(e),
        Ok(a) => match removed(a, 2) {
            Err(e) => Err(e),
            Ok(b) => match removed(b, 6) {
                Err(e) => Err(e),
                Ok(c) => Ok(c + email_field(email) + oauth_field(access, refresh, expiry)),
            },
        },
    }
}

/// The largest input that the builders take: encodings of anything longer
/// could overflow the machine's sizes.
pub open spec fn fits(b: Seq<u8>) -> bool {
    b.len() <= usize::MAX / 16
}

/// Appends `b` to `out`.
fn push_all(out: &mut Vec<u8>, b: &[u8])
    ensures
        final(out)@ == old(out)@ + b@,
{
    let mut i: usize = 0;
    while i < b.len()
        invariant
            i <= b@.len(),
            out@ == old(out)@ + b@.subrange(0, i as int),
        decreases b@.len() - i,
    {
        out.push(b[i]);
        proof {
            assert(out@ =~= old(out)@ + b@.subrange(0, i + 1));
        }
        i = i + 1;
    }
    proof {
        assert(b@.subrange(0, b@.len() as int) =~= b@);
    }
}

/// Builds a length-delimited occurrence of field `num` holding `payload`.
fn delimited(num: u64, payload: &[u8]) -> (r: Vec<u8>)
    requires
        1 <= num <= 6,
    ensures
        r@ == delimited_field(num as nat, payload@),
{
    let mut f = encode_varint(num * 8 + 2);
    let len = encode_varint(payload.len() as u64);
    push_all(&mut f, len.as_slice());
    push_all(&mut f, payload);
    f
}

proof fn lemma_delimited_len(num: u64, payload: Seq<u8>)
    requires
        1 <= num <= 6,
        payload.len() <= u64::MAX,
    ensures
        delimited_field(num as nat, payload).len() <= payload.len() + 20,
{
    varint_round_trip((num * 8 + 2) as u64, Seq::empty());
    varint_round_trip(payload.len() as u64, Seq::empty());
}

/// Fields 1 to 4 of a token record, without a wrapper.
pub fn create_token_info(access_token: &str, refresh_token: &str, expiry: i64) -> (r: Vec<u8>)
    requires
        fits(access_token.spec_bytes()),
        fits(refresh_token.spec_bytes()),
    ensures
        r@ == token_info(access_token.spec_bytes(), refresh_token.spec_bytes(), expiry),
        r@.len() <= access_token.spec_bytes().len() + refresh_token.spec_bytes().len() + 120,
{
    let e: u64 = if expiry >= 0 {
        expiry as u64
    } else {
        (expiry as i128 + 0x1_0000_0000_0000_0000i128) as u64
    };
    let mut seconds = encode_varint(8);
    let ev = encode_varint(e);
    push_all(&mut seconds, ev.as_slice());
    let bearer_text: &[u8] = "Bearer".as_bytes();
    proof {
        assert(seconds@ == varint_field(1, unsigned_of(expiry)));
        varint_round_trip(e, Seq::empty());
        varint_round_trip(8, Seq::empty());
        reveal_strlit("Bearer");
        assert(vstd::string::is_ascii("Bearer"));
        vstd::string::is_ascii_spec_bytes("Bearer");
        assert(bearer_text@.len() == 6);
        lemma_delimited_len(1, access_token.spec_bytes());
        lemma_delimited_len(3, refresh_token.spec_bytes());
        lemma_delimited_len(4, seconds@);
        lemma_delimited_len(2, bearer_text@);
    }
    let mut info = delimited(1, access_token.as_bytes());
    let f2 = delimited(2, bearer_text);
    push_all(&mut info, f2.as_slice());
    let f3 = delimited(3, refresh_token.as_bytes());
    push_all(&mut info, f3.as_slice());
    let f4 = delimited(4, seconds.as_slice());
    push_all(&mut info, f4.as_slice());
    info
}

/// The token record wrapped as field 6, ready to append to a state record.
pub fn create_oauth_field(access_token: &str, refresh_token: &str, expiry: i64) -> (r: Vec<u8>)
    requires
        fits(access_token.spec_bytes()),
        fits(refresh_token.spec_bytes()),
    ensures
        r@ == oauth_field(access_token.spec_bytes(), refresh_token.spec_bytes(), expiry),
{
    let info = create_token_info(access_token, refresh_token, expiry);
    delimited(6, info.as_slice())
}

/// The address as field 2, ready to append to a state record.
pub fn create_email_field(email: &str) -> (r: Vec<u8>)
    ensures
        r@ == email_field(email.spec_bytes()),
{
    delimited(2, email.as_bytes())
}

/// The unified record around `encoded_info`, the text form of a token record.
pub fn wrap_unified_token(encoded_info: &str) -> (r: Vec<u8>)
    ensures
        r@ == unified_wrapping(encoded_info.spec_bytes()),
{
    let inner = delimited(1, encoded_info.as_bytes());
    let wrapper = delimited(2, inner.as_slice());
    let mut payload = delimited(1, "oauthTokenInfoSentinelKey".as_bytes());
    push_all(&mut payload, wrapper.as_slice());
    delimited(1, payload.as_slice())
}

/// The unified record of a credential: the unwrapped token record in
/// standard base64 text, nested as the unified wrapping lays out.
pub fn create_unified_token_message(access_token: &str, refresh_token: &str, expiry: i64) -> (r:
    Vec<u8>)
    requires
        fits(access_token.spec_bytes()),
        fits(refresh_token.spec_bytes()),
    ensures
        r@ == unified_token(access_token.spec_bytes(), refresh_token.spec_bytes(), expiry),
{
    let info = create_token_info(access_token, refresh_token, expiry);
    let text = encode_base64(info.as_slice());
    wrap_unified_token(text.as_str())
}

proof fn lemma_removed_len(s: Seq<u8>, n: u32)
    ensures
        removed(s, n) matches Ok(r) ==> r.len() <= s.len(),
    decreases s.len(),
{
    if s.len() > 0 {
        if let Ok((_, _, k)) = field_len(s) {
            if 0 < k <= s.len() {
                lemma_removed_len(s.skip(k as int), n);
            }
        }
    }
}

/// The rewritten legacy record of `blob`: fields 1, 2 and 6 taken out, the
/// new address and token record appended. Field 1 is not written back.
pub fn rewrite_legacy_record(
    blob: &[u8],
    email: &str,
    access_token: &str,
    refresh_token: &str,
    expiry: i64,
) -> (r: Result<Vec<u8>, EditError>)
    requires
        fits(email.spec_bytes()),
        fits(access_token.spec_bytes()),
        fits(refresh_token.spec_bytes()),
    ensures
        match r {
            Ok(v) => legacy_rewritten(
                blob@,
                email.spec_bytes(),
                access_token.spec_bytes(),
                refresh_token.spec_bytes(),
                expiry,
            ) == Ok::<Seq<u8>, EditError>(v@),
            Err(e) => legacy_rewritten(
                blob@,
                email.spec_bytes(),
                access_token.spec_bytes(),
                refresh_token.spec_bytes(),
                expiry,
            ) == Err::<Seq<u8>, EditError>(e),
        },
{
    let a = match remove_field(blob, 1) {
        Ok(v) => v,
        Err(e) => return Err(e),
    };
    let b = match remove_field(a.as_slice(), 2) {
        Ok(v) => v,
        Err(e) => return Err(e),
    };
    let mut c = match remove_field(b.as_slice(), 6) {
        Ok(v) => v,
        Err(e) => return Err(e),
    };
    let email_part = create_email_field(email);
    let token_part = create_oauth_field(access_token, refresh_token, expiry);
    push_all(&mut c, email_part.as_slice());
    push_all(&mut c, token_part.as_slice());
    Ok(c)
}

/// What rewriting the stored base64 text `old` gives: the base64 text of the
/// rewritten record, or why there is none.
pub open spec fn legacy_text_rewritten(
    old: Seq<char>,
    email: Seq<u8>,
    access: Seq<u8>,
    refresh: Seq<u8>,
    expiry: i64,
) -> Result<Seq<char>, LegacyEditError> {
    match base64_decoded(old) {
        None => Err(LegacyEditError::InvalidBase64),
        Some(blob) => match legacy_rewritten(blob, email, access, refresh, expiry) {
            Ok(v) => Ok(base64_text(v)),
            Err(e) => Err(LegacyEditError::Edit(e)),
        },
    }
}

/// Rewrites the stored legacy state value: decodes it from base64, takes
/// out fields 1, 2 and 6, appends the new address and token record, and
/// encodes the result again. Any failure leaves nothing to write.
pub fn edit_legacy_blob(
    old_base64: &str,
    email: &str,
    access_token: &str,
    refresh_token: &str,
    expiry: i64,
) -> (r: Result<String, LegacyEditError>)
    requires
        fits(old_base64.spec_bytes()),
        fits(email.spec_bytes()),
        fits(access_token.spec_bytes()),
        fits(refresh_token.spec_bytes()),
    ensures
        match r {
            Ok(t) => legacy_text_rewritten(
                old_base64@,
                email.spec_bytes(),
                access_token.spec_bytes(),
                refresh_token.spec_bytes(),
                expiry,
            ) == Ok::<Seq<char>, LegacyEditError>(t@),
            Err(e) => legacy_text_rewritten(
                old_base64@,
                email.spec_bytes(),
                access_token.spec_bytes(),
                refresh_token.spec_bytes(),
                expiry,
            ) == Err::<Seq<char>, LegacyEditError>(e),
        },
{
    let blob = match decode_base64(old_base64) {
        Some(v) => v,
        None => return Err(LegacyEditError::InvalidBase64),
    };
    let edited = rewrite_legacy_record(blob.as_slice(), email, access_token, refresh_token, expiry);
    match edited {
        Ok(v) => {
            proof {
                let e = email.spec_bytes();
                let a = access_token.spec_bytes();
                let f = refresh_token.spec_bytes();
                let x = removed(blob@, 1)->Ok_0;
                let y = removed(x, 2)->Ok_0;
                let z = removed(y, 6)->Ok_0;
                lemma_removed_len(blob@, 1);
                lemma_removed_len(x, 2);
                lemma_removed_len(y, 6);
                assert(v@ == z + email_field(e) + oauth_field(a, f, expiry));
                lemma_delimited_len(2, e);
                token_info_len(a, f, expiry);
                lemma_delimited_len(6, token_info(a, f, expiry));
            }
            Ok(encode_base64(v.as_slice()))
        },
        Err(e) => Err(LegacyEditError::Edit(e)),
    }
}

proof fn token_info_len(a: Seq<u8>, f: Seq<u8>, expiry: i64)
    requires
        fits(a),
        fits(f),
    ensures
        token_info(a, f, expiry).len() <= a.len() + f.len() + 120,
{
    reveal_strlit("Bearer");
    assert(vstd::string::is_ascii("Bearer"));
    vstd::string::is_ascii_spec_bytes("Bearer");
    assert(bearer().len() == 6);
    lemma_delimited_len(1, a);
    lemma_delimited_len(2, bearer());
    lemma_delimited_len(3, f);
    lemma_seconds_field_len(unsigned_of(expiry));
    lemma_delimited_len(4, varint_field(1, unsigned_of(expiry)));
}

proof fn lemma_seconds_field_len(v: nat)
    requires
        v < 0x1_0000_0000_0000_0000,
    ensures
        varint_field(1, v).len() <= 20,
{
    varint_round_trip(v as u64, Seq::empty());
    varint_round_trip(8, Seq::empty());
}

/// The value stored under the unified key: the base64 text of the unified
/// record of a credential.
pub fn unified_token_value(access_token: &str, refresh_token: &str, expiry: i64) -> (r: String)
    requires
        fits(access_token.spec_bytes()),
        fits(refresh_token.spec_bytes()),
    ensures
        r@ == base64_text(unified_token(access_token.spec_bytes(), refresh_token.spec_bytes(), expiry)),
{
    let info = create_token_info(access_token, refresh_token, expiry);
    let text = encode_base64(info.as_slice());
    let message = wrap_unified_token(text.as_str());
    proof {
        is_ascii_chars_encode_utf8(text@);
        let t = encode_utf8(text@);
        assert(t.len() == text@.len());
        reveal_strlit("oauthTokenInfoSentinelKey");
        assert(vstd::string::is_ascii("oauthTokenInfoSentinelKey"));
        vstd::string::is_ascii_spec_bytes("oauthTokenInfoSentinelKey");
        assert(sentinel_key().len() == 25);
        lemma_delimited_len(1, t);
        lemma_delimited_len(2, delimited_field(1, t));
        lemma_delimited_len(1, sentinel_key());
        lemma_delimited_len(
            1,
            delimited_field(1, sentinel_key()) + delimited_field(2, delimited_field(1, t)),
        );
    }
    encode_base64(message.as_slice())
}

} // verus!
