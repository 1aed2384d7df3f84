use vstd::prelude::*;
use vstd::arithmetic::power2::*;
use crate::error::EditError;

verus! {

/// The most groups a varint may have: ten groups of seven bits cover 64 bits.
pub const MAX_VARINT_GROUPS: usize = 10;

/// 2^64, the modulus of a decoded value.
pub open spec fn u64_modulus() -> nat {
    0x1_0000_0000_0000_0000
}

/// The base-128 encoding of `v`: seven bits per byte, least significant group
/// first, continuation bit 0x80 on every byte but the last.
pub open spec fn varint_bytes(v: nat) -> Seq<u8>
    decreases v,
{
    if v < 128 {
        seq![v as u8]
    } else {
        seq![(v % 128 + 128) as u8] + varint_bytes(v / 128)
    }
}

/// The number that a run of groups stands for, least significant group first.
pub open spec fn group_value(g: Seq<u8>) -> nat
    decreases g.len(),
{
    if g.len() == 0 {
        0
    } else {
        (g[0] % 128) as nat + 128 * group_value(g.drop_first())
    }
}

/// Index of the first byte of `s` without the continuation bit, or `s.len()`
/// when every byte has it.
pub open spec fn stop_index(s: Seq<u8>) -> nat
    decreases s.len(),
{
    if s.len() == 0 {
        0
    } else if s[0] < 128 {
        0
    } else {
        1 + stop_index(s.drop_first())
    }
}

/// Decoding the varint at the start of `s`: its value (modulo 2^64) and the
/// number of bytes it takes.
pub open spec fn varint_of(s: Seq<u8>) -> Result<(u64, nat), EditError> {
    let j = stop_index(s);
    if j >= 10 {
        Err(EditError::MalformedVarint)
    } else if j >= s.len() {
        Err(EditError::TruncatedInput)
    } else {
        Ok(((group_value(s.take(j + 1 as int)) % u64_modulus()) as u64, j + 1))
    }
}

/// Decoding the varint that starts at `off` in `data`: its value and the
/// offset just past it.
pub open spec fn varint_at(data: Seq<u8>, off: int) -> Result<(u64, int), EditError> {
    if off < 0 || off > data.len() {
        Err(EditError::TruncatedInput)
    } else {
        match varint_of(data.skip(off)) {
            Ok((v, n)) => Ok((v, off + n)),
            Err(e) => Err(e),
        }
    }
}

/// Encodes `value` as a base-128 varint.
pub fn encode_varint(value: u64) -> (r: Vec<u8>)
    ensures
        r@ == varint_bytes(value as nat),
{
    let mut buf: Vec<u8> = Vec::new();
    let mut v: u64 = value;
    while v >= 128
        invariant
            buf@ + varint_bytes(v as nat) == varint_bytes(value as nat),
        decreases v,
    {
        let b: u8 = (v % 128 + 128) as u8;
        let ghost before = buf@;
        buf.push(b);
        proof {
            assert(varint_bytes(v as nat) == seq![b] + varint_bytes((v / 128) as nat));
            assert(before + varint_bytes(v as nat) =~= buf@ + varint_bytes((v / 128) as nat));
        }
        v = v / 128;
    }
    let ghost before = buf@;
    buf.push(v as u8);
    proof {
        assert(before + varint_bytes(v as nat) =~= buf@);
    }
    buf
}

proof fn lemma_stop_index(s: Seq<u8>, i: nat)
    requires
        i <= s.len(),
        forall|k: int| 0 <= k < i ==> s[k] >= 128,
    ensures
        stop_index(s) >= i,
        i < s.len() && s[i as int] < 128 ==> stop_index(s) == i,
        i == s.len() ==> stop_index(s) == i,
    decreases i,
{
    if i > 0 {
        lemma_stop_index(s.drop_first(), (i - 1) as nat);
    }
}

proof fn lemma_group_value_step(g: Seq<u8>, k: int)
    requires
        0 < k <= g.len(),
    ensures
        group_value(g.subrange(k - 1, g.len() as int)) == (g[k - 1] % 128) as nat + 128
            * group_value(g.subrange(k, g.len() as int)),
{
    let t = g.subrange(k - 1, g.len() as int);
    assert(t.drop_first() =~= g.subrange(k, g.len() as int));
}

proof fn lemma_group_value_bound(g: Seq<u8>)
    ensures
        group_value(g) < pow2(7 * g.len()),
    decreases g.len(),
{
    lemma2_to64();
    if g.len() > 0 {
        lemma_group_value_bound(g.drop_first());
        let a: nat = (7 * (g.len() - 1)) as nat;
        let p = pow2(a);
        lemma_pow2_adds(a, 7);
        assert(a + 7 == 7 * g.len());
        assert(pow2(7 * g.len()) == p * 128);
        let r = group_value(g.drop_first());
        let x = (g[0] % 128) as nat;
        assert(x + 128 * r < 128 * p) by (nonlinear_arith)
            requires
                r < p,
                x < 128,
        ;
    }
}

/// Reads the varint that starts at `offset` in `data`; on success returns its
/// value and the offset just past it.
pub fn read_varint(data: &[u8], offset: usize) -> (r: Result<(u64, usize), EditError>)
    ensures
        match r {
            Ok((v, p)) => varint_at(data@, offset as int) == Ok::<(u64, int), EditError>((v, p as int)),
            Err(e) => varint_at(data@, offset as int) == Err::<(u64, int), EditError>(e),
        },
{
    if offset > data.len() {
        return Err(EditError::TruncatedInput);
    }
    let ghost s = data@.skip(offset as int);
    let mut i: usize = 0;
    loop
        invariant
            offset <= data@.len(),
            s == data@.skip(offset as int),
            i <= MAX_VARINT_GROUPS,
            i <= s.len(),
            forall|k: int| 0 <= k < i ==> s[k] >= 128,
        ensures
            i < MAX_VARINT_GROUPS,
            i < s.len(),
            0 <= i < s.len() && s[i as int] < 128,
            forall|k: int| 0 <= k < i ==> s[k] >= 128,
        decreases MAX_VARINT_GROUPS - i,
    {
        if i == MAX_VARINT_GROUPS {
            proof {
                lemma_stop_index(s, i as nat);
            }
            return Err(EditError::MalformedVarint);
        }
        if i >= data.len() - offset {
            proof {
                lemma_stop_index(s, i as nat);
            }
            return Err(EditError::TruncatedInput);
        }
        if data[offset + i] < 128 {
            break;
        }
        i = i + 1;
    }
    proof {
        lemma_stop_index(s, i as nat);
    }
    let n: usize = data.len();
    assert(offset + i < n);
    let ghost g = s.take(i + 1 as int);
    // Fold the groups from the most significant one down.
    let mut acc: u128 = 0;
    let mut k: usize = i + 1;
    proof {
        assert(g.subrange(k as int, g.len() as int).len() == 0);
        lemma2_to64();
    }
    while k > 0
        invariant
            offset <= data@.len(),
            s == data@.skip(offset as int),
            i < MAX_VARINT_GROUPS,
            i < s.len(),
            offset + i < n,
            n == data@.len(),
            g == s.take(i + 1 as int),
            k <= i + 1,
            acc == group_value(g.subrange(k as int, g.len() as int)),
            acc < pow2(7 * (i + 1 - k) as nat),
        decreases k,
    {
        proof {
            lemma_group_value_step(g, k as int);
            lemma_group_value_bound(g.subrange(k as int - 1, g.len() as int));
            lemma2_to64();
            lemma2_to64_rest();
            assert(pow2(7) == 128);
            lemma_pow2_adds(7 * (i + 1 - k) as nat, 7);
            if 7 * (i + 1 - k) < 63 {
                lemma_pow2_strictly_increases(7 * (i + 1 - k) as nat, 63);
            }
            assert(acc < 0x8000_0000_0000_0000);
        }
        let x: u128 = (data[offset + k - 1] % 128) as u128;
        acc = acc * 128 + x;
        k = k - 1;
    }
    proof {
        assert(g.subrange(0, g.len() as int) =~= g);
    }
    let v: u64 = (acc % 0x1_0000_0000_0000_0000u128) as u64;
    Ok((v, offset + i + 1))
}

proof fn lemma_varint_bytes_facts(v: nat, t: Seq<u8>)
    ensures
        varint_bytes(v).len() >= 1,
        stop_index(varint_bytes(v) + t) == varint_bytes(v).len() - 1,
        group_value(varint_bytes(v)) == v,
    decreases v,
{
    let b = varint_bytes(v);
    if v >= 128 {
        lemma_varint_bytes_facts(v / 128, t);
        assert((b + t).drop_first() =~= varint_bytes(v / 128) + t);
        assert(b.drop_first() =~= varint_bytes(v / 128));
        assert(b[0] == (v % 128 + 128) as u8);
        assert(b[0] % 128 == v % 128);
        assert(v % 128 + 128 * (v / 128) == v);
    } else {
        assert((b + t)[0] == v as u8);
        assert(b.drop_first().len() == 0);
        assert(group_value(b.drop_first()) == 0);
    }
}

proof fn lemma_varint_len(v: nat, k: nat)
    requires
        k >= 1,
        v < pow2(7 * k),
    ensures
        varint_bytes(v).len() <= k,
    decreases k,
{
    lemma2_to64();
    if v >= 128 {
        let a: nat = (7 * (k - 1)) as nat;
        lemma_pow2_adds(a, 7);
        assert(a + 7 == 7 * k);
        let p = pow2(a);
        assert(v / 128 < p) by (nonlinear_arith)
            requires
                v < p * 128,
        ;
        if k == 1 {
            assert(pow2(7) == 128);
        } else {
            lemma_varint_len(v / 128, (k - 1) as nat);
        }
    }
}

/// Decoding the encoding of any `u64` from the start of a buffer, whatever
/// follows it, gives back the value and the encoding's length, at most ten
/// bytes.
pub proof fn varint_round_trip(v: u64, rest: Seq<u8>)
    ensures
        varint_bytes(v as nat).len() <= MAX_VARINT_GROUPS,
        varint_of(varint_bytes(v as nat) + rest) == Ok::<(u64, nat), EditError>(
            (v, varint_bytes(v as nat).len()),
        ),
        varint_at(varint_bytes(v as nat) + rest, 0) == Ok::<(u64, int), EditError>(
            (v, varint_bytes(v as nat).len() as int),
        ),
{
    let b = varint_bytes(v as nat);
    let s = b + rest;
    lemma_varint_bytes_facts(v as nat, rest);
    lemma2_to64();
    lemma2_to64_rest();
    lemma_pow2_strictly_increases(64, 70);
    lemma_varint_len(v as nat, 10);
    assert(s.take(b.len() as int) =~= b);
    assert(s.skip(0) =~= s);
}

} // verus!
