use vstd::prelude::*;
use crate::error::EditError;
use crate::varint::{read_varint, stop_index, varint_at, varint_of};

verus! {

/// The wire type of a tag: its low three bits.
pub open spec fn wire_type_of(tag: u64) -> u8 {
    (tag % 8) as u8
}

/// The field number of a tag: what stands above its low three bits.
pub open spec fn field_number_of(tag: u64) -> u64 {
    tag / 8
}

/// Length of a payload of wire type `wt` at the start of `s`.
pub open spec fn payload_len(s: Seq<u8>, wt: u8) -> Result<nat, EditError> {
    if wt == 0 {
        match varint_of(s) {
            Ok((_, k)) => Ok(k),
            Err(_) => Err(EditError::MalformedField),
        }
    } else if wt == 1 {
        if s.len() >= 8 {
            Ok(8)
        } else {
            Err(EditError::MalformedField)
        }
    } else if wt == 2 {
        match varint_of(s) {
            Ok((n, k)) => if k + n <= s.len() {
                Ok(k + n as nat)
            } else {
                Err(EditError::MalformedField)
            },
            Err(_) => Err(EditError::MalformedField),
        }
    } else if wt == 5 {
        if s.len() >= 4 {
            Ok(4)
        } else {
            Err(EditError::MalformedField)
        }
    } else {
        Err(EditError::UnsupportedWireType(wt))
    }
}

/// The offset just past a payload of wire type `wt` that starts at `off`.
pub open spec fn payload_at(data: Seq<u8>, off: int, wt: u8) -> Result<int, EditError> {
    if wt != 0 && wt != 1 && wt != 2 && wt != 5 {
        Err(EditError::UnsupportedWireType(wt))
    } else if off < 0 || off > data.len() {
        Err(EditError::MalformedField)
    } else {
        match payload_len(data.skip(off), wt) {
            Ok(p) => Ok(off + p),
            Err(e) => Err(e),
        }
    }
}

/// The field occurrence at the start of `s`: its field number, its wire type
/// and the number of bytes it takes, tag included.
pub open spec fn field_len(s: Seq<u8>) -> Result<(u64, u8, nat), EditError> {
    match varint_of(s) {
        Err(_) => Err(EditError::MalformedField),
        Ok((tag, t)) => match payload_len(s.skip(t as int), wire_type_of(tag)) {
            Ok(p) => Ok((field_number_of(tag), wire_type_of(tag), t + p)),
            Err(e) => Err(e),
        },
    }
}

/// `s` without the occurrences whose field number is `n`; every other
/// occurrence is kept byte for byte and in order.
pub open spec fn removed(s: Seq<u8>, n: u32) -> Result<Seq<u8>, EditError>
    decreases s.len(),
{
    if s.len() == 0 {
        Ok(Seq::empty())
    } else {
        match field_len(s) {
            Err(e) => Err(e),
            Ok((num, _, k)) => if 0 < k <= s.len() {
                match removed(s.skip(k as int), n) {
                    Ok(r) => Ok(
                        if num == n as u64 {
                            r
                        } else {
                            s.take(k as int) + r
                        },
                    ),
                    Err(e) => Err(e),
                }
            } else {
                Err(EditError::MalformedField)
            },
        }
    }
}

/// The payload of the length-delimited occurrence at the start of `s`.
pub open spec fn delimited_payload(s: Seq<u8>) -> Seq<u8> {
    match varint_of(s) {
        Ok((_, t)) => match varint_of(s.skip(t as int)) {
            Ok((n, k)) => s.subrange(t + k as int, t + k + n as int),
            Err(_) => Seq::empty(),
        },
        Err(_) => Seq::empty(),
    }
}

/// The payload of the first length-delimited occurrence of field `n` in `s`;
/// `None` where there is none before the end or before the first bytes that
/// do not read as a field.
pub open spec fn found(s: Seq<u8>, n: u32) -> Option<Seq<u8>>
    decreases s.len(),
{
    if s.len() == 0 {
        None
    } else {
        match field_len(s) {
            Err(_) => None,
            Ok((num, wt, k)) => if 0 < k <= s.len() {
                if num == n as u64 && wt == 2 {
                    Some(delimited_payload(s))
                } else {
                    found(s.skip(k as int), n)
                }
            } else {
                None
            },
        }
    }
}

/// Skips the payload of wire type `wire_type` that starts at `offset`;
/// returns the offset just past it.
pub fn skip_field(data: &[u8], offset: usize, wire_type: u8) -> (r: Result<usize, EditError>)
    ensures
        match r {
            Ok(e) => payload_at(data@, offset as int, wire_type) == Ok::<int, EditError>(e as int),
            Err(x) => payload_at(data@, offset as int, wire_type) == Err::<int, EditError>(x),
        },
{
    if wire_type == 0 {
        if offset > data.len() {
            return Err(EditError::MalformedField);
        }
        match read_varint(data, offset) {
            Ok((_, p)) => Ok(p),
            Err(_) => Err(EditError::MalformedField),
        }
    } else if wire_type == 1 {
        if offset <= data.len() && data.len() - offset >= 8 {
            Ok(offset + 8)
        } else {
            Err(EditError::MalformedField)
        }
    } else if wire_type == 2 {
        if offset > data.len() {
            return Err(EditError::MalformedField);
        }
        match read_varint(data, offset) {
            Ok((len, p)) => {
                if len <= (data.len() - p) as u64 {
                    Ok(p + len as usize)
                } else {
                    Err(EditError::MalformedField)
                }
            },
            Err(_) => Err(EditError::MalformedField),
        }
    } else if wire_type == 5 {
        if offset <= data.len() && data.len() - offset >= 4 {
            Ok(offset + 4)
        } else {
            Err(EditError::MalformedField)
        }
    } else {
        Err(EditError::UnsupportedWireType(wire_type))
    }
}

/// Reads the occurrence at `offset`: its tag and the offsets just past the
/// tag and just past the payload.
fn read_field(data: &[u8], offset: usize) -> (r: Result<(u64, usize, usize), EditError>)
    requires
        offset < data@.len(),
    ensures
        match r {
            Ok((tag, after, end)) => {
                &&& offset < after <= end <= data@.len()
                &&& field_len(data@.skip(offset as int)) == Ok::<(u64, u8, nat), EditError>(
                    (field_number_of(tag), wire_type_of(tag), (end - offset) as nat),
                )
                &&& varint_at(data@, offset as int) == Ok::<(u64, int), EditError>((tag, after as int))
            },
            Err(x) => field_len(data@.skip(offset as int)) == Err::<(u64, u8, nat), EditError>(x),
        },
{
    let (tag, after) = match read_varint(data, offset) {
        Ok(x) => x,
        Err(_) => return Err(EditError::MalformedField),
    };
    let wt: u8 = (tag % 8) as u8;
    let end = skip_field(data, after, wt);
    proof {
        assert(data@.skip(offset as int).skip((after - offset) as int) =~= data@.skip(after as int));
    }
    match end {
        Ok(end) => Ok((tag, after, end)),
        Err(e) => Err(e),
    }
}

/// Appends `data[from..to]` to `out`.
fn copy_range(data: &[u8], from: usize, to: usize, out: &mut Vec<u8>)
    requires
        from <= to <= data@.len(),
    ensures
        final(out)@ == old(out)@ + data@.subrange(from as int, to as int),
{
    let mut i: usize = from;
    while i < to
        invariant
            from <= i <= to <= data@.len(),
            out@ == old(out)@ + data@.subrange(from as int, i as int),
        decreases to - i,
    {
        out.push(data[i]);
        proof {
            assert(out@ =~= old(out)@ + data@.subrange(from as int, i + 1));
        }
        i = i + 1;
    }
}

/// `p` followed by what `r` holds, or the error of `r`.
pub open spec fn prefixed(p: Seq<u8>, r: Result<Seq<u8>, EditError>) -> Result<Seq<u8>, EditError> {
    match r {
        Ok(x) => Ok(p + x),
        Err(e) => Err(e),
    }
}

/// Removes every occurrence of field `field_num`, whatever its wire type, and
/// keeps every other occurrence byte for byte and in order.
pub fn remove_field(data: &[u8], field_num: u32) -> (r: Result<Vec<u8>, EditError>)
    ensures
        match r {
            Ok(v) => removed(data@, field_num) == Ok::<Seq<u8>, EditError>(v@),
            Err(e) => removed(data@, field_num) == Err::<Seq<u8>, EditError>(e),
        },
{
    let mut result: Vec<u8> = Vec::new();
    let mut offset: usize = 0;
    proof {
        assert(data@.skip(0) =~= data@);
        assert(Seq::<u8>::empty() + data@ =~= data@);
    }
    while offset < data.len()
        invariant
            offset <= data@.len(),
            removed(data@, field_num) == prefixed(result@, removed(data@.skip(offset as int), field_num)),
        decreases data@.len() - offset,
    {
        let ghost s = data@.skip(offset as int);
        let (tag, _after, end) = match read_field(data, offset) {
            Ok(x) => x,
            Err(e) => {
                return Err(e);
            },
        };
        proof {
            assert(s.skip((end - offset) as int) =~= data@.skip(end as int));
            assert(s.take((end - offset) as int) =~= data@.subrange(offset as int, end as int));
        }
        if tag / 8 != field_num as u64 {
            let ghost before = result@;
            copy_range(data, offset, end, &mut result);
            proof {
                match removed(data@.skip(end as int), field_num) {
                    Ok(x) => {
                        assert(before + (data@.subrange(offset as int, end as int) + x) =~= result@ + x);
                    },
                    Err(_) => {},
                }
            }
        }
        offset = end;
    }
    proof {
        assert(data@.skip(offset as int).len() == 0);
        assert(result@ + Seq::<u8>::empty() =~= result@);
    }
    Ok(result)
}

/// Copies the payload of the length-delimited occurrence at `offset`, whose
/// tag ends at `after`.
fn copy_delimited(data: &[u8], offset: usize, after: usize) -> (r: Vec<u8>)
    requires
        offset < after <= data@.len(),
        varint_of(data@.skip(offset as int)) matches Ok((_, t)) && t == after - offset,
        payload_len(data@.skip(after as int), 2) is Ok,
    ensures
        r@ == delimited_payload(data@.skip(offset as int)),
{
    let ghost s = data@.skip(offset as int);
    proof {
        assert(s.skip((after - offset) as int) =~= data@.skip(after as int));
    }
    match read_varint(data, after) {
        Ok((len, content)) => {
            let ghost u = data@.skip(after as int);
            proof {
                assert(varint_of(u) == Ok::<(u64, nat), EditError>((len, (content - after) as nat)));
                assert(u.len() == data@.len() - after);
                assert(content - after + len <= u.len());
            }
            let n: usize = data.len();
            assert(content + len <= n);
            let stop: usize = content + len as usize;
            let mut out: Vec<u8> = Vec::new();
            copy_range(data, content, stop, &mut out);
            proof {
                let t = (after - offset) as int;
                let k = (content - after) as int;
                assert(s.subrange(t + k, t + k + len) =~= data@.subrange(
                    content as int,
                    content + len,
                ));
                assert(s.skip(t) == u);
                assert(varint_of(s.skip(t)) == Ok::<(u64, nat), EditError>((len, k as nat)));
                assert(delimited_payload(s) == s.subrange(t + k, t + k + len));
                assert(out@ =~= delimited_payload(s));
            }
            out
        },
        Err(_) => {
            proof {
                assert(false);
            }
            Vec::new()
        },
    }
}

/// The payload of the first length-delimited occurrence of `target_field`.
/// Occurrences of that number with another wire type do not count. Bytes that
/// do not read as a field end the search with `None`.
pub fn find_field(data: &[u8], target_field: u32) -> (r: Option<Vec<u8>>)
    ensures
        match r {
            Some(v) => found(data@, target_field) == Some(v@),
            None => found(data@, target_field) is None,
        },
{
    let mut offset: usize = 0;
    proof {
        assert(data@.skip(0) =~= data@);
    }
    while offset < data.len()
        invariant
            offset <= data@.len(),
            found(data@, target_field) == found(data@.skip(offset as int), target_field),
        decreases data@.len() - offset,
    {
        let ghost s = data@.skip(offset as int);
        let (tag, after, end) = match read_field(data, offset) {
            Ok(x) => x,
            Err(_) => {
                return None;
            },
        };
        proof {
            assert(s.skip((end - offset) as int) =~= data@.skip(end as int));
            assert(s.skip((after - offset) as int) =~= data@.skip(after as int));
        }
        if tag / 8 == target_field as u64 && tag % 8 == 2 {
            let out = copy_delimited(data, offset, after);
            return Some(out);
        }
        offset = end;
    }
    None
}

/// `u` holds the first `m` bytes of `s`.
pub open spec fn agree_on(s: Seq<u8>, u: Seq<u8>, m: nat) -> bool {
    &&& m <= s.len()
    &&& m <= u.len()
    &&& forall|i: int| 0 <= i < m ==> s[i] == u[i]
}

proof fn lemma_stop_index_agree(s: Seq<u8>, u: Seq<u8>, m: nat)
    requires
        agree_on(s, u, m),
        stop_index(s) < m,
    ensures
        stop_index(u) == stop_index(s),
    decreases m,
{
    assert(s.len() > 0);
    assert(u[0] == s[0]);
    if s[0] >= 128 {
        assert(agree_on(s.drop_first(), u.drop_first(), (m - 1) as nat));
        lemma_stop_index_agree(s.drop_first(), u.drop_first(), (m - 1) as nat);
    }
}

proof fn lemma_varint_agree(s: Seq<u8>, u: Seq<u8>, m: nat)
    requires
        agree_on(s, u, m),
        varint_of(s) matches Ok((_, j)) && j <= m,
    ensures
        varint_of(u) == varint_of(s),
{
    lemma_stop_index_agree(s, u, m);
    let j = stop_index(s) + 1;
    assert(s.take(j as int) =~= u.take(j as int));
}

proof fn lemma_payload_agree(s: Seq<u8>, u: Seq<u8>, m: nat, wt: u8)
    requires
        agree_on(s, u, m),
        payload_len(s, wt) matches Ok(p) && p <= m,
    ensures
        payload_len(u, wt) == payload_len(s, wt),
{
    if wt == 0 || wt == 2 {
        lemma_varint_agree(s, u, m);
    }
}

proof fn lemma_field_agree(s: Seq<u8>, u: Seq<u8>, m: nat)
    requires
        agree_on(s, u, m),
        field_len(s) matches Ok((_, _, k)) && k <= m,
    ensures
        field_len(u) == field_len(s),
{
    lemma_varint_agree(s, u, m);
    let (tag, t) = varint_of(s)->Ok_0;
    assert(agree_on(s.skip(t as int), u.skip(t as int), (m - t) as nat));
    lemma_payload_agree(s.skip(t as int), u.skip(t as int), (m - t) as nat, wire_type_of(tag));
}

/// Removing a field number a second time changes nothing: where
/// `remove_field(b, n)` gives `r`, `remove_field(r, n)` gives `r` again.
pub proof fn remove_field_idempotent(b: Seq<u8>, n: u32)
    ensures
        removed(b, n) matches Ok(r) ==> removed(r, n) == Ok::<Seq<u8>, EditError>(r),
    decreases b.len(),
{
    if b.len() > 0 {
        if let Ok((num, wt, k)) = field_len(b) {
            if 0 < k <= b.len() {
                remove_field_idempotent(b.skip(k as int), n);
                if let Ok(rest) = removed(b.skip(k as int), n) {
                    if num != n as u64 {
                        let r = b.take(k as int) + rest;
                        assert(agree_on(b, r, k));
                        lemma_field_agree(b, r, k);
                        assert(r.skip(k as int) =~= rest);
                        assert(r.take(k as int) =~= b.take(k as int));
                    }
                }
            }
        }
    }
}

/// `f` is exactly one complete field occurrence.
pub open spec fn is_single_field(f: Seq<u8>) -> bool {
    field_len(f) matches Ok((_, _, k)) && k == f.len()
}

/// The field number of the occurrence at the start of `f`.
pub open spec fn field_number(f: Seq<u8>) -> u64 {
    match field_len(f) {
        Ok((num, _, _)) => num,
        Err(_) => 0,
    }
}

/// The occurrences of `fs` written back to back.
pub open spec fn concat_fields(fs: Seq<Seq<u8>>) -> Seq<u8>
    decreases fs.len(),
{
    if fs.len() == 0 {
        Seq::empty()
    } else {
        fs[0] + concat_fields(fs.drop_first())
    }
}

/// The occurrences of `fs` whose field number is not `n`, in their order.
pub open spec fn without_number(fs: Seq<Seq<u8>>, n: u32) -> Seq<Seq<u8>>
    decreases fs.len(),
{
    if fs.len() == 0 {
        fs
    } else if field_number(fs[0]) == n as u64 {
        without_number(fs.drop_first(), n)
    } else {
        seq![fs[0]] + without_number(fs.drop_first(), n)
    }
}

/// For a buffer made of whole occurrences, removing field `n` leaves exactly
/// the occurrences of other numbers, each byte-identical and in the
/// relative order they had.
pub proof fn remove_field_keeps_others(fs: Seq<Seq<u8>>, n: u32)
    requires
        forall|i: int| 0 <= i < fs.len() ==> is_single_field(#[trigger] fs[i]),
    ensures
        removed(concat_fields(fs), n) == Ok::<Seq<u8>, EditError>(
            concat_fields(without_number(fs, n)),
        ),
    decreases fs.len(),
{
    if fs.len() > 0 {
        let f = fs[0];
        let tail = fs.drop_first();
        let b = concat_fields(fs);
        assert(is_single_field(f));
        assert(forall|i: int| 0 <= i < tail.len() ==> is_single_field(#[trigger] tail[i])) by {
            assert forall|i: int| 0 <= i < tail.len() implies is_single_field(#[trigger] tail[i]) by {
                assert(tail[i] == fs[i + 1]);
            }
        }
        remove_field_keeps_others(tail, n);
        let k = f.len();
        assert(agree_on(f, b, k));
        lemma_field_agree(f, b, k);
        assert(b.skip(k as int) =~= concat_fields(tail));
        assert(b.take(k as int) =~= f);
        let kept = without_number(tail, n);
        if field_number(f) != n as u64 {
            let w = seq![f] + kept;
            assert(w[0] == f);
            assert(w.drop_first() =~= kept);
        }
    }
}

} // verus!
