//! The domain-name codec: length-prefixed labels ending in a zero
//! octet, with compression pointers on the decode side. A pointer must
//! reference an offset strictly before the current read position, and a
//! bounded chain length is enforced, so decoding terminates on any
//! input, however adversarial.

use vstd::prelude::*;
use crate::defs::ResponseCode;
use crate::strutil::{spec_join, views_of, join_char, push_char};

verus! {

/// The longest chain of compression pointers the decoder follows
/// before rejecting the name.
pub const MAX_POINTER_HOPS: u8 = 64;

/// Each byte read as the character with that code.
pub open spec fn chars_of_bytes(bs: Seq<u8>) -> Seq<char> {
    bs.map(|i: int, b: u8| b as char)
}

/// Each character written as the byte with its code.
pub open spec fn bytes_of_chars(cs: Seq<char>) -> Seq<u8> {
    cs.map(|i: int, c: char| (c as u32) as u8)
}

/// A label that the wire format can carry: one to sixty-three
/// characters, each with a single-byte code.
pub open spec fn label_wf(l: Seq<char>) -> bool {
    &&& 1 <= l.len() <= 63
    &&& forall|j: int| 0 <= j < l.len() ==> (#[trigger] l[j] as u32) < 256
}

/// Labels that the wire format can carry: each of valid width, and the
/// whole encoding — labels, length octets and terminator — within the
/// 255-octet bound a name is allowed on the wire.
pub open spec fn name_wf(labels: Seq<Seq<char>>) -> bool {
    &&& forall|i: int| 0 <= i < labels.len() ==> label_wf(#[trigger] labels[i])
    &&& spec_name_bytes(labels).len() <= 255
}

/// The encoding of a name: a length octet and the bytes of each label
/// in order, then a terminating zero octet. No compression pointers are
/// emitted.
pub open spec fn spec_name_bytes(labels: Seq<Seq<char>>) -> Seq<u8>
    decreases labels.len(),
{
    if labels.len() == 0 {
        seq![0u8]
    } else {
        seq![labels[0].len() as u8] + bytes_of_chars(labels[0]) + spec_name_bytes(
            labels.drop_first(),
        )
    }
}

/// An encoded name is as long as its labels plus one length octet
/// each and the terminator.
pub proof fn lemma_name_bytes_len(labels: Seq<Seq<char>>)
    ensures
        spec_name_bytes(labels).len() == crate::strutil::total_len(labels) + labels.len() + 1,
    decreases labels.len(),
{
    if labels.len() > 0 {
        lemma_name_bytes_len(labels.drop_first());
    }
}

/// What decoding a name at `pos` yields: the labels and the position
/// at which reading resumes, or nothing if the name is malformed. A
/// length octet of zero ends the name; values one to sixty-three name a
/// literal label; an octet with both top bits set is a compression
/// pointer whose low fourteen bits give an offset from the start of the
/// message, accepted only when it points strictly backwards and no more
/// than `hops` pointers have been followed.
pub open spec fn spec_parse_name(buf: Seq<u8>, pos: int, hops: int) -> Option<
    (Seq<Seq<char>>, int),
>
    decreases hops, buf.len() - pos,
{
    if pos < 0 || pos >= buf.len() || hops < 0 {
        None
    } else {
        let b = buf[pos];
        if b == 0 {
            Some((Seq::empty(), pos + 1))
        } else if b < 64 {
            if pos + 1 + b > buf.len() {
                None
            } else {
                match spec_parse_name(buf, pos + 1 + b, hops) {
                    Some((ls, end)) => Some(
                        (seq![chars_of_bytes(buf.subrange(pos + 1, pos + 1 + b))] + ls, end),
                    ),
                    None => None,
                }
            }
        } else if b >= 192 {
            if pos + 2 > buf.len() {
                None
            } else {
                let target = (b - 192) * 256 + buf[pos + 1];
                if target >= pos || hops == 0 {
                    None
                } else {
                    match spec_parse_name(buf, target, hops - 1) {
                        Some((ls, _)) => Some((ls, pos + 2)),
                        None => None,
                    }
                }
            }
        } else {
            None
        }
    }
}

/// A pointer that does not reference an offset strictly before itself
/// is rejected, whatever the hop budget.
pub proof fn lemma_forward_pointer_rejected(buf: Seq<u8>, pos: int, hops: int)
    requires
        0 <= pos < buf.len(),
        buf[pos] >= 192,
        pos + 2 <= buf.len(),
        (buf[pos] - 192) * 256 + buf[pos + 1] >= pos,
    ensures
        spec_parse_name(buf, pos, hops) is None,
{
}

/// Once the hop budget is spent, any further pointer is rejected.
pub proof fn lemma_exhausted_hops_rejected(buf: Seq<u8>, pos: int)
    requires
        0 <= pos < buf.len(),
        buf[pos] >= 192,
    ensures
        spec_parse_name(buf, pos, 0) is None,
{
}

/// A character with a single-byte code survives the trip through its
/// byte.
pub proof fn lemma_char_byte_roundtrip(c: char)
    requires
        (c as u32) < 256,
    ensures
        ((c as u32) as u8) as char == c,
{
}

/// Decode the labels of a name, following compression pointers. Returns
/// the labels and the position just past the name in the enclosing
/// stream; a malformed name — a length octet past the buffer, a missing
/// terminator, a pointer at or beyond the current position, or a
/// pointer chain longer than the hop bound — is rejected.
pub fn resolve(bytes: &[u8], pos: usize) -> (r: Result<(Vec<String>, usize), ResponseCode>)
    ensures
        match spec_parse_name(bytes@, pos as int, MAX_POINTER_HOPS as int) {
            Some((ls, end)) => {
                &&& r is Ok
                &&& views_of(r->Ok_0.0@) == ls
                &&& r->Ok_0.1 == end
            },
            None => r == Err::<(Vec<String>, usize), ResponseCode>(ResponseCode::FormatError),
        },
{
    let ghost full = spec_parse_name(bytes@, pos as int, MAX_POINTER_HOPS as int);
    let mut labels: Vec<String> = Vec::new();
    let mut cur: usize = pos;
    let mut hops: u8 = MAX_POINTER_HOPS;
    let mut resume: Option<usize> = None;
    loop
        invariant
            full == spec_parse_name(bytes@, pos as int, MAX_POINTER_HOPS as int),
            full == match spec_parse_name(bytes@, cur as int, hops as int) {
                Some((ls, end)) => Some(
                    (
                        views_of(labels@) + ls,
                        match resume {
                            Some(p) => p as int,
                            None => end,
                        },
                    ),
                ),
                None => None::<(Seq<Seq<char>>, int)>,
            },
        decreases hops, bytes@.len() - cur,
    {
        if cur >= bytes.len() {
            return Err(ResponseCode::FormatError);
        }
        let b = bytes[cur];
        if b == 0 {
            let end = match resume {
                Some(p) => p,
                None => cur + 1,
            };
            proof {
                assert(views_of(labels@) + Seq::<Seq<char>>::empty() =~= views_of(labels@));
            }
            return Ok((labels, end));
        } else if b < 64 {
            let width = b as usize;
            if width > bytes.len() - 1 - cur {
                return Err(ResponseCode::FormatError);
            }
            let mut label = String::new();
            let mut k: usize = 0;
            while k < width
                invariant
                    bytes@.len() <= usize::MAX,
                    cur + 1 + width <= bytes@.len(),
                    k <= width,
                    label@ == chars_of_bytes(bytes@.subrange(cur + 1, cur + 1 + k)),
                decreases width - k,
            {
                push_char(&mut label, bytes[cur + 1 + k] as char);
                k += 1;
                proof {
                    assert(label@ =~= chars_of_bytes(bytes@.subrange(cur + 1, cur + 1 + k)));
                }
            }
            proof {
                let ghost_next = spec_parse_name(bytes@, cur + 1 + width, hops as int);
                if ghost_next is Some {
                    let (ls, end) = ghost_next->Some_0;
                    assert(views_of(labels@.push(label)) =~= views_of(labels@).push(label@));
                    assert((views_of(labels@) + (seq![label@] + ls)) =~= (views_of(labels@).push(
                        label@,
                    ) + ls));
                }
            }
            labels.push(label);
            cur = cur + 1 + width;
        } else if b >= 192 {
            if bytes.len() - cur < 2 {
                return Err(ResponseCode::FormatError);
            }
            let target = (b as usize - 192) * 256 + bytes[cur + 1] as usize;
            if target >= cur || hops == 0 {
                return Err(ResponseCode::FormatError);
            }
            if resume.is_none() {
                resume = Some(cur + 2);
            }
            cur = target;
            hops = hops - 1;
        } else {
            return Err(ResponseCode::FormatError);
        }
    }
}

/// Decode a name at `pos` into its dotted text form, resolving
/// compression pointers, and return it with the position just past the
/// name.
pub fn resolve_name(bytes: &[u8], pos: usize) -> (r: Result<(String, usize), ResponseCode>)
    ensures
        match spec_parse_name(bytes@, pos as int, MAX_POINTER_HOPS as int) {
            Some((ls, end)) => {
                &&& r is Ok
                &&& r->Ok_0.0@ == spec_join(ls, '.')
                &&& r->Ok_0.1 == end
            },
            None => r == Err::<(String, usize), ResponseCode>(ResponseCode::FormatError),
        },
{
    match resolve(bytes, pos) {
        Ok((labels, end)) => Ok((join_char(&labels, '.'), end)),
        Err(code) => Err(code),
    }
}

/// Append the wire encoding of a name, given as its labels, to a byte
/// buffer. A name whose labels are empty, longer than sixty-three
/// characters, or not single-byte characters, or whose whole encoding
/// would exceed 255 octets, cannot be carried and is rejected, leaving
/// the buffer unchanged.
pub fn write_name(bytes: &mut Vec<u8>, labels: &Vec<String>) -> (r: Result<(), ResponseCode>)
    ensures
        name_wf(views_of(labels@)) ==> r is Ok && final(bytes)@ == old(bytes)@ + spec_name_bytes(
            views_of(labels@),
        ),
        !name_wf(views_of(labels@)) ==> r == Err::<(), ResponseCode>(ResponseCode::FormatError)
            && final(bytes)@ == old(bytes)@,
{
    let mut i: usize = 0;
    while i < labels.len()
        invariant
            i <= labels@.len(),
            forall|t: int| 0 <= t < i ==> label_wf(#[trigger] views_of(labels@)[t]),
        decreases labels@.len() - i,
    {
        let l = &labels[i];
        let n = l.as_str().unicode_len();
        if n < 1 || n > 63 {
            proof {
                assert(views_of(labels@)[i as int] == l@);
                assert(!label_wf(l@));
            }
            return Err(ResponseCode::FormatError);
        }
        let mut j: usize = 0;
        while j < n
            invariant
                i < labels@.len(),
                l == labels@[i as int],
                n == l@.len(),
                1 <= n <= 63,
                j <= n,
                forall|t: int| 0 <= t < j ==> (#[trigger] l@[t] as u32) < 256,
            decreases n - j,
        {
            let c = l.as_str().get_char(j);
            if (c as u32) >= 256 {
                proof {
                    assert(views_of(labels@)[i as int] == l@);
                    assert(!label_wf(l@));
                }
                return Err(ResponseCode::FormatError);
            }
            j += 1;
        }
        proof {
            assert(views_of(labels@)[i as int] == l@);
            assert(label_wf(l@));
        }
        i += 1;
    }
    let mut enc: Vec<u8> = Vec::new();
    let mut i: usize = 0;
    while i < labels.len()
        invariant
            i <= labels@.len(),
            forall|t: int| 0 <= t < labels@.len() ==> label_wf(#[trigger] views_of(labels@)[t]),
            enc@ == spec_name_partial(views_of(labels@), i as int),
        decreases labels@.len() - i,
    {
        let l = &labels[i];
        proof {
            assert(views_of(labels@)[i as int] == l@);
            assert(label_wf(l@));
        }
        let n = l.as_str().unicode_len();
        enc.push(n as u8);
        let mut j: usize = 0;
        while j < n
            invariant
                n == l@.len(),
                1 <= n <= 63,
                forall|t: int| 0 <= t < l@.len() ==> (#[trigger] l@[t] as u32) < 256,
                j <= n,
                enc@ == spec_name_partial(views_of(labels@), i as int) + seq![n as u8]
                    + bytes_of_chars(l@.take(j as int)),
            decreases n - j,
        {
            let c = l.as_str().get_char(j);
            enc.push((c as u32) as u8);
            j += 1;
            proof {
                assert(bytes_of_chars(l@.take(j as int)) =~= bytes_of_chars(
                    l@.take(j - 1),
                ).push((l@[j - 1] as u32) as u8));
            }
        }
        i += 1;
        proof {
            assert(l@.take(l@.len() as int) =~= l@);
            lemma_name_partial_step(views_of(labels@), i as int);
            assert(enc@ =~= spec_name_partial(views_of(labels@), i as int));
        }
    }
    enc.push(0);
    proof {
        lemma_name_partial_full(views_of(labels@));
    }
    if enc.len() > 255 {
        return Err(ResponseCode::FormatError);
    }
    let mut moved = enc;
    bytes.append(&mut moved);
    Ok(())
}

/// The encoding of the first `k` labels of a name, without the
/// terminator.
pub open spec fn spec_name_partial(labels: Seq<Seq<char>>, k: int) -> Seq<u8>
    decreases k,
{
    if k <= 0 {
        Seq::empty()
    } else {
        spec_name_partial(labels, k - 1) + seq![labels[k - 1].len() as u8] + bytes_of_chars(
            labels[k - 1],
        )
    }
}

/// Extending a partial encoding by one label.
proof fn lemma_name_partial_step(labels: Seq<Seq<char>>, k: int)
    requires
        0 < k <= labels.len(),
    ensures
        spec_name_partial(labels, k) == spec_name_partial(labels, k - 1) + seq![
            labels[k - 1].len() as u8,
        ] + bytes_of_chars(labels[k - 1]),
{
}

/// The full partial encoding plus the terminator is the name encoding.
proof fn lemma_name_partial_full(labels: Seq<Seq<char>>)
    ensures
        spec_name_partial(labels, labels.len() as int).push(0u8) == spec_name_bytes(labels),
    decreases labels.len(),
{
    if labels.len() == 0 {
        assert(spec_name_partial(labels, 0) == Seq::<u8>::empty());
        assert(spec_name_partial(labels, 0).push(0u8) =~= seq![0u8]);
    } else {
        lemma_name_partial_full(labels.drop_first());
        lemma_name_partial_shift(labels, labels.len() as int);
        assert((seq![labels[0].len() as u8] + bytes_of_chars(labels[0]) + spec_name_partial(
            labels.drop_first(),
            labels.len() - 1,
        )).push(0u8) =~= seq![labels[0].len() as u8] + bytes_of_chars(labels[0])
            + spec_name_partial(labels.drop_first(), labels.len() - 1).push(0u8));
    }
}

/// A partial encoding is the first label followed by a partial encoding
/// of the rest.
proof fn lemma_name_partial_shift(labels: Seq<Seq<char>>, k: int)
    requires
        1 <= k <= labels.len(),
    ensures
        spec_name_partial(labels, k) == seq![labels[0].len() as u8] + bytes_of_chars(labels[0])
            + spec_name_partial(labels.drop_first(), k - 1),
    decreases k,
{
    if k == 1 {
        assert(spec_name_partial(labels, 0) == Seq::<u8>::empty());
        assert(spec_name_partial(labels.drop_first(), 0) == Seq::<u8>::empty());
        assert(spec_name_partial(labels, 1) =~= seq![labels[0].len() as u8] + bytes_of_chars(
            labels[0],
        ) + spec_name_partial(labels.drop_first(), 0));
    } else {
        lemma_name_partial_shift(labels, k - 1);
        assert(labels.drop_first()[k - 2] == labels[k - 1]);
        assert(spec_name_partial(labels, k) =~= (seq![labels[0].len() as u8] + bytes_of_chars(
            labels[0],
        ) + spec_name_partial(labels.drop_first(), k - 2)) + seq![labels[k - 1].len() as u8]
            + bytes_of_chars(labels[k - 1]));
        assert(seq![labels[0].len() as u8] + bytes_of_chars(labels[0]) + (spec_name_partial(
            labels.drop_first(),
            k - 2,
        ) + seq![labels.drop_first()[k - 2].len() as u8] + bytes_of_chars(
            labels.drop_first()[k - 2],
        )) =~= (seq![labels[0].len() as u8] + bytes_of_chars(labels[0]) + spec_name_partial(
            labels.drop_first(),
            k - 2,
        )) + seq![labels[k - 1].len() as u8] + bytes_of_chars(labels[k - 1]));
    }
}

/// Decoding an encoded name from any position of any buffer that
/// carries it yields exactly the labels that were encoded, and ends
/// just past the terminator.
pub proof fn lemma_name_roundtrip(labels: Seq<Seq<char>>, buf: Seq<u8>, pos: int, hops: int)
    requires
        name_wf(labels),
        0 <= pos,
        hops >= 0,
        pos + spec_name_bytes(labels).len() <= buf.len(),
        buf.subrange(pos, pos + spec_name_bytes(labels).len()) == spec_name_bytes(labels),
    ensures
        spec_parse_name(buf, pos, hops) == Some(
            (labels, pos + spec_name_bytes(labels).len()),
        ),
    decreases labels.len(),
{
    let enc = spec_name_bytes(labels);
    if labels.len() == 0 {
        assert(buf[pos] == enc[0]);
    } else {
        let l0 = labels[0];
        let b = l0.len() as u8;
        let rest = labels.drop_first();
        let rest_enc = spec_name_bytes(rest);
        assert(enc == seq![b] + bytes_of_chars(l0) + rest_enc);
        assert(buf[pos] == enc[0]);
        assert(enc[0] == b);
        assert(1 <= b < 64);
        let npos = pos + 1 + b;
        assert(buf.subrange(npos, npos + rest_enc.len()) =~= rest_enc) by {
            assert forall|j: int| 0 <= j < rest_enc.len() implies buf.subrange(
                npos,
                npos + rest_enc.len(),
            )[j] == rest_enc[j] by {
                assert(buf.subrange(npos, npos + rest_enc.len())[j] == buf[npos + j]);
                assert(buf[npos + j] == buf.subrange(pos, pos + enc.len())[1 + b + j]);
                assert(enc[1 + b + j] == rest_enc[j]);
            }
        }
        lemma_name_roundtrip(rest, buf, npos, hops);
        assert(chars_of_bytes(buf.subrange(pos + 1, pos + 1 + b)) =~= l0) by {
            assert forall|j: int| 0 <= j < l0.len() implies chars_of_bytes(
                buf.subrange(pos + 1, pos + 1 + b),
            )[j] == l0[j] by {
                assert(buf.subrange(pos + 1, pos + 1 + b)[j] == buf[pos + 1 + j]);
                assert(buf[pos + 1 + j] == buf.subrange(pos, pos + enc.len())[1 + j]);
                assert(enc[1 + j] == bytes_of_chars(l0)[j]);
                assert(bytes_of_chars(l0)[j] == (l0[j] as u32) as u8);
                assert(label_wf(l0));
                lemma_char_byte_roundtrip(l0[j]);
            }
        }
        assert(seq![l0] + rest =~= labels);
        assert(spec_parse_name(buf, pos, hops) == Some((labels, npos + rest_enc.len())));
    }
}

} // verus!
