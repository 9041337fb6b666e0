//! Primitive encodings shared by the wire formats: little-endian integers,
//! byte runs and length-prefixed UTF-8 strings.

use vstd::prelude::*;
use vstd::utf8::{encode_utf8, valid_utf8};

verus! {

/// The two bytes that stand for `value`, least significant first.
pub open spec fn spec_u16_le(value: u16) -> Seq<u8> {
    seq![(value % 256) as u8, (value / 256) as u8]
}

/// The number that the first two bytes of `bytes` stand for, least
/// significant first.
pub open spec fn spec_u16_from_le(bytes: Seq<u8>) -> u16
    recommends
        bytes.len() >= 2,
{
    (bytes[0] + 256 * bytes[1]) as u16
}

/// Reading back what `spec_u16_le` wrote gives the number, whatever follows.
pub proof fn lemma_u16_le_round_trip(value: u16, rest: Seq<u8>)
    ensures
        spec_u16_le(value).len() == 2,
        spec_u16_from_le(spec_u16_le(value) + rest) == value,
{
    let b = spec_u16_le(value) + rest;
    assert(b[0] == spec_u16_le(value)[0]);
    assert(b[1] == spec_u16_le(value)[1]);
}

/// Any two bytes are the encoding of the number they stand for.
pub proof fn lemma_u16_le_canonical(bytes: Seq<u8>)
    requires
        bytes.len() == 2,
    ensures
        spec_u16_le(spec_u16_from_le(bytes)) == bytes,
{
    let b0 = bytes[0] as int;
    let b1 = bytes[1] as int;
    let v = b0 + 256 * b1;
    assert(v / 256 == b1 && v % 256 == b0);
    assert(spec_u16_le(spec_u16_from_le(bytes)) =~= bytes);
}

/// The four bytes that stand for `value`, least significant first.
pub open spec fn spec_u32_le(value: u32) -> Seq<u8> {
    seq![
        (value % 256) as u8,
        ((value / 256) % 256) as u8,
        ((value / 65536) % 256) as u8,
        (value / 16777216) as u8,
    ]
}

/// The number that the first four bytes of `bytes` stand for, least
/// significant first.
pub open spec fn spec_u32_from_le(bytes: Seq<u8>) -> u32
    recommends
        bytes.len() >= 4,
{
    (bytes[0] + 256 * bytes[1] + 65536 * bytes[2] + 16777216 * bytes[3]) as u32
}

/// Reading back what `spec_u32_le` wrote gives the number, whatever follows.
pub proof fn lemma_u32_le_round_trip(value: u32, rest: Seq<u8>)
    ensures
        spec_u32_le(value).len() == 4,
        spec_u32_from_le(spec_u32_le(value) + rest) == value,
{
    let b = spec_u32_le(value) + rest;
    assert(b[0] == spec_u32_le(value)[0]);
    assert(b[1] == spec_u32_le(value)[1]);
    assert(b[2] == spec_u32_le(value)[2]);
    assert(b[3] == spec_u32_le(value)[3]);
}

/// Any four bytes are the encoding of the number they stand for.
pub proof fn lemma_u32_le_canonical(bytes: Seq<u8>)
    requires
        bytes.len() == 4,
    ensures
        spec_u32_le(spec_u32_from_le(bytes)) == bytes,
{
    let b0 = bytes[0] as int;
    let b1 = bytes[1] as int;
    let b2 = bytes[2] as int;
    let b3 = bytes[3] as int;
    let q2 = b2 + 256 * b3;
    let q1 = b1 + 256 * q2;
    let v = b0 + 256 * q1;
    assert(v == spec_u32_from_le(bytes));
    assert(v / 256 == q1 && v % 256 == b0);
    assert(q1 / 256 == q2 && q1 % 256 == b1);
    assert(q2 / 256 == b3 && q2 % 256 == b2);
    assert(v / 65536 == q2);
    assert(v / 16777216 == b3);
    assert(spec_u32_le(spec_u32_from_le(bytes)) =~= bytes);
}

/// Appends the little-endian encoding of `value` to `out`.
pub fn put_u32_le(out: &mut Vec<u8>, value: u32)
    ensures
        final(out)@ == old(out)@ + spec_u32_le(value),
{
    out.push((value % 256) as u8);
    out.push(((value / 256) % 256) as u8);
    out.push(((value / 65536) % 256) as u8);
    out.push((value / 16777216) as u8);
    assert(out@ =~= old(out)@ + spec_u32_le(value));
}

/// Reads the little-endian number at `at`.
pub fn get_u32_le(bytes: &[u8], at: usize) -> (value: u32)
    requires
        at + 4 <= bytes@.len(),
    ensures
        value == spec_u32_from_le(bytes@.subrange(at as int, at + 4)),
{
    let b0: u32 = bytes[at] as u32;
    let b1: u32 = bytes[at + 1] as u32;
    let b2: u32 = bytes[at + 2] as u32;
    let b3: u32 = bytes[at + 3] as u32;
    b0 + 256 * b1 + 65536 * b2 + 16777216 * b3
}

/// Appends `bytes` to `out`.
pub fn put_bytes(out: &mut Vec<u8>, bytes: &[u8])
    ensures
        final(out)@ == old(out)@ + bytes@,
{
    let mut i: usize = 0;
    while i < bytes.len()
        invariant
            i <= bytes@.len(),
            out@ == old(out)@ + bytes@.take(i as int),
        decreases bytes@.len() - i,
    {
        out.push(bytes[i]);
        i += 1;
        assert(out@ =~= old(out)@ + bytes@.take(i as int));
    }
    assert(bytes@.take(i as int) =~= bytes@);
}

/// Copies `bytes[from .. to]`.
pub fn copy_range(bytes: &[u8], from: usize, to: usize) -> (out: Vec<u8>)
    requires
        from <= to <= bytes@.len(),
    ensures
        out@ == bytes@.subrange(from as int, to as int),
{
    let mut out: Vec<u8> = Vec::new();
    let mut i: usize = from;
    while i < to
        invariant
            from <= i <= to <= bytes@.len(),
            out@ == bytes@.subrange(from as int, i as int),
        decreases to - i,
    {
        out.push(bytes[i]);
        i += 1;
        assert(out@ =~= bytes@.subrange(from as int, i as int));
    }
    out
}

/// Appends the little-endian encoding of `value` to `out`.
pub fn put_u16_le(out: &mut Vec<u8>, value: u16)
    ensures
        final(out)@ == old(out)@ + spec_u16_le(value),
{
    out.push((value % 256) as u8);
    out.push((value / 256) as u8);
    assert(out@ =~= old(out)@ + spec_u16_le(value));
}

/// Reads the little-endian number at `at`.
pub fn get_u16_le(bytes: &[u8], at: usize) -> (value: u16)
    requires
        at + 2 <= bytes@.len(),
    ensures
        value == spec_u16_from_le(bytes@.subrange(at as int, at + 2)),
{
    let b0: u16 = bytes[at] as u16;
    let b1: u16 = bytes[at + 1] as u16;
    b0 + 256 * b1
}

/// The eight bytes that stand for `value`, least significant first.
pub open spec fn spec_u64_le(value: u64) -> Seq<u8> {
    spec_u32_le((value % 0x1_0000_0000) as u32) + spec_u32_le((value / 0x1_0000_0000) as u32)
}

/// The number that the first eight bytes of `bytes` stand for, least
/// significant first.
pub open spec fn spec_u64_from_le(bytes: Seq<u8>) -> u64
    recommends
        bytes.len() >= 8,
{
    (spec_u32_from_le(bytes.subrange(0, 4)) + 0x1_0000_0000 * spec_u32_from_le(
        bytes.subrange(4, 8),
    )) as u64
}

/// Reading back what `spec_u64_le` wrote gives the number, whatever follows.
pub proof fn lemma_u64_le_round_trip(value: u64, rest: Seq<u8>)
    ensures
        spec_u64_le(value).len() == 8,
        spec_u64_from_le(spec_u64_le(value) + rest) == value,
{
    let low = (value % 0x1_0000_0000) as u32;
    let high = (value / 0x1_0000_0000) as u32;
    let b = spec_u64_le(value) + rest;
    assert(b.subrange(0, 4) =~= spec_u32_le(low) + Seq::<u8>::empty());
    assert(b.subrange(4, 8) =~= spec_u32_le(high) + Seq::<u8>::empty());
    lemma_u32_le_round_trip(low, Seq::<u8>::empty());
    lemma_u32_le_round_trip(high, Seq::<u8>::empty());
}

/// Any eight bytes are the encoding of the number they stand for.
pub proof fn lemma_u64_le_canonical(bytes: Seq<u8>)
    requires
        bytes.len() == 8,
    ensures
        spec_u64_le(spec_u64_from_le(bytes)) == bytes,
{
    let low = spec_u32_from_le(bytes.subrange(0, 4));
    let high = spec_u32_from_le(bytes.subrange(4, 8));
    let v = low + 0x1_0000_0000 * high;
    assert(v % 0x1_0000_0000 == low && v / 0x1_0000_0000 == high);
    lemma_u32_le_canonical(bytes.subrange(0, 4));
    lemma_u32_le_canonical(bytes.subrange(4, 8));
    assert(spec_u64_le(spec_u64_from_le(bytes)) =~= bytes);
}

/// Appends the little-endian encoding of `value` to `out`.
pub fn put_u64_le(out: &mut Vec<u8>, value: u64)
    ensures
        final(out)@ == old(out)@ + spec_u64_le(value),
{
    put_u32_le(out, (value % 0x1_0000_0000) as u32);
    put_u32_le(out, (value / 0x1_0000_0000) as u32);
    assert(out@ =~= old(out)@ + spec_u64_le(value));
}

/// Reads the little-endian number at `at`.
pub fn get_u64_le(bytes: &[u8], at: usize) -> (value: u64)
    requires
        at + 8 <= bytes@.len(),
    ensures
        value == spec_u64_from_le(bytes@.subrange(at as int, at + 8)),
{
    let len = bytes.len();
    let low = get_u32_le(bytes, at) as u64;
    let high = get_u32_le(bytes, at + 4) as u64;
    let ghost part = bytes@.subrange(at as int, at + 8);
    assert(part.subrange(0, 4) =~= bytes@.subrange(at as int, at + 4));
    assert(part.subrange(4, 8) =~= bytes@.subrange(at + 4, at + 8));
    low + 0x1_0000_0000 * high
}

/// Longest string, in bytes of UTF-8, that the length prefix can announce.
pub const MAX_STR: usize = 0xffff;

/// Whether a string is short enough to be written.
pub open spec fn spec_str_fits(text: Seq<char>) -> bool {
    encode_utf8(text).len() <= MAX_STR
}

/// A string on the wire: the length of its UTF-8 form as two bytes in
/// little-endian order, then the UTF-8 bytes.
pub open spec fn spec_str(text: Seq<char>) -> Seq<u8> {
    spec_u16_le(encode_utf8(text).len() as u16) + encode_utf8(text)
}

/// A written string can be read back in one way only: if one written string
/// followed by some bytes equals another followed by some bytes, the strings
/// are the same and so are the bytes that follow.
pub proof fn lemma_str_unique(a: Seq<char>, after_a: Seq<u8>, b: Seq<char>, after_b: Seq<u8>)
    requires
        spec_str_fits(a),
        spec_str_fits(b),
        spec_str(a) + after_a == spec_str(b) + after_b,
    ensures
        a == b,
        after_a == after_b,
{
    let ea = encode_utf8(a);
    let eb = encode_utf8(b);
    let la = ea.len() as u16;
    let lb = eb.len() as u16;
    let whole = spec_str(a) + after_a;
    assert(spec_str(a) + after_a =~= spec_u16_le(la) + (ea + after_a));
    assert(spec_str(b) + after_b =~= spec_u16_le(lb) + (eb + after_b));
    lemma_u16_le_round_trip(la, ea + after_a);
    lemma_u16_le_round_trip(lb, eb + after_b);
    assert(la == lb);
    assert(ea =~= whole.subrange(2, 2 + la));
    assert(eb =~= whole.subrange(2, 2 + lb));
    vstd::utf8::encode_utf8_decode_utf8(a);
    vstd::utf8::encode_utf8_decode_utf8(b);
    assert(after_a =~= whole.subrange(2 + la, whole.len() as int));
    assert(after_b =~= whole.subrange(2 + lb, whole.len() as int));
}

/// That no written string stands at `at`: the bytes from there on do not
/// start with the encoding of any string.
pub open spec fn spec_no_str_at(bytes: Seq<u8>, at: int) -> bool {
    forall|text: Seq<char>, after: Seq<u8>|
        spec_str_fits(text) ==> #[trigger] (spec_str(text) + after) != bytes.subrange(
            at,
            bytes.len() as int,
        )
}

/// Appends `text` as a written string. Returns whether it was short enough;
/// if not, `out` is unchanged.
pub fn put_str(out: &mut Vec<u8>, text: &str) -> (written: bool)
    ensures
        written == spec_str_fits(text@),
        written ==> final(out)@ == old(out)@ + spec_str(text@),
        !written ==> final(out)@ == old(out)@,
{
    let raw = text.as_bytes();
    if raw.len() > MAX_STR {
        return false;
    }
    put_u16_le(out, raw.len() as u16);
    put_bytes(out, raw);
    assert(out@ =~= old(out)@ + spec_str(text@));
    true
}

/// `String::from_utf8` of std: the conversion succeeds exactly on valid
/// UTF-8, and the string it gives has the given bytes as its UTF-8 form.
#[verifier::external_body]
fn string_from_utf8(bytes: Vec<u8>) -> (text: Option<String>)
    ensures
        text is Some <==> valid_utf8(bytes@),
        text matches Some(s) ==> encode_utf8(s@) == bytes@,
{
    String::from_utf8(bytes).ok()
}

/// Reads the written string at `at`, and says where it ends.
pub fn get_str(bytes: &[u8], at: usize) -> (read: Option<(String, usize)>)
    requires
        at <= bytes@.len(),
    ensures
        match read {
            Some((text, end)) => {
                &&& at <= end <= bytes@.len()
                &&& spec_str_fits(text@)
                &&& bytes@.subrange(at as int, end as int) == spec_str(text@)
            },
            None => spec_no_str_at(bytes@, at as int),
        },
{
    let ghost tail = bytes@.subrange(at as int, bytes@.len() as int);
    if bytes.len() - at < 2 {
        assert forall|text: Seq<char>, after: Seq<u8>| spec_str_fits(text) implies #[trigger] (
        spec_str(text) + after) != tail by {
            assert((spec_str(text) + after).len() >= 2);
        }
        return None;
    }
    let len = get_u16_le(bytes, at) as usize;
    if bytes.len() - at - 2 < len {
        assert forall|text: Seq<char>, after: Seq<u8>| spec_str_fits(text) implies #[trigger] (
        spec_str(text) + after) != tail by {
            if spec_str(text) + after == tail {
                let e = encode_utf8(text);
                assert(spec_str(text) + after =~= spec_u16_le(e.len() as u16) + (e + after));
                lemma_u16_le_round_trip(e.len() as u16, e + after);
                assert(tail.subrange(0, 2) =~= bytes@.subrange(at as int, at + 2));
                assert(tail.subrange(0, 2) =~= spec_u16_le(e.len() as u16));
                lemma_u16_le_round_trip(e.len() as u16, Seq::<u8>::empty());
                assert(spec_u16_le(e.len() as u16) + Seq::<u8>::empty() =~= spec_u16_le(
                    e.len() as u16,
                ));
                assert(e.len() == len);
                assert(tail.len() >= 2 + len);
            }
        }
        return None;
    }
    let end = at + 2 + len;
    let raw = copy_range(bytes, at + 2, end);
    match string_from_utf8(raw) {
        None => {
            assert forall|text: Seq<char>, after: Seq<u8>| spec_str_fits(text) implies #[trigger] (
            spec_str(text) + after) != tail by {
                if spec_str(text) + after == tail {
                    let e = encode_utf8(text);
                    assert(tail.subrange(0, 2) =~= bytes@.subrange(at as int, at + 2));
                    assert(tail.subrange(0, 2) =~= spec_u16_le(e.len() as u16));
                    lemma_u16_le_round_trip(e.len() as u16, Seq::<u8>::empty());
                    assert(spec_u16_le(e.len() as u16) + Seq::<u8>::empty() =~= spec_u16_le(
                        e.len() as u16,
                    ));
                    assert(e.len() == len);
                    assert(tail.subrange(2, 2 + len) =~= e);
                    assert(tail.subrange(2, 2 + len) =~= raw@);
                    vstd::utf8::encode_utf8_valid_utf8(text);
                }
            }
            None
        },
        Some(text) => {
            proof {
                let e = encode_utf8(text@);
                assert(e == raw@);
                lemma_u16_le_canonical(bytes@.subrange(at as int, at + 2));
                assert(bytes@.subrange(at as int, end as int) =~= spec_str(text@));
            }
            Some((text, end))
        },
    }
}

} // verus!
