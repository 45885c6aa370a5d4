//! Deterministic, reversible encoding of structured index values.
//!
//! A secondary-index entry is keyed by the encoding of the indexed value.
//! The encoding has two layers: a canonical byte encoding of the value
//! (one tag byte, then a fixed-width or length-prefixed payload) and a
//! text-safe hexadecimal rendering of those bytes, suitable for contexts
//! that need delimiter-free, padding-free keys.  Both layers are proved
//! reversible, so equal encodings come only from equal values.

use vstd::prelude::*;
use vstd::string::StrSliceExecFns;
use vstd::string::StringExecFns;
use vstd::utf8::encode_utf8;
use vstd::utf8::decode_utf8;
use vstd::utf8::valid_utf8;
use vstd::utf8::encode_utf8_valid_utf8;
use vstd::utf8::encode_utf8_decode_utf8;

verus! {

/// A structured value usable as a secondary-index key.
///
/// The domain is deliberately first-order.  An index key exists only to be
/// encoded whole, compared and looked up whole, so nesting would add no
/// queryable structure: a composite is indexed per part, under one index
/// key per field, or whole, as its canonical bytes under [`Bytes`] — for
/// instance the bytes of an inner [`encode_value`], which keeps the whole
/// construction deterministic and collision-free because both layers are.
///
/// [`Bytes`]: IndexValue::Bytes
#[derive(Clone, Debug)]
pub enum IndexValue {
    Nil,
    Bool(bool),
    Int(i64),
    Str(String),
    Bytes(Vec<u8>),
}

/// The mathematical model of an [`IndexValue`].
pub enum IndexValueModel {
    Nil,
    Bool(bool),
    Int(i64),
    Str(Seq<char>),
    Bytes(Seq<u8>),
}

impl View for IndexValue {
    type V = IndexValueModel;

    open spec fn view(&self) -> IndexValueModel {
        match self {
            IndexValue::Nil => IndexValueModel::Nil,
            IndexValue::Bool(b) => IndexValueModel::Bool(*b),
            IndexValue::Int(i) => IndexValueModel::Int(*i),
            IndexValue::Str(s) => IndexValueModel::Str(s@),
            IndexValue::Bytes(b) => IndexValueModel::Bytes(b@),
        }
    }
}

/// A value whose variable-length payload fits the 64-bit length prefix.
/// Every value built from in-memory strings and byte vectors satisfies it.
pub open spec fn wf_value(v: IndexValueModel) -> bool {
    match v {
        IndexValueModel::Str(s) => encode_utf8(s).len() < 0x1_0000_0000_0000_0000,
        IndexValueModel::Bytes(b) => b.len() < 0x1_0000_0000_0000_0000,
        _ => true,
    }
}

/// Big-endian bytes of a 64-bit integer.
pub open spec fn be_bytes_of_u64(x: u64) -> Seq<u8> {
    seq![
        (x >> 56) as u8,
        (x >> 48) as u8,
        (x >> 40) as u8,
        (x >> 32) as u8,
        (x >> 24) as u8,
        (x >> 16) as u8,
        (x >> 8) as u8,
        x as u8,
    ]
}

/// The 64-bit integer read back from eight big-endian bytes.
pub open spec fn u64_of_be_bytes(s: Seq<u8>) -> u64
    recommends
        s.len() == 8,
{
    ((s[0] as u64) << 56) | ((s[1] as u64) << 48) | ((s[2] as u64) << 40) | ((s[3] as u64) << 32)
        | ((s[4] as u64) << 24) | ((s[5] as u64) << 16) | ((s[6] as u64) << 8) | (s[7] as u64)
}

pub proof fn lemma_u64_be_round_trip(x: u64)
    ensures
        u64_of_be_bytes(be_bytes_of_u64(x)) == x,
{
    let s = be_bytes_of_u64(x);
    assert(u64_of_be_bytes(s) == ((((x >> 56) as u8) as u64) << 56) | ((((x >> 48) as u8)
        as u64) << 48) | ((((x >> 40) as u8) as u64) << 40) | ((((x >> 32) as u8) as u64) << 32)
        | ((((x >> 24) as u8) as u64) << 24) | ((((x >> 16) as u8) as u64) << 16) | ((((x
        >> 8) as u8) as u64) << 8) | ((x as u8) as u64));
    assert(((((x >> 56) as u8) as u64) << 56) | ((((x >> 48) as u8) as u64) << 48) | ((((x >> 40)
        as u8) as u64) << 40) | ((((x >> 32) as u8) as u64) << 32) | ((((x >> 24) as u8) as u64)
        << 24) | ((((x >> 16) as u8) as u64) << 16) | ((((x >> 8) as u8) as u64) << 8) | ((x
        as u8) as u64) == x) by (bit_vector);
}

/// The signed 64-bit value shifted into unsigned range, preserving order.
pub open spec fn offset_of_i64(i: i64) -> u64 {
    (i + 0x8000_0000_0000_0000) as u64
}

/// The inverse of [`offset_of_i64`].
pub open spec fn i64_of_offset(u: u64) -> i64 {
    (u - 0x8000_0000_0000_0000) as i64
}

pub proof fn lemma_i64_offset_round_trip(i: i64)
    ensures
        i64_of_offset(offset_of_i64(i)) == i,
{
}

/// Canonical byte encoding of a structured value: a tag byte, then a
/// fixed-width payload or a length-prefixed one.
pub open spec fn spec_encode_value(v: IndexValueModel) -> Seq<u8> {
    match v {
        IndexValueModel::Nil => seq![0u8],
        IndexValueModel::Bool(b) => seq![1u8, if b { 1u8 } else { 0u8 }],
        IndexValueModel::Int(i) => seq![2u8] + be_bytes_of_u64(offset_of_i64(i)),
        IndexValueModel::Str(s) => seq![3u8] + be_bytes_of_u64(encode_utf8(s).len() as u64)
            + encode_utf8(s),
        IndexValueModel::Bytes(b) => seq![4u8] + be_bytes_of_u64(b.len() as u64) + b,
    }
}

/// The value read back from its canonical byte encoding, if the bytes are
/// exactly one well-formed encoding.
pub open spec fn spec_decode_value(s: Seq<u8>) -> Option<IndexValueModel> {
    if s.len() == 0 {
        None
    } else if s[0] == 0 {
        if s.len() == 1 {
            Some(IndexValueModel::Nil)
        } else {
            None
        }
    } else if s[0] == 1 {
        if s.len() == 2 && (s[1] == 0 || s[1] == 1) {
            Some(IndexValueModel::Bool(s[1] == 1))
        } else {
            None
        }
    } else if s[0] == 2 {
        if s.len() == 9 {
            Some(IndexValueModel::Int(i64_of_offset(u64_of_be_bytes(s.subrange(1, 9)))))
        } else {
            None
        }
    } else if s[0] == 3 {
        if s.len() >= 9 && u64_of_be_bytes(s.subrange(1, 9)) == s.len() - 9 && valid_utf8(
            s.skip(9),
        ) {
            Some(IndexValueModel::Str(decode_utf8(s.skip(9))))
        } else {
            None
        }
    } else if s[0] == 4 {
        if s.len() >= 9 && u64_of_be_bytes(s.subrange(1, 9)) == s.len() - 9 {
            Some(IndexValueModel::Bytes(s.skip(9)))
        } else {
            None
        }
    } else {
        None
    }
}

/// Decoding inverts encoding: the byte layer of the codec is reversible.
pub proof fn lemma_value_codec_round_trip(v: IndexValueModel)
    requires
        wf_value(v),
    ensures
        spec_decode_value(spec_encode_value(v)) == Some(v),
{
    let s = spec_encode_value(v);
    match v {
        IndexValueModel::Nil => {},
        IndexValueModel::Bool(b) => {},
        IndexValueModel::Int(i) => {
            assert(s.subrange(1, 9) =~= be_bytes_of_u64(offset_of_i64(i)));
            lemma_u64_be_round_trip(offset_of_i64(i));
            lemma_i64_offset_round_trip(i);
        },
        IndexValueModel::Str(t) => {
            let bytes = encode_utf8(t);
            assert(s.subrange(1, 9) =~= be_bytes_of_u64(bytes.len() as u64));
            assert(s.skip(9) =~= bytes);
            lemma_u64_be_round_trip(bytes.len() as u64);
            encode_utf8_valid_utf8(t);
            encode_utf8_decode_utf8(t);
        },
        IndexValueModel::Bytes(b) => {
            assert(s.subrange(1, 9) =~= be_bytes_of_u64(b.len() as u64));
            assert(s.skip(9) =~= b);
            lemma_u64_be_round_trip(b.len() as u64);
        },
    }
}

/// The byte encoding is deterministic and collision-free: two values encode
/// to the same bytes exactly when they are the same value.
pub proof fn lemma_value_codec_injective(v1: IndexValueModel, v2: IndexValueModel)
    requires
        wf_value(v1),
        wf_value(v2),
    ensures
        spec_encode_value(v1) == spec_encode_value(v2) <==> v1 == v2,
{
    if spec_encode_value(v1) == spec_encode_value(v2) {
        lemma_value_codec_round_trip(v1);
        lemma_value_codec_round_trip(v2);
    }
}

/// Appends the big-endian bytes of `x`.
fn push_u64_be(out: &mut Vec<u8>, x: u64)
    ensures
        final(out)@ == old(out)@ + be_bytes_of_u64(x),
{
    out.push(#[verifier::truncate] ((x >> 56) as u8));
    out.push(#[verifier::truncate] ((x >> 48) as u8));
    out.push(#[verifier::truncate] ((x >> 40) as u8));
    out.push(#[verifier::truncate] ((x >> 32) as u8));
    out.push(#[verifier::truncate] ((x >> 24) as u8));
    out.push(#[verifier::truncate] ((x >> 16) as u8));
    out.push(#[verifier::truncate] ((x >> 8) as u8));
    out.push(#[verifier::truncate] (x as u8));
    assert(out@ =~= old(out)@ + be_bytes_of_u64(x));
}

/// Encodes a structured value into its canonical bytes.
pub fn encode_value(v: &IndexValue) -> (r: Vec<u8>)
    ensures
        r@ == spec_encode_value(v@),
{
    let mut out: Vec<u8> = Vec::new();
    match v {
        IndexValue::Nil => {
            out.push(0u8);
            assert(out@ =~= spec_encode_value(v@));
        },
        IndexValue::Bool(b) => {
            out.push(1u8);
            out.push(if *b { 1u8 } else { 0u8 });
            assert(out@ =~= spec_encode_value(v@));
        },
        IndexValue::Int(i) => {
            out.push(2u8);
            let wide: i128 = (*i as i128) + 0x8000_0000_0000_0000i128;
            let u: u64 = #[verifier::truncate] (wide as u64);
            assert(u == offset_of_i64(*i as i64));
            push_u64_be(&mut out, u);
            assert(out@ =~= spec_encode_value(v@));
        },
        IndexValue::Str(s) => {
            let bytes = s.as_str().as_bytes_vec();
            out.push(3u8);
            push_u64_be(&mut out, bytes.len() as u64);
            let mut j: usize = 0;
            while j < bytes.len()
                invariant
                    j <= bytes.len(),
                    out@ == seq![3u8] + be_bytes_of_u64(bytes@.len() as u64) + bytes@.take(
                        j as int,
                    ),
                decreases bytes.len() - j,
            {
                out.push(bytes[j]);
                j = j + 1;
                assert(bytes@.take(j as int) =~= bytes@.take(j - 1) + seq![bytes@[j - 1]]);
                assert(out@ =~= seq![3u8] + be_bytes_of_u64(bytes@.len() as u64) + bytes@.take(
                    j as int,
                ));
            }
            assert(bytes@.take(bytes@.len() as int) =~= bytes@);
            assert(out@ =~= spec_encode_value(v@));
        },
        IndexValue::Bytes(b) => {
            out.push(4u8);
            push_u64_be(&mut out, b.len() as u64);
            let mut j: usize = 0;
            while j < b.len()
                invariant
                    j <= b.len(),
                    out@ == seq![4u8] + be_bytes_of_u64(b@.len() as u64) + b@.take(j as int),
                decreases b.len() - j,
            {
                out.push(b[j]);
                j = j + 1;
                assert(b@.take(j as int) =~= b@.take(j - 1) + seq![b@[j - 1]]);
                assert(out@ =~= seq![4u8] + be_bytes_of_u64(b@.len() as u64) + b@.take(j as int));
            }
            assert(b@.take(b@.len() as int) =~= b@);
            assert(out@ =~= spec_encode_value(v@));
        },
    }
    out
}

/// Relies on `String::from_utf8` from std: it succeeds exactly on valid
/// UTF-8 input and decodes the bytes to their character sequence.
#[verifier::external_body]
fn string_from_utf8(bytes: Vec<u8>) -> (r: Option<String>)
    ensures
        r is Some <==> valid_utf8(bytes@),
        r matches Some(s) ==> s@ == decode_utf8(bytes@),
{
    std::string::String::from_utf8(bytes).ok()
}

/// Reads eight big-endian bytes starting at `off`.
fn read_u64_be(bytes: &[u8], off: usize) -> (r: u64)
    requires
        off + 8 <= bytes@.len(),
    ensures
        r == u64_of_be_bytes(bytes@.subrange(off as int, off + 8)),
{
    let r = ((bytes[off] as u64) << 56) | ((bytes[off + 1] as u64) << 48) | ((bytes[off + 2]
        as u64) << 40) | ((bytes[off + 3] as u64) << 32) | ((bytes[off + 4] as u64) << 24) | ((
    bytes[off + 5] as u64) << 16) | ((bytes[off + 6] as u64) << 8) | (bytes[off + 7] as u64);
    proof {
        let s = bytes@.subrange(off as int, off + 8);
        assert(s[0] == bytes@[off as int]);
        assert(s[1] == bytes@[off + 1]);
        assert(s[2] == bytes@[off + 2]);
        assert(s[3] == bytes@[off + 3]);
        assert(s[4] == bytes@[off + 4]);
        assert(s[5] == bytes@[off + 5]);
        assert(s[6] == bytes@[off + 6]);
        assert(s[7] == bytes@[off + 7]);
    }
    r
}

/// Decodes canonical bytes back into the structured value, or reports that
/// the bytes are not the encoding of any value.
pub fn decode_value(bytes: &[u8]) -> (r: Option<IndexValue>)
    ensures
        match r {
            Some(v) => spec_decode_value(bytes@) == Some(v@),
            None => spec_decode_value(bytes@) is None,
        },
{
    if bytes.len() == 0 {
        return None;
    }
    let tag = bytes[0];
    if tag == 0 {
        if bytes.len() == 1 {
            Some(IndexValue::Nil)
        } else {
            None
        }
    } else if tag == 1 {
        if bytes.len() == 2 && (bytes[1] == 0 || bytes[1] == 1) {
            Some(IndexValue::Bool(bytes[1] == 1))
        } else {
            None
        }
    } else if tag == 2 {
        if bytes.len() == 9 {
            let u = read_u64_be(bytes, 1);
            let wide: i128 = (u as i128) - 0x8000_0000_0000_0000i128;
            let i: i64 = #[verifier::truncate] (wide as i64);
            assert(i == i64_of_offset(u));
            Some(IndexValue::Int(i))
        } else {
            None
        }
    } else if tag == 3 || tag == 4 {
        if bytes.len() < 9 {
            return None;
        }
        let n = read_u64_be(bytes, 1);
        if n != (bytes.len() - 9) as u64 {
            return None;
        }
        let mut payload: Vec<u8> = Vec::new();
        let mut k: usize = 9;
        while k < bytes.len()
            invariant
                9 <= k <= bytes@.len(),
                payload@ == bytes@.subrange(9, k as int),
            decreases bytes@.len() - k,
        {
            payload.push(bytes[k]);
            k = k + 1;
            assert(payload@ =~= bytes@.subrange(9, k as int));
        }
        assert(payload@ =~= bytes@.skip(9));
        if tag == 3 {
            match string_from_utf8(payload) {
                Some(s) => Some(IndexValue::Str(s)),
                None => None,
            }
        } else {
            Some(IndexValue::Bytes(payload))
        }
    } else {
        None
    }
}

/// The lower-case hexadecimal digit for one nibble.
pub open spec fn hex_digit_char(n: u8) -> char
    recommends
        n < 16,
{
    if n == 0 { '0' }
    else if n == 1 { '1' }
    else if n == 2 { '2' }
    else if n == 3 { '3' }
    else if n == 4 { '4' }
    else if n == 5 { '5' }
    else if n == 6 { '6' }
    else if n == 7 { '7' }
    else if n == 8 { '8' }
    else if n == 9 { '9' }
    else if n == 10 { 'a' }
    else if n == 11 { 'b' }
    else if n == 12 { 'c' }
    else if n == 13 { 'd' }
    else if n == 14 { 'e' }
    else { 'f' }
}

/// The nibble a hexadecimal digit stands for, or 16 for any other character.
pub open spec fn nibble_of_char(c: char) -> u8 {
    if c == '0' { 0 }
    else if c == '1' { 1 }
    else if c == '2' { 2 }
    else if c == '3' { 3 }
    else if c == '4' { 4 }
    else if c == '5' { 5 }
    else if c == '6' { 6 }
    else if c == '7' { 7 }
    else if c == '8' { 8 }
    else if c == '9' { 9 }
    else if c == 'a' { 10 }
    else if c == 'b' { 11 }
    else if c == 'c' { 12 }
    else if c == 'd' { 13 }
    else if c == 'e' { 14 }
    else if c == 'f' { 15 }
    else { 16 }
}

pub open spec fn is_hex_digit(c: char) -> bool {
    nibble_of_char(c) < 16
}

/// The text-safe rendering of a byte sequence: two lower-case hexadecimal
/// digits per byte, no padding, no delimiters.
pub open spec fn spec_hex(bytes: Seq<u8>) -> Seq<char> {
    Seq::new(
        bytes.len() * 2,
        |i: int|
            if i % 2 == 0 {
                hex_digit_char(bytes[i / 2] / 16)
            } else {
                hex_digit_char(bytes[i / 2] % 16)
            },
    )
}

/// The bytes a hexadecimal text stands for, if it is one.
pub open spec fn spec_unhex(s: Seq<char>) -> Option<Seq<u8>> {
    if s.len() % 2 == 0 && (forall|i: int| 0 <= i < s.len() ==> is_hex_digit(#[trigger] s[i])) {
        Some(
            Seq::new(
                s.len() / 2,
                |i: int| (16 * nibble_of_char(s[2 * i]) + nibble_of_char(s[2 * i + 1])) as u8,
            ),
        )
    } else {
        None
    }
}

proof fn lemma_hex_digit_round_trip(n: u8)
    requires
        n < 16,
    ensures
        nibble_of_char(hex_digit_char(n)) == n,
{
}

/// The hexadecimal rendering is reversible.
pub proof fn lemma_hex_round_trip(b: Seq<u8>)
    ensures
        spec_unhex(spec_hex(b)) == Some(b),
{
    let s = spec_hex(b);
    assert forall|i: int| 0 <= i < s.len() implies is_hex_digit(#[trigger] s[i]) by {
        if i % 2 == 0 {
            lemma_hex_digit_round_trip(b[i / 2] / 16);
        } else {
            lemma_hex_digit_round_trip(b[i / 2] % 16);
        }
    }
    let u = spec_unhex(s)->Some_0;
    assert forall|i: int| 0 <= i < b.len() implies u[i] == b[i] by {
        assert(s[2 * i] == hex_digit_char(b[i] / 16));
        assert(s[2 * i + 1] == hex_digit_char(b[i] % 16));
        lemma_hex_digit_round_trip(b[i] / 16);
        lemma_hex_digit_round_trip(b[i] % 16);
        assert(16 * (b[i] / 16) + b[i] % 16 == b[i]);
    }
    assert(u =~= b);
}

/// The string holding one hexadecimal digit.
fn hex_digit_str(n: u8) -> (r: &'static str)
    requires
        n < 16,
    ensures
        r@ == seq![hex_digit_char(n)],
{
    let s: &'static str = if n == 0 { "0" }
    else if n == 1 { "1" }
    else if n == 2 { "2" }
    else if n == 3 { "3" }
    else if n == 4 { "4" }
    else if n == 5 { "5" }
    else if n == 6 { "6" }
    else if n == 7 { "7" }
    else if n == 8 { "8" }
    else if n == 9 { "9" }
    else if n == 10 { "a" }
    else if n == 11 { "b" }
    else if n == 12 { "c" }
    else if n == 13 { "d" }
    else if n == 14 { "e" }
    else { "f" };
    proof {
        reveal_strlit("0");
        reveal_strlit("1");
        reveal_strlit("2");
        reveal_strlit("3");
        reveal_strlit("4");
        reveal_strlit("5");
        reveal_strlit("6");
        reveal_strlit("7");
        reveal_strlit("8");
        reveal_strlit("9");
        reveal_strlit("a");
        reveal_strlit("b");
        reveal_strlit("c");
        reveal_strlit("d");
        reveal_strlit("e");
        reveal_strlit("f");
        assert(s@ =~= seq![hex_digit_char(n)]);
    }
    s
}

/// Renders bytes as lower-case hexadecimal text.
pub fn encode_hex(bytes: &[u8]) -> (r: String)
    ensures
        r@ == spec_hex(bytes@),
{
    let mut r = String::new();
    let mut i: usize = 0;
    while i < bytes.len()
        invariant
            i <= bytes@.len(),
            r@ == spec_hex(bytes@.take(i as int)),
        decreases bytes@.len() - i,
    {
        let b = bytes[i];
        r.append(hex_digit_str(b / 16));
        r.append(hex_digit_str(b % 16));
        i = i + 1;
        proof {
            let prev = bytes@.take(i - 1);
            let cur = bytes@.take(i as int);
            assert forall|j: int| 0 <= j < cur.len() * 2 implies spec_hex(cur)[j] == (spec_hex(prev)
                + seq![hex_digit_char(bytes@[i - 1] / 16), hex_digit_char(bytes@[i - 1] % 16)])[j]
                by {
                if j < prev.len() * 2 {
                    assert(cur[j / 2] == prev[j / 2]);
                } else {
                    assert(j / 2 == i - 1);
                    assert(cur[j / 2] == bytes@[i - 1]);
                }
            }
            assert(r@ =~= spec_hex(bytes@.take(i as int)));
        }
    }
    assert(bytes@.take(bytes@.len() as int) =~= bytes@);
    r
}

/// The nibble for one character, or 16 if it is no hexadecimal digit.
fn nibble_exec(c: char) -> (r: u8)
    ensures
        r == nibble_of_char(c),
{
    if c == '0' { 0 }
    else if c == '1' { 1 }
    else if c == '2' { 2 }
    else if c == '3' { 3 }
    else if c == '4' { 4 }
    else if c == '5' { 5 }
    else if c == '6' { 6 }
    else if c == '7' { 7 }
    else if c == '8' { 8 }
    else if c == '9' { 9 }
    else if c == 'a' { 10 }
    else if c == 'b' { 11 }
    else if c == 'c' { 12 }
    else if c == 'd' { 13 }
    else if c == 'e' { 14 }
    else if c == 'f' { 15 }
    else { 16 }
}

/// Reads lower-case hexadecimal text back into bytes, or reports that the
/// text is no hexadecimal rendering.
pub fn decode_hex(s: &str) -> (r: Option<Vec<u8>>)
    ensures
        match r {
            Some(b) => spec_unhex(s@) == Some(b@),
            None => spec_unhex(s@) is None,
        },
{
    let n = s.unicode_len();
    if n % 2 != 0 {
        return None;
    }
    let mut out: Vec<u8> = Vec::new();
    let mut i: usize = 0;
    while i < n
        invariant
            n == s@.len(),
            i <= n,
            i % 2 == 0,
            n % 2 == 0,
            forall|j: int| 0 <= j < i ==> is_hex_digit(#[trigger] s@[j]),
            out@.len() == i / 2,
            forall|k: int|
                0 <= k < i / 2 ==> out@[k] == (16 * nibble_of_char(s@[2 * k]) + nibble_of_char(
                    s@[2 * k + 1],
                )) as u8,
        decreases n - i,
    {
        let c1 = s.get_char(i);
        let c2 = s.get_char(i + 1);
        let n1 = nibble_exec(c1);
        let n2 = nibble_exec(c2);
        if n1 >= 16 || n2 >= 16 {
            proof {
                if n1 >= 16 {
                    assert(!is_hex_digit(s@[i as int]));
                } else {
                    assert(!is_hex_digit(s@[i + 1]));
                }
            }
            return None;
        }
        out.push(16 * n1 + n2);
        i = i + 2;
    }
    proof {
        let u = spec_unhex(s@)->Some_0;
        assert(out@ =~= u);
    }
    Some(out)
}

/// The full index encoding: canonical bytes rendered as hexadecimal text.
pub open spec fn spec_encode_index(v: IndexValueModel) -> Seq<char> {
    spec_hex(spec_encode_value(v))
}

/// The inverse reading of [`spec_encode_index`].
pub open spec fn spec_decode_index(s: Seq<char>) -> Option<IndexValueModel> {
    match spec_unhex(s) {
        Some(b) => spec_decode_value(b),
        None => None,
    }
}

/// Encodes a structured value into its text-safe index key.
pub fn encode_index_value(v: &IndexValue) -> (r: String)
    ensures
        r@ == spec_encode_index(v@),
{
    let b = encode_value(v);
    encode_hex(b.as_slice())
}

/// Decodes a text-safe index key back into its structured value.
pub fn decode_index_value(s: &str) -> (r: Option<IndexValue>)
    ensures
        match r {
            Some(v) => spec_decode_index(s@) == Some(v@),
            None => spec_decode_index(s@) is None,
        },
{
    match decode_hex(s) {
        Some(b) => decode_value(b.as_slice()),
        None => None,
    }
}

/// Law: decoding inverts encoding.  The text-safe index key of a value
/// always reads back as exactly that value.
pub proof fn lemma_index_encoding_round_trip(v: IndexValueModel)
    requires
        wf_value(v),
    ensures
        spec_decode_index(spec_encode_index(v)) == Some(v),
{
    lemma_hex_round_trip(spec_encode_value(v));
    lemma_value_codec_round_trip(v);
}

/// Law: the index encoding is deterministic and collision-free.  Two values
/// have the same index key exactly when they are the same value.
pub proof fn lemma_index_encoding_injective(v1: IndexValueModel, v2: IndexValueModel)
    requires
        wf_value(v1),
        wf_value(v2),
    ensures
        spec_encode_index(v1) == spec_encode_index(v2) <==> v1 == v2,
{
    if spec_encode_index(v1) == spec_encode_index(v2) {
        lemma_hex_round_trip(spec_encode_value(v1));
        lemma_hex_round_trip(spec_encode_value(v2));
        lemma_value_codec_round_trip(v1);
        lemma_value_codec_round_trip(v2);
    }
}

} // verus!
