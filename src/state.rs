use vstd::prelude::*;
use vstd::slice::{slice_subrange, slice_to_vec};
use vstd::utf8::{decode_utf8, encode_utf8, valid_utf8, encode_utf8_decode_utf8, encode_utf8_valid_utf8, decode_utf8_encode_utf8};

verus! {

/// Capacity of a review slot, in bytes; also the largest encoded review.
pub const ACCOUNT_LEN: usize = 1000;

/// The value of four little-endian bytes.
pub open spec fn le_u32(b: Seq<u8>) -> u32 {
    (b[0] as int + 256 * b[1] as int + 65536 * b[2] as int + 16777216 * b[3] as int) as u32
}

/// The four little-endian bytes of `n`.
pub open spec fn le_bytes(n: u32) -> Seq<u8> {
    seq![(n % 256) as u8, ((n / 256) % 256) as u8, ((n / 65536) % 256) as u8, (n / 16777216) as u8]
}

proof fn lemma_le_bytes_value(n: u32)
    ensures
        le_u32(le_bytes(n)) == n,
        le_bytes(n).len() == 4,
{
    let b = le_bytes(n);
    assert(b[0] as int + 256 * b[1] as int + 65536 * b[2] as int + 16777216 * b[3] as int == n) by (nonlinear_arith)
        requires
            b[0] == n % 256,
            b[1] == (n / 256) % 256,
            b[2] == (n / 65536) % 256,
            b[3] == n / 16777216,
    ;
}

proof fn lemma_le_value_bytes(b: Seq<u8>)
    requires
        b.len() == 4,
    ensures
        le_bytes(le_u32(b)) == b,
{
    let v = b[0] as int + 256 * b[1] as int + 65536 * b[2] as int + 16777216 * b[3] as int;
    let (b0, b1, b2, b3) = (b[0] as int, b[1] as int, b[2] as int, b[3] as int);
    assert(0 <= v < 0x1_0000_0000 && v % 256 == b0 && (v / 256) % 256 == b1 && (v / 65536) % 256 == b2 && v / 16777216 == b3) by (nonlinear_arith)
        requires
            v == b0 + 256 * b1 + 65536 * b2 + 16777216 * b3,
            0 <= b0 < 256,
            0 <= b1 < 256,
            0 <= b2 < 256,
            0 <= b3 < 256,
    ;
    assert(le_bytes(le_u32(b)) =~= b);
}

/// Reads a little-endian `u32` at `start`.
fn read_u32(data: &[u8], start: usize) -> (r: u32)
    requires
        start + 4 <= data@.len(),
    ensures
        r == le_u32(data@.subrange(start as int, start + 4)),
{
    let v = data[start] as u32 + 256 * data[start + 1] as u32 + 65536 * data[start + 2] as u32
        + 16777216 * data[start + 3] as u32;
    v
}

/// Appends the little-endian bytes of `n`.
fn push_u32(out: &mut Vec<u8>, n: u32)
    ensures
        final(out)@ == old(out)@ + le_bytes(n),
{
    out.push((n % 256) as u8);
    out.push(((n / 256) % 256) as u8);
    out.push(((n / 65536) % 256) as u8);
    out.push((n / 16777216) as u8);
    assert(final(out)@ =~= old(out)@ + le_bytes(n));
}

/// A review as stored in its slot.
#[derive(Debug)]
pub struct MovieAccountState {
    pub is_initialized: bool,
    pub rating: u8,
    pub title: String,
    pub description: String,
}

/// The mathematical value of a stored review.
pub struct ReviewRecord {
    pub is_initialized: bool,
    pub rating: u8,
    pub title: Seq<char>,
    pub description: Seq<char>,
}

impl View for MovieAccountState {
    type V = ReviewRecord;

    open spec fn view(&self) -> ReviewRecord {
        ReviewRecord {
            is_initialized: self.is_initialized,
            rating: self.rating,
            title: self.title@,
            description: self.description@,
        }
    }
}

/// The record's text fields are short enough for their length prefixes.
pub open spec fn fits_prefixes(r: ReviewRecord) -> bool {
    &&& encode_utf8(r.title).len() <= u32::MAX
    &&& encode_utf8(r.description).len() <= u32::MAX
}

/// Number of bytes that a review with these texts takes once encoded.
pub open spec fn payload_len(title: Seq<char>, description: Seq<char>) -> int {
    1 + 1 + (4 + encode_utf8(title).len() as int) + (4 + encode_utf8(description).len() as int)
}

/// A text field: its byte length as a little-endian `u32`, then its UTF-8 bytes.
pub open spec fn spec_encode_text(s: Seq<char>) -> Seq<u8> {
    le_bytes(encode_utf8(s).len() as u32) + encode_utf8(s)
}

/// The byte layout of a record: flag, rating, title, description.
pub open spec fn spec_encode(r: ReviewRecord) -> Seq<u8> {
    seq![if r.is_initialized { 1u8 } else { 0u8 }, r.rating] + spec_encode_text(r.title)
        + spec_encode_text(r.description)
}

/// The record that the leading bytes of `b` hold, if any; bytes after the
/// record are ignored. The flag must be 0 or 1 and both texts valid UTF-8.
pub open spec fn spec_decode(b: Seq<u8>) -> Option<ReviewRecord> {
    if b.len() < 6 || b[0] > 1 {
        None
    } else {
        let tl = le_u32(b.subrange(2, 6)) as int;
        if b.len() < 10 + tl {
            None
        } else {
            let dl = le_u32(b.subrange(6 + tl, 10 + tl)) as int;
            let tb = b.subrange(6, 6 + tl);
            let db = b.subrange(10 + tl, 10 + tl + dl);
            if b.len() < 10 + tl + dl || !valid_utf8(tb) || !valid_utf8(db) {
                None
            } else {
                Some(
                    ReviewRecord {
                        is_initialized: b[0] == 1,
                        rating: b[1],
                        title: decode_utf8(tb),
                        description: decode_utf8(db),
                    },
                )
            }
        }
    }
}

/// Relies on std's `String::from_utf8`: it succeeds exactly on valid UTF-8 and
/// then holds those bytes.
#[verifier::external_body]
fn string_from_utf8(bytes: Vec<u8>) -> (r: Option<String>)
    ensures
        r is Some <==> valid_utf8(bytes@),
        r is Some ==> encode_utf8(r->0@) == bytes@,
{
    String::from_utf8(bytes).ok()
}

/// Decodes a text field of `len` bytes starting at `start`.
fn decode_text(data: &[u8], start: usize, len: usize) -> (r: Option<String>)
    requires
        start + len <= data@.len(),
    ensures
        r is Some <==> valid_utf8(data@.subrange(start as int, start + len)),
        r is Some ==> r->0@ == decode_utf8(data@.subrange(start as int, start + len)),
{
    let n = data.len();
    assert(start + len <= n);
    let r = string_from_utf8(slice_to_vec(slice_subrange(data, start, start + len)));
    proof {
        if r is Some {
            encode_utf8_decode_utf8(r->0@);
        }
    }
    r
}

impl MovieAccountState {
    /// Whether a review has been committed to the slot.
    pub fn is_initialized(&self) -> (r: bool)
        ensures
            r == self.is_initialized,
    {
        self.is_initialized
    }

    /// The bytes of this record in the slot layout.
    pub fn encode(&self) -> (r: Vec<u8>)
        requires
            fits_prefixes(self@),
        ensures
            r@ == spec_encode(self@),
    {
        let mut out: Vec<u8> = Vec::new();
        out.push(if self.is_initialized { 1u8 } else { 0u8 });
        out.push(self.rating);
        let mut title = encode_text(&self.title);
        out.append(&mut title);
        let mut description = encode_text(&self.description);
        out.append(&mut description);
        assert(out@ =~= spec_encode(self@));
        out
    }

    /// Reads a record from the leading bytes of `data`; `None` where they hold none.
    pub fn decode(data: &[u8]) -> (r: Option<MovieAccountState>)
        ensures
            r is Some <==> spec_decode(data@) is Some,
            r is Some ==> r->0@ == spec_decode(data@)->0,
    {
        let n = data.len();
        if n < 6 || data[0] > 1 {
            return None;
        }
        let tl = read_u32(data, 2) as usize;
        if n < 10 || n - 10 < tl {
            return None;
        }
        let dl = read_u32(data, 6 + tl) as usize;
        if n - (10 + tl) < dl {
            return None;
        }
        let title = match decode_text(data, 6, tl) {
            Some(t) => t,
            None => return None,
        };
        let description = match decode_text(data, 10 + tl, dl) {
            Some(d) => d,
            None => return None,
        };
        Some(MovieAccountState { is_initialized: data[0] == 1, rating: data[1], title, description })
    }
}

/// The length prefix and UTF-8 bytes of `s`.
fn encode_text(s: &String) -> (r: Vec<u8>)
    requires
        encode_utf8(s@).len() <= u32::MAX,
    ensures
        r@ == spec_encode_text(s@),
{
    let bytes = s.as_str().as_bytes();
    let mut out: Vec<u8> = Vec::new();
    push_u32(&mut out, bytes.len() as u32);
    let mut body = slice_to_vec(bytes);
    out.append(&mut body);
    out
}

/// Encoding a record with short enough texts and decoding it back gives the
/// same record, whatever bytes follow it in the slot.
pub proof fn lemma_decode_encode(r: ReviewRecord, rest: Seq<u8>)
    requires
        fits_prefixes(r),
    ensures
        spec_decode(spec_encode(r) + rest) == Some(r),
        spec_encode(r).len() == payload_len(r.title, r.description),
{
    encode_utf8_valid_utf8(r.title);
    encode_utf8_valid_utf8(r.description);
    encode_utf8_decode_utf8(r.title);
    encode_utf8_decode_utf8(r.description);
    lemma_le_bytes_value(encode_utf8(r.title).len() as u32);
    lemma_le_bytes_value(encode_utf8(r.description).len() as u32);
    let b = spec_encode(r) + rest;
    let tb = encode_utf8(r.title);
    let db = encode_utf8(r.description);
    let tl = tb.len() as int;
    let dl = db.len() as int;
    let tp = le_bytes(tl as u32);
    let dp = le_bytes(dl as u32);
    assert(b =~= seq![if r.is_initialized { 1u8 } else { 0u8 }, r.rating] + tp + tb + dp + db + rest);
    assert(b.subrange(2, 6) =~= tp);
    assert(b.subrange(6, 6 + tl) =~= tb);
    assert(b.subrange(6 + tl, 10 + tl) =~= dp);
    assert(b.subrange(10 + tl, 10 + tl + dl) =~= db);
}

/// The leading bytes of a buffer that decodes to a record are exactly that
/// record's encoding.
pub proof fn lemma_encode_decode(b: Seq<u8>)
    requires
        spec_decode(b) is Some,
    ensures
        fits_prefixes(spec_decode(b)->0),
        spec_encode(spec_decode(b)->0).len() <= b.len(),
        b.subrange(0, spec_encode(spec_decode(b)->0).len() as int) == spec_encode(spec_decode(b)->0),
{
    let r = spec_decode(b)->0;
    let tl = le_u32(b.subrange(2, 6)) as int;
    let dl = le_u32(b.subrange(6 + tl, 10 + tl)) as int;
    let tb = b.subrange(6, 6 + tl);
    let db = b.subrange(10 + tl, 10 + tl + dl);
    decode_utf8_encode_utf8(tb);
    decode_utf8_encode_utf8(db);
    lemma_le_value_bytes(b.subrange(2, 6));
    lemma_le_value_bytes(b.subrange(6 + tl, 10 + tl));
    assert(encode_utf8(r.title) == tb);
    assert(encode_utf8(r.description) == db);
    assert(le_bytes(tl as u32) == b.subrange(2, 6));
    assert(le_bytes(dl as u32) == b.subrange(6 + tl, 10 + tl));
    assert(spec_encode(r) =~= b.subrange(0, 10 + tl + dl));
}

/// An all-zero slot decodes as an uninitialized record with empty texts.
pub proof fn lemma_zero_slot_decodes_empty(n: nat)
    requires
        n >= 10,
    ensures
        spec_decode(Seq::new(n, |i: int| 0u8)) == Some(
            ReviewRecord { is_initialized: false, rating: 0, title: Seq::empty(), description: Seq::empty() },
        ),
{
    let z = Seq::new(n, |i: int| 0u8);
    let e = ReviewRecord { is_initialized: false, rating: 0, title: Seq::empty(), description: Seq::empty() };
    assert(encode_utf8(Seq::<char>::empty()) =~= Seq::<u8>::empty()) by {
        reveal_with_fuel(encode_utf8, 1);
    }
    lemma_decode_encode(e, z.subrange(10, n as int));
    assert(spec_encode(e) + z.subrange(10, n as int) =~= z);
}

} // verus!
