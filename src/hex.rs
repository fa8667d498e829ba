//! Intel HEX parsing and flattening into a flash image.

use vstd::prelude::*;
use vstd::arithmetic::div_mod::lemma_add_mod_noop;
use vstd::std_specs::iter::IteratorSpec;

verus! {

/// A parsed segment of data at a specific address from an Intel HEX file.
#[derive(Debug, Clone)]
pub struct HexSegment {
    pub address: u32,
    pub data: Vec<u8>,
}

/// Why a HEX record was rejected.
#[derive(Debug, Clone, Copy, PartialEq, Eq, Structural)]
pub enum HexErrorKind {
    /// The line does not begin with `:`.
    MissingStartCode,
    /// The record is not an even number of hexadecimal digits.
    InvalidHex,
    /// Fewer than five bytes: no room for count, address, type and checksum.
    RecordTooShort,
    /// The byte count disagrees with the number of data bytes present.
    LengthMismatch { declared: u8, actual: usize },
    /// The bytes of the record do not sum to zero modulo 256.
    ChecksumMismatch,
    /// An extended segment address record whose payload is not two bytes.
    BadExtendedSegment,
    /// A record type other than data, end of file and extended segment address.
    UnsupportedRecordType(u8),
}

/// A rejected HEX input: the 1-based line and the reason.
#[derive(Debug, Clone, Copy, PartialEq, Eq, Structural)]
pub struct HexError {
    pub line: usize,
    pub kind: HexErrorKind,
}

/// The characters that `char::is_whitespace` accepts (Unicode White_Space).
pub open spec fn is_ws(c: char) -> bool {
    let u = c as u32;
    (0x09 <= u <= 0x0D) || u == 0x20 || u == 0x85 || u == 0xA0 || u == 0x1680 || (0x2000 <= u
        <= 0x200A) || u == 0x2028 || u == 0x2029 || u == 0x202F || u == 0x205F || u == 0x3000
}

/// The value of a hexadecimal digit.
pub open spec fn hex_digit(c: char) -> Option<u8> {
    let u = c as u32;
    if 0x30 <= u <= 0x39 {
        Some((u - 0x30) as u8)
    } else if 0x41 <= u <= 0x46 {
        Some((u - 0x41 + 10) as u8)
    } else if 0x61 <= u <= 0x66 {
        Some((u - 0x61 + 10) as u8)
    } else {
        None
    }
}

/// The bytes spelled by a string of hex digit pairs, high digit first.
pub open spec fn decode_hex(t: Seq<char>) -> Option<Seq<u8>> {
    if t.len() % 2 == 0 && forall|i: int| 0 <= i < t.len() ==> (#[trigger] hex_digit(t[i])) is Some {
        Some(
            Seq::new(
                (t.len() / 2) as nat,
                |k: int| (hex_digit(t[2 * k])->0 * 16 + hex_digit(t[2 * k + 1])->0) as u8,
            ),
        )
    } else {
        None
    }
}

/// The index of the `'\n'` that ends the line starting at `i`, or the end of input.
pub open spec fn line_end(s: Seq<char>, i: int) -> int
    decreases s.len() - i,
{
    if i >= s.len() || s[i] == '\n' {
        i
    } else {
        line_end(s, i + 1)
    }
}

/// The first index in `[i, end)` that is not whitespace, or `end`.
pub open spec fn trim_lo(s: Seq<char>, i: int, end: int) -> int
    decreases end - i,
{
    if i < end && is_ws(s[i]) {
        trim_lo(s, i + 1, end)
    } else {
        i
    }
}

/// One past the last index in `[lo, j)` that is not whitespace, or `lo`.
pub open spec fn trim_hi(s: Seq<char>, lo: int, j: int) -> int
    decreases j - lo,
{
    if j > lo && is_ws(s[j - 1]) {
        trim_hi(s, lo, j - 1)
    } else {
        j
    }
}

/// The sum of a sequence of bytes.
pub open spec fn byte_sum(b: Seq<u8>) -> int
    decreases b.len(),
{
    if b.len() == 0 {
        0
    } else {
        byte_sum(b.drop_last()) + b.last()
    }
}

/// The framing errors of a decoded record, checked in order: length, byte
/// count, checksum.
pub open spec fn frame_error(b: Seq<u8>) -> Option<HexErrorKind> {
    if b.len() < 5 {
        Some(HexErrorKind::RecordTooShort)
    } else if b.len() != 5 + b[0] {
        Some(HexErrorKind::LengthMismatch { declared: b[0], actual: (b.len() - 5) as usize })
    } else if byte_sum(b) % 256 != 0 {
        Some(HexErrorKind::ChecksumMismatch)
    } else {
        None
    }
}

/// Segments as address and bytes.
pub type SegmentsView = Seq<(int, Seq<u8>)>;

pub open spec fn segments_view(v: Seq<HexSegment>) -> SegmentsView {
    Seq::new(v.len(), |i: int| (v[i].address as int, v[i].data@))
}

/// Place a data record: extend the last segment when the record starts where
/// it ends, else open a new segment.
pub open spec fn add_data(segs: SegmentsView, address: int, data: Seq<u8>) -> SegmentsView {
    if segs.len() > 0 && segs.last().0 + segs.last().1.len() == address {
        segs.update(segs.len() - 1, (segs.last().0, segs.last().1 + data))
    } else {
        segs.push((address, data))
    }
}

/// The result of parsing `s` from the line that starts at `start`, which is
/// line number `line`, with the segments and base address built so far.
pub open spec fn parse_from(
    s: Seq<char>,
    start: int,
    line: int,
    segs: SegmentsView,
    base: int,
) -> Result<SegmentsView, (int, HexErrorKind)>
    decreases s.len() + 1 - start, 1int,
{
    let end = line_end(s, start);
    if start < 0 || start > s.len() || end < start || end > s.len() {
        Ok(segs)
    } else {
        let lo = trim_lo(s, start, end);
        let hi = trim_hi(s, lo, end);
        let t = s.subrange(lo, hi);
        if t.len() == 0 {
            parse_next(s, end, line, segs, base)
        } else if t[0] != ':' {
            Err((line, HexErrorKind::MissingStartCode))
        } else {
            match decode_hex(t.drop_first()) {
                None => Err((line, HexErrorKind::InvalidHex)),
                Some(b) => match frame_error(b) {
                    Some(k) => Err((line, k)),
                    None => {
                        if b[3] == 0 {
                            let address = base + b[1] * 256 + b[2];
                            parse_next(
                                s,
                                end,
                                line,
                                add_data(segs, address, b.subrange(4, b.len() - 1)),
                                base,
                            )
                        } else if b[3] == 1 {
                            Ok(segs)
                        } else if b[3] == 2 {
                            if b[0] != 2 {
                                Err((line, HexErrorKind::BadExtendedSegment))
                            } else {
                                parse_next(s, end, line, segs, (b[4] * 256 + b[5]) * 16)
                            }
                        } else {
                            Err((line, HexErrorKind::UnsupportedRecordType(b[3])))
                        }
                    },
                },
            }
        }
    }
}

/// Go on with the line after the one that ends at `end`, if there is one.
pub open spec fn parse_next(
    s: Seq<char>,
    end: int,
    line: int,
    segs: SegmentsView,
    base: int,
) -> Result<SegmentsView, (int, HexErrorKind)>
    decreases s.len() - end, 2int,
{
    if end < 0 || end >= s.len() {
        Ok(segs)
    } else {
        parse_from(s, end + 1, line + 1, segs, base)
    }
}

/// What parsing the whole text gives.
pub open spec fn parse_spec(s: Seq<char>) -> Result<SegmentsView, (int, HexErrorKind)> {
    parse_from(s, 0, 1, Seq::empty(), 0)
}

/// The characters of a string, in order.
fn chars_of(s: &str) -> (v: Vec<char>)
    ensures
        v@ == s@,
{
    broadcast use vstd::string::axiom_spec_iter;

    let mut v: Vec<char> = Vec::new();
    for c in it: s.chars()
        invariant
            v@ == it.seq().take(it.index() as int),
    {
        v.push(c);
    }
    v
}

/// Whether a character is Unicode white space, as `char::is_whitespace` decides.
fn is_whitespace(c: char) -> (r: bool)
    ensures
        r == is_ws(c),
{
    let u = c as u32;
    (0x09 <= u && u <= 0x0D) || u == 0x20 || u == 0x85 || u == 0xA0 || u == 0x1680 || (0x2000 <= u
        && u <= 0x200A) || u == 0x2028 || u == 0x2029 || u == 0x202F || u == 0x205F || u == 0x3000
}

/// The value of a hexadecimal digit, either case.
fn hex_digit_value(c: char) -> (r: Option<u8>)
    ensures
        r == hex_digit(c),
{
    let u = c as u32;
    if 0x30 <= u && u <= 0x39 {
        Some((u - 0x30) as u8)
    } else if 0x41 <= u && u <= 0x46 {
        Some((u - 0x41 + 10) as u8)
    } else if 0x61 <= u && u <= 0x66 {
        Some((u - 0x61 + 10) as u8)
    } else {
        None
    }
}

/// Decode pairs of hex digits into bytes; `None` for an odd count or a
/// character that is not a hex digit.
pub fn decode_hex_bytes(hex: &[char]) -> (r: Option<Vec<u8>>)
    ensures
        match r {
            Some(v) => decode_hex(hex@) == Some(v@),
            None => decode_hex(hex@) is None,
        },
{
    let n = hex.len();
    if n % 2 != 0 {
        return None;
    }
    let mut out: Vec<u8> = Vec::new();
    let mut k: usize = 0;
    while k < n / 2
        invariant
            n == hex@.len(),
            n % 2 == 0,
            k <= n / 2,
            forall|i: int| 0 <= i < 2 * k ==> (#[trigger] hex_digit(hex@[i])) is Some,
            out@ == Seq::new(
                k as nat,
                |j: int| (hex_digit(hex@[2 * j])->0 * 16 + hex_digit(hex@[2 * j + 1])->0) as u8,
            ),
        decreases n / 2 - k,
    {
        let hi = hex_digit_value(hex[2 * k]);
        let lo = hex_digit_value(hex[2 * k + 1]);
        match (hi, lo) {
            (Some(h), Some(l)) => {
                out.push(h * 16 + l);
                proof {
                    assert forall|i: int| 0 <= i < 2 * (k + 1) implies (#[trigger] hex_digit(hex@[i])) is Some by {
                        if i >= 2 * k {
                            assert(i == 2 * k || i == 2 * k + 1);
                        }
                    }
                }
                k = k + 1;
            },
            _ => {
                proof {
                    let i = if hi is None { 2 * k as int } else { 2 * k + 1 };
                    assert(hex_digit(hex@[i]) is None);
                }
                return None;
            },
        }
    }
    proof {
        assert(2 * k == n);
    }
    Some(out)
}

/// The index of the line end at or after `start`.
fn find_line_end(chars: &Vec<char>, start: usize) -> (r: usize)
    requires
        start <= chars@.len(),
    ensures
        r == line_end(chars@, start as int),
        start <= r <= chars@.len(),
{
    let mut i = start;
    while i < chars.len() && chars[i] != '\n'
        invariant
            start <= i <= chars@.len(),
            line_end(chars@, i as int) == line_end(chars@, start as int),
        decreases chars@.len() - i,
    {
        i = i + 1;
    }
    i
}

/// The bounds of the line `[start, end)` without leading and trailing white space.
fn trim_bounds(chars: &Vec<char>, start: usize, end: usize) -> (r: (usize, usize))
    requires
        start <= end <= chars@.len(),
    ensures
        r.0 == trim_lo(chars@, start as int, end as int),
        r.1 == trim_hi(chars@, r.0 as int, end as int),
        start <= r.0 <= r.1 <= end,
{
    let mut lo = start;
    while lo < end && is_whitespace(chars[lo])
        invariant
            start <= lo <= end <= chars@.len(),
            trim_lo(chars@, lo as int, end as int) == trim_lo(chars@, start as int, end as int),
        decreases end - lo,
    {
        lo = lo + 1;
    }
    let mut hi = end;
    while hi > lo && is_whitespace(chars[hi - 1])
        invariant
            lo <= hi <= end <= chars@.len(),
            trim_hi(chars@, lo as int, hi as int) == trim_hi(chars@, lo as int, end as int),
        decreases hi - lo,
    {
        hi = hi - 1;
    }
    (lo, hi)
}

/// Whether the bytes sum to zero modulo 256.
fn checksum_ok(b: &Vec<u8>) -> (r: bool)
    ensures
        r == (byte_sum(b@) % 256 == 0),
{
    let mut sum: u8 = 0;
    let mut i: usize = 0;
    while i < b.len()
        invariant
            i <= b@.len(),
            sum == byte_sum(b@.take(i as int)) % 256,
        decreases b@.len() - i,
    {
        proof {
            assert(b@.take(i + 1).drop_last() == b@.take(i as int));
            lemma_add_mod_noop(byte_sum(b@.take(i as int)), b@[i as int] as int, 256);
        }
        sum = ((sum as u16 + b[i] as u16) % 256) as u8;
        i = i + 1;
    }
    proof {
        assert(b@.take(i as int) == b@);
    }
    sum == 0
}

/// No data record ends past this address: a base of at most `0xFFFF << 4`,
/// an offset of at most `0xFFFF` and at most 255 bytes.
pub const MAX_SEGMENT_END: u32 = 0x1100EE;

/// Every segment lies below [`MAX_SEGMENT_END`].
pub open spec fn segments_bounded(segs: SegmentsView) -> bool {
    forall|i: int| 0 <= i < segs.len() ==> 0 <= (#[trigger] segs[i]).0 && segs[i].0 + segs[i].1.len() <= MAX_SEGMENT_END
}

/// Place `data[from..to]` at `address`, extending the last segment when it ends there.
fn append_record(segments: &mut Vec<HexSegment>, address: u32, data: &Vec<u8>, from: usize, to: usize)
    requires
        from <= to <= data@.len(),
        address + (to - from) <= MAX_SEGMENT_END,
        segments_bounded(segments_view(old(segments)@)),
    ensures
        segments_view(final(segments)@) == add_data(
            segments_view(old(segments)@),
            address as int,
            data@.subrange(from as int, to as int),
        ),
        segments_bounded(segments_view(final(segments)@)),
{
    let ghost old_view = segments_view(segments@);
    let ghost piece = data@.subrange(from as int, to as int);
    let mut fresh: Vec<u8> = Vec::new();
    let mut i = from;
    while i < to
        invariant
            from <= i <= to <= data@.len(),
            fresh@ == data@.subrange(from as int, i as int),
        decreases to - i,
    {
        fresh.push(data[i]);
        i = i + 1;
    }
    if segments.len() > 0 {
        let last_index = segments.len() - 1;
        let last_address = segments[last_index].address;
        let last_len = segments[last_index].data.len();
        proof {
            assert(old_view.last() == old_view[last_index as int]);
        }
        if address >= last_address && (address - last_address) as usize == last_len {
            let mut last = segments.pop().unwrap();
            let mut j: usize = 0;
            let ghost prefix = last.data@;
            while j < fresh.len()
                invariant
                    j <= fresh@.len(),
                    last.data@ == prefix + fresh@.take(j as int),
                    last.address == last_address,
                decreases fresh@.len() - j,
            {
                last.data.push(fresh[j]);
                proof {
                    assert(fresh@.take(j + 1) == fresh@.take(j as int).push(fresh@[j as int]));
                }
                j = j + 1;
            }
            segments.push(last);
            proof {
                assert(fresh@.take(j as int) == fresh@);
                assert(segments_view(segments@) == old_view.update(
                    old_view.len() - 1,
                    (old_view.last().0, old_view.last().1 + piece),
                ));
            }
            return;
        }
    }
    segments.push(HexSegment { address, data: fresh });
    proof {
        assert(segments_view(segments@) == old_view.push((address as int, piece)));
    }
}

/// Parse an Intel HEX format string into address-data segments.
///
/// Supports record types 00 (data), 01 (end of file) and 02 (extended
/// segment address). Data contiguous with the previous segment extends it.
pub fn parse_hex(input: &str) -> (r: Result<Vec<HexSegment>, HexError>)
    ensures
        match r {
            Ok(v) => parse_spec(input@) == Ok::<SegmentsView, (int, HexErrorKind)>(segments_view(v@))
                && segments_addressable(segments_view(v@)),
            Err(e) => parse_spec(input@) == Err::<SegmentsView, (int, HexErrorKind)>((e.line as int, e.kind)),
        },
{
    let chars = chars_of(input);
    let n = chars.len();
    let mut segments: Vec<HexSegment> = Vec::new();
    let mut base: u32 = 0;
    let mut pos: usize = 0;
    // Lines before the current one; each of them ended with a '\n'.
    let mut skipped: usize = 0;
    proof {
        assert(segments_view(segments@) == Seq::<(int, Seq<u8>)>::empty());
    }
    loop
        invariant
            n == chars@.len(),
            chars@ == input@,
            pos <= n,
            skipped <= pos,
            base <= 0xFFFF0,
            segments_bounded(segments_view(segments@)),
            parse_from(input@, pos as int, skipped + 1, segments_view(segments@), base as int)
                == parse_spec(input@),
        decreases n - pos,
    {
        let ghost s = input@;
        let end = find_line_end(&chars, pos);
        let (lo, hi) = trim_bounds(&chars, pos, end);
        let ghost t = s.subrange(lo as int, hi as int);
        if lo < hi {
            let line = skipped + 1;
            if chars[lo] != ':' {
                return Err(HexError { line, kind: HexErrorKind::MissingStartCode });
            }
            let mut digits: Vec<char> = Vec::new();
            let mut k = lo + 1;
            while k < hi
                invariant
                    lo < k <= hi <= n,
                    n == chars@.len(),
                    digits@ == chars@.subrange(lo + 1, k as int),
                decreases hi - k,
            {
                digits.push(chars[k]);
                k = k + 1;
            }
            proof {
                assert(digits@ == t.drop_first());
            }
            let bytes = match decode_hex_bytes(digits.as_slice()) {
                Some(b) => b,
                None => {
                    return Err(HexError { line, kind: HexErrorKind::InvalidHex });
                },
            };
            if bytes.len() < 5 {
                return Err(HexError { line, kind: HexErrorKind::RecordTooShort });
            }
            let count = bytes[0];
            if bytes.len() != 5 + count as usize {
                return Err(
                    HexError {
                        line,
                        kind: HexErrorKind::LengthMismatch { declared: count, actual: bytes.len() - 5 },
                    },
                );
            }
            if !checksum_ok(&bytes) {
                return Err(HexError { line, kind: HexErrorKind::ChecksumMismatch });
            }
            let record_type = bytes[3];
            if record_type == 0 {
                let address: u32 = base + (bytes[1] as u32) * 256 + bytes[2] as u32;
                append_record(&mut segments, address, &bytes, 4, bytes.len() - 1);
            } else if record_type == 1 {
                return Ok(segments);
            } else if record_type == 2 {
                if count != 2 {
                    return Err(HexError { line, kind: HexErrorKind::BadExtendedSegment });
                }
                base = ((bytes[4] as u32) * 256 + bytes[5] as u32) * 16;
            } else {
                return Err(HexError { line, kind: HexErrorKind::UnsupportedRecordType(record_type) });
            }
        }
        if end >= n {
            return Ok(segments);
        }
        pos = end + 1;
        skipped = skipped + 1;
    }
}

/// Why a list of segments cannot become a flash image.
#[derive(Debug, Clone, Copy, PartialEq, Eq, Structural)]
pub enum ImageError {
    /// There are no data segments.
    NoSegments,
    /// The image does not fit in the device's flash.
    TooLarge,
}

/// Each segment ends at an address that a `u32` can hold.
pub open spec fn segments_addressable(segs: SegmentsView) -> bool {
    forall|i: int| 0 <= i < segs.len() ==> 0 <= (#[trigger] segs[i]).0 && segs[i].0 + segs[i].1.len() <= u32::MAX
}

/// The lowest start address among the first `n` segments.
pub open spec fn min_address(segs: SegmentsView, n: int) -> int
    decreases n,
{
    if n <= 1 {
        segs[0].0
    } else {
        let m = min_address(segs, n - 1);
        if segs[n - 1].0 < m {
            segs[n - 1].0
        } else {
            m
        }
    }
}

/// The highest end address among the first `n` segments.
pub open spec fn max_end(segs: SegmentsView, n: int) -> int
    decreases n,
{
    if n <= 1 {
        segs[0].0 + segs[0].1.len()
    } else {
        let m = max_end(segs, n - 1);
        let e = segs[n - 1].0 + segs[n - 1].1.len();
        if e > m {
            e
        } else {
            m
        }
    }
}

/// Whether a segment holds a byte for address `a`.
pub open spec fn covers(seg: (int, Seq<u8>), a: int) -> bool {
    seg.0 <= a < seg.0 + seg.1.len()
}

/// The byte at address `a` once the first `n` segments are copied in order
/// over erased flash (`0xFF`): the last segment that covers `a` wins.
pub open spec fn image_byte(segs: SegmentsView, n: int, a: int) -> u8
    decreases n,
{
    if n <= 0 {
        0xFF
    } else if covers(segs[n - 1], a) {
        segs[n - 1].1[a - segs[n - 1].0]
    } else {
        image_byte(segs, n - 1, a)
    }
}

proof fn lemma_bounds(segs: SegmentsView, n: int)
    requires
        1 <= n <= segs.len(),
    ensures
        forall|i: int| 0 <= i < n ==> min_address(segs, n) <= (#[trigger] segs[i]).0 && segs[i].0
            + segs[i].1.len() <= max_end(segs, n),
        exists|i: int| 0 <= i < n && min_address(segs, n) == (#[trigger] segs[i]).0,
        exists|i: int| 0 <= i < n && max_end(segs, n) == (#[trigger] segs[i]).0 + segs[i].1.len(),
    decreases n,
{
    if n > 1 {
        lemma_bounds(segs, n - 1);
        if segs[n - 1].0 < min_address(segs, n - 1) {
            assert(min_address(segs, n) == segs[n - 1].0);
        } else {
            let i = choose|i: int| 0 <= i < n - 1 && min_address(segs, n - 1) == (#[trigger] segs[i]).0;
            assert(min_address(segs, n) == segs[i].0);
        }
        if segs[n - 1].0 + segs[n - 1].1.len() > max_end(segs, n - 1) {
            assert(max_end(segs, n) == segs[n - 1].0 + segs[n - 1].1.len());
        } else {
            let i = choose|i: int| 0 <= i < n - 1 && max_end(segs, n - 1) == (#[trigger] segs[i]).0 + segs[i].1.len();
            assert(max_end(segs, n) == segs[i].0 + segs[i].1.len());
        }
    } else {
        assert(min_address(segs, n) == segs[0].0);
        assert(max_end(segs, n) == segs[0].0 + segs[0].1.len());
    }
}

/// Flatten parsed HEX segments into a contiguous firmware image: the base is
/// the lowest segment address, the image runs to the highest segment end,
/// gaps hold `0xFF` (erased flash), and a later segment overwrites an
/// earlier one where they overlap.
pub fn flatten_segments(segments: &[HexSegment]) -> (r: Result<(u32, Vec<u8>), ImageError>)
    requires
        segments_addressable(segments_view(segments@)),
    ensures
        segments@.len() == 0 <==> r is Err,
        r is Err ==> r == Err::<(u32, Vec<u8>), ImageError>(ImageError::NoSegments),
        r matches Ok((base, image)) ==> {
            let segs = segments_view(segments@);
            &&& base == min_address(segs, segs.len() as int)
            &&& image@.len() == max_end(segs, segs.len() as int) - base
            &&& forall|k: int| 0 <= k < image@.len() ==> #[trigger] image@[k] == image_byte(
                segs,
                segs.len() as int,
                base + k,
            )
        },
{
    let ghost segs = segments_view(segments@);
    if segments.len() == 0 {
        return Err(ImageError::NoSegments);
    }
    assert(segs[0].0 + segs[0].1.len() <= u32::MAX);
    let mut min_addr: u32 = segments[0].address;
    let mut max_addr: u32 = (segments[0].address as usize + segments[0].data.len()) as u32;
    let mut i: usize = 1;
    while i < segments.len()
        invariant
            1 <= i <= segments@.len(),
            segs == segments_view(segments@),
            segments_addressable(segs),
            min_addr == min_address(segs, i as int),
            max_addr == max_end(segs, i as int),
        decreases segments@.len() - i,
    {
        assert(segs[i as int].0 + segs[i as int].1.len() <= u32::MAX);
        let a = segments[i].address;
        let e = (a as usize + segments[i].data.len()) as u32;
        if a < min_addr {
            min_addr = a;
        }
        if e > max_addr {
            max_addr = e;
        }
        i = i + 1;
    }
    proof {
        lemma_bounds(segs, segs.len() as int);
    }
    let total = (max_addr - min_addr) as usize;
    let mut image: Vec<u8> = Vec::new();
    while image.len() < total
        invariant
            image@.len() <= total,
            forall|k: int| 0 <= k < image@.len() ==> #[trigger] image@[k] == 0xFF,
        decreases total - image@.len(),
    {
        image.push(0xFF);
    }
    let mut s: usize = 0;
    while s < segments.len()
        invariant
            s <= segments@.len(),
            segs == segments_view(segments@),
            image@.len() == total,
            total == max_end(segs, segs.len() as int) - min_addr,
            min_addr == min_address(segs, segs.len() as int),
            forall|i: int| 0 <= i < segs.len() ==> min_addr <= (#[trigger] segs[i]).0 && segs[i].0
                + segs[i].1.len() <= max_end(segs, segs.len() as int),
            forall|k: int| 0 <= k < image@.len() ==> #[trigger] image@[k] == image_byte(segs, s as int, min_addr + k),
        decreases segments@.len() - s,
    {
        assert(min_addr <= segs[s as int].0);
        assert(segs[s as int].0 + segs[s as int].1.len() <= max_end(segs, segs.len() as int));
        let offset = (segments[s].address - min_addr) as usize;
        let len = segments[s].data.len();
        let mut j: usize = 0;
        while j < len
            invariant
                s < segments@.len(),
                segs == segments_view(segments@),
                j <= len == segs[s as int].1.len(),
                offset == segs[s as int].0 - min_addr,
                image@.len() == total,
                offset + len <= total,
                forall|k: int| 0 <= k < image@.len() ==> #[trigger] image@[k] == if offset <= k < offset + j {
                    segs[s as int].1[k - offset]
                } else {
                    image_byte(segs, s as int, min_addr + k)
                },
            decreases len - j,
        {
            image.set(offset + j, segments[s].data[j]);
            j = j + 1;
        }
        s = s + 1;
    }
    Ok((min_addr, image))
}

/// The data records of `s` from the line at `start` up to the end-of-file
/// record, each as its absolute address and its data bytes, in input order.
pub open spec fn records_from(
    s: Seq<char>,
    start: int,
    line: int,
    recs: SegmentsView,
    base: int,
) -> SegmentsView
    decreases s.len() + 1 - start, 1int,
{
    let end = line_end(s, start);
    if start < 0 || start > s.len() || end < start || end > s.len() {
        recs
    } else {
        let lo = trim_lo(s, start, end);
        let hi = trim_hi(s, lo, end);
        let t = s.subrange(lo, hi);
        if t.len() == 0 {
            records_next(s, end, line, recs, base)
        } else if t[0] != ':' {
            recs
        } else {
            match decode_hex(t.drop_first()) {
                None => recs,
                Some(b) => match frame_error(b) {
                    Some(k) => recs,
                    None => {
                        if b[3] == 0 {
                            let address = base + b[1] * 256 + b[2];
                            records_next(
                                s,
                                end,
                                line,
                                recs.push((address, b.subrange(4, b.len() - 1))),
                                base,
                            )
                        } else if b[3] == 2 && b[0] == 2 {
                            records_next(s, end, line, recs, (b[4] * 256 + b[5]) * 16)
                        } else {
                            recs
                        }
                    },
                },
            }
        }
    }
}

/// Go on with the records of the line after the one that ends at `end`.
pub open spec fn records_next(
    s: Seq<char>,
    end: int,
    line: int,
    recs: SegmentsView,
    base: int,
) -> SegmentsView
    decreases s.len() - end, 2int,
{
    if end < 0 || end >= s.len() {
        recs
    } else {
        records_from(s, end + 1, line + 1, recs, base)
    }
}

/// The data records of a whole HEX text.
pub open spec fn data_records(s: Seq<char>) -> SegmentsView {
    records_from(s, 0, 1, Seq::empty(), 0)
}

/// Whether any of the first `n` segments holds a byte for address `a`.
pub open spec fn covered(segs: SegmentsView, n: int, a: int) -> bool
    decreases n,
{
    n > 0 && (covers(segs[n - 1], a) || covered(segs, n - 1, a))
}

/// Two lists of segments give the same image and cover the same addresses.
pub open spec fn same_image(x: SegmentsView, y: SegmentsView) -> bool {
    forall|a: int|
        #![trigger image_byte(x, x.len() as int, a)]
        #![trigger image_byte(y, y.len() as int, a)]
        image_byte(x, x.len() as int, a) == image_byte(y, y.len() as int, a) && covered(
            x,
            x.len() as int,
            a,
        ) == covered(y, y.len() as int, a)
}

proof fn lemma_image_prefix(x: SegmentsView, y: SegmentsView, n: int, a: int)
    requires
        0 <= n <= x.len(),
        n <= y.len(),
        x.take(n) == y.take(n),
    ensures
        image_byte(x, n, a) == image_byte(y, n, a),
        covered(x, n, a) == covered(y, n, a),
    decreases n,
{
    if n > 0 {
        assert(x[n - 1] == x.take(n)[n - 1]);
        assert(y[n - 1] == y.take(n)[n - 1]);
        assert(x.take(n - 1) == x.take(n).take(n - 1));
        assert(y.take(n - 1) == y.take(n).take(n - 1));
        lemma_image_prefix(x, y, n - 1, a);
    }
}

/// Adding a record to the segments and to the record list keeps their images equal.
proof fn lemma_add_data_image(segs: SegmentsView, recs: SegmentsView, address: int, data: Seq<u8>)
    requires
        same_image(segs, recs),
    ensures
        same_image(add_data(segs, address, data), recs.push((address, data))),
{
    let segs2 = add_data(segs, address, data);
    let recs2 = recs.push((address, data));
    let n = segs.len() as int;
    let m = recs.len() as int;
    assert forall|a: int| #![auto]
        image_byte(segs2, segs2.len() as int, a) == image_byte(recs2, recs2.len() as int, a) && covered(
            segs2,
            segs2.len() as int,
            a,
        ) == covered(recs2, recs2.len() as int, a) by {
        assert(recs2.take(m) == recs.take(m));
        lemma_image_prefix(recs2, recs, m, a);
        assert(image_byte(recs, m, a) == image_byte(segs, n, a));
        assert(covered(recs, m, a) == covered(segs, n, a));
        if n > 0 && segs.last().0 + segs.last().1.len() == address {
            assert(segs2.take(n - 1) == segs.take(n - 1));
            lemma_image_prefix(segs2, segs, n - 1, a);
        } else {
            assert(segs2.take(n) == segs.take(n));
            lemma_image_prefix(segs2, segs, n, a);
        }
    }
}

proof fn lemma_fold_image(s: Seq<char>, start: int, line: int, segs: SegmentsView, recs: SegmentsView, base: int)
    requires
        same_image(segs, recs),
        parse_from(s, start, line, segs, base) is Ok,
    ensures
        same_image(parse_from(s, start, line, segs, base)->Ok_0, records_from(s, start, line, recs, base)),
    decreases s.len() + 1 - start, 1int,
{
    let end = line_end(s, start);
    if start < 0 || start > s.len() || end < start || end > s.len() {
    } else {
        let lo = trim_lo(s, start, end);
        let hi = trim_hi(s, lo, end);
        let t = s.subrange(lo, hi);
        if t.len() == 0 {
            lemma_next_image(s, end, line, segs, recs, base);
        } else if t[0] != ':' {
        } else {
            match decode_hex(t.drop_first()) {
                None => {},
                Some(b) => match frame_error(b) {
                    Some(k) => {},
                    None => {
                        if b[3] == 0 {
                            let address = base + b[1] * 256 + b[2];
                            let data = b.subrange(4, b.len() - 1);
                            lemma_add_data_image(segs, recs, address, data);
                            lemma_next_image(s, end, line, add_data(segs, address, data), recs.push((address, data)), base);
                        } else if b[3] == 2 && b[0] == 2 {
                            lemma_next_image(s, end, line, segs, recs, (b[4] * 256 + b[5]) * 16);
                        }
                    },
                },
            }
        }
    }
}

proof fn lemma_next_image(s: Seq<char>, end: int, line: int, segs: SegmentsView, recs: SegmentsView, base: int)
    requires
        same_image(segs, recs),
        parse_next(s, end, line, segs, base) is Ok,
    ensures
        same_image(parse_next(s, end, line, segs, base)->Ok_0, records_next(s, end, line, recs, base)),
    decreases s.len() - end, 2int,
{
    if end < 0 || end >= s.len() {
    } else {
        lemma_fold_image(s, end + 1, line + 1, segs, recs, base);
    }
}

/// With pairwise disjoint records, an address that record `r` covers holds
/// that record's byte in the image of the records.
proof fn lemma_disjoint_byte(recs: SegmentsView, n: int, r: int, a: int)
    requires
        0 <= r < n <= recs.len(),
        covers(recs[r], a),
        records_disjoint(recs),
    ensures
        image_byte(recs, n, a) == recs[r].1[a - recs[r].0],
        covered(recs, n, a),
    decreases n,
{
    if n - 1 != r {
        assert(!covers(recs[n - 1], a));
        lemma_disjoint_byte(recs, n - 1, r, a);
    }
}

/// An address covered by one of the first `n` segments lies between their
/// lowest start and highest end.
proof fn lemma_covered_bounds(segs: SegmentsView, n: int, a: int)
    requires
        1 <= n <= segs.len(),
        covered(segs, n, a),
    ensures
        min_address(segs, n) <= a < max_end(segs, n),
    decreases n,
{
    lemma_bounds(segs, n);
    if covers(segs[n - 1], a) {
        assert(min_address(segs, n) <= segs[n - 1].0);
    } else {
        lemma_covered_bounds(segs, n - 1, a);
        lemma_bounds(segs, n - 1);
    }
}

/// No two records share an address.
pub open spec fn records_disjoint(recs: SegmentsView) -> bool {
    forall|i: int, j: int, a: int|
        0 <= i < recs.len() && 0 <= j < recs.len() && i != j && #[trigger] covers(recs[i], a)
            ==> !#[trigger] covers(recs[j], a)
}

/// Byte `j` of data record `r` of `x` lies inside the flattened image of the
/// parsed segments, at its absolute address, and the image holds it there.
pub open spec fn record_byte_kept(x: Seq<char>, r: int, j: int) -> bool {
    let segs = parse_spec(x)->Ok_0;
    let n = segs.len() as int;
    let a = data_records(x)[r].0 + j;
    &&& min_address(segs, n) <= a < max_end(segs, n)
    &&& image_byte(segs, n, a) == data_records(x)[r].1[j]
}

/// Parsing and then flattening keeps every record: each byte of each data
/// record lies inside the image (which spans from the lowest segment start to
/// the highest segment end without gaps) and, when no two records overlap,
/// the image holds the record's byte at its absolute address.
pub proof fn lemma_hex_round_trip(x: Seq<char>)
    requires
        parse_spec(x) is Ok,
        parse_spec(x)->Ok_0.len() > 0,
        records_disjoint(data_records(x)),
    ensures
        forall|r: int, j: int|
            0 <= r < data_records(x).len() && 0 <= j < data_records(x)[r].1.len()
                ==> #[trigger] record_byte_kept(x, r, j),
{
    let segs = parse_spec(x)->Ok_0;
    let recs = data_records(x);
    let n = segs.len() as int;
    let empty = Seq::<(int, Seq<u8>)>::empty();
    assert(same_image(empty, empty));
    lemma_fold_image(x, 0, 1, empty, empty, 0);
    assert forall|r: int, j: int|
        0 <= r < recs.len() && 0 <= j < recs[r].1.len() implies #[trigger] record_byte_kept(x, r, j) by {
        let a = recs[r].0 + j;
        lemma_disjoint_byte(recs, recs.len() as int, r, a);
        assert(image_byte(segs, n, a) == image_byte(recs, recs.len() as int, a));
        assert(covered(segs, n, a));
        lemma_covered_bounds(segs, n, a);
    }
}

/// The text of the line that starts at `start`, without surrounding white space.
pub open spec fn line_text(s: Seq<char>, start: int) -> Seq<char> {
    let end = line_end(s, start);
    let lo = trim_lo(s, start, end);
    s.subrange(lo, trim_hi(s, lo, end))
}

proof fn lemma_line_end_bounds(s: Seq<char>, i: int)
    requires
        0 <= i <= s.len(),
    ensures
        i <= line_end(s, i) <= s.len(),
    decreases s.len() - i,
{
    if i < s.len() && s[i] != '\n' {
        lemma_line_end_bounds(s, i + 1);
    }
}

/// A record whose bytes do not sum to zero modulo 256 makes parsing fail
/// with a checksum error citing its line, whatever the lines before it held.
pub proof fn lemma_bad_checksum_rejected(
    s: Seq<char>,
    start: int,
    line: int,
    segs: SegmentsView,
    base: int,
    digits: Seq<char>,
)
    requires
        0 <= start <= s.len(),
        line_text(s, start) == seq![':'] + digits,
        decode_hex(digits) is Some,
        decode_hex(digits)->0.len() >= 5,
        decode_hex(digits)->0.len() == 5 + decode_hex(digits)->0[0],
        byte_sum(decode_hex(digits)->0) % 256 != 0,
    ensures
        parse_from(s, start, line, segs, base) == Err::<SegmentsView, (int, HexErrorKind)>(
            (line, HexErrorKind::ChecksumMismatch),
        ),
{
    lemma_line_end_bounds(s, start);
    let t = line_text(s, start);
    assert(t[0] == ':');
    assert(t.drop_first() == digits);
}

/// Why a HEX text did not give a flash image.
#[derive(Debug, Clone, Copy, PartialEq, Eq, Structural)]
pub enum LoadError {
    /// The text is not valid Intel HEX.
    Hex(HexError),
    /// The records do not make an image.
    Image(ImageError),
}

/// Parse a HEX text and flatten its segments into `(base address, image)`.
pub fn load_hex_image(input: &str) -> (r: Result<(u32, Vec<u8>), LoadError>)
    ensures
        parse_spec(input@) is Err <==> r matches Err(LoadError::Hex(_)),
        r matches Err(LoadError::Hex(e)) ==> parse_spec(input@) == Err::<SegmentsView, (int, HexErrorKind)>(
            (e.line as int, e.kind),
        ),
        r matches Err(LoadError::Image(k)) ==> k == ImageError::NoSegments && parse_spec(input@)
            == Ok::<SegmentsView, (int, HexErrorKind)>(Seq::empty()),
        r matches Ok((base, image)) ==> {
            let segs = parse_spec(input@)->Ok_0;
            &&& parse_spec(input@) is Ok
            &&& segs.len() > 0
            &&& base == min_address(segs, segs.len() as int)
            &&& image@.len() == max_end(segs, segs.len() as int) - base
            &&& forall|k: int| 0 <= k < image@.len() ==> #[trigger] image@[k] == image_byte(
                segs,
                segs.len() as int,
                base + k,
            )
        },
{
    match parse_hex(input) {
        Err(e) => Err(LoadError::Hex(e)),
        Ok(segments) => {
            proof {
                if segments@.len() == 0 {
                    assert(segments_view(segments@) == Seq::<(int, Seq<u8>)>::empty());
                }
            }
            match flatten_segments(segments.as_slice()) {
                Err(k) => Err(LoadError::Image(k)),
                Ok(image) => Ok(image),
            }
        },
    }
}

} // verus!
