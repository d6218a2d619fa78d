//! Gzip codec: builds and parses the RFC 1952 container around a DEFLATE
//! body. The DEFLATE transform itself and the CRC-32 checksum are computed
//! by flate2 behind trusted wrappers; everything the container format says
//! about a byte stream (magic bytes, header layout, trailer checks) is
//! stated and verified here.
use vstd::prelude::*;

verus! {

/// Error taxonomy of the codec.
#[derive(Clone, Copy, PartialEq, Eq, Structural, Debug)]
pub enum CodecError {
    /// The input is not a valid gzip stream: bad magic bytes, corrupt
    /// header, or a truncated or corrupt compressed body or trailer.
    InvalidFormat,
    /// An internal stream fault while decoding that is not a format fault.
    DecodeFailed,
    /// An internal stream fault while encoding.
    EncodeFailed,
}

/// The DEFLATE encoding of a byte sequence at the default compression
/// level, as flate2 produces it. A fixed function of the input bytes.
pub uninterp spec fn deflate_of(s: Seq<u8>) -> Seq<u8>;

/// What flate2's DEFLATE decoder yields on a byte sequence: the decoded
/// bytes, or nothing when the sequence does not begin with a well-formed
/// DEFLATE stream. A fixed function of the input bytes.
pub uninterp spec fn inflate_of(s: Seq<u8>) -> Option<Seq<u8>>;

/// The CRC-32 checksum of a byte sequence, as the gzip trailer stores it.
pub uninterp spec fn crc32_of(s: Seq<u8>) -> u32;

/// Relies on flate2::write::DeflateEncoder at the default level: the
/// encoded stream is a function of the input bytes alone, and decoding it
/// with flate2's DEFLATE decoder gives the input back.
#[verifier::external_body]
fn deflate_bytes(data: &[u8]) -> (r: Option<Vec<u8>>)
    ensures
        r matches Some(v) ==> v@ == deflate_of(data@),
        r matches Some(v) ==> inflate_of(v@) == Some(data@),
{
    let mut enc = flate2::write::DeflateEncoder::new(Vec::new(), flate2::Compression::default());
    if std::io::Write::write_all(&mut enc, data).is_err() {
        return None;
    }
    enc.finish().ok()
}

/// Relies on flate2::read::DeflateDecoder: it yields the decoded bytes
/// exactly when the input begins with a well-formed DEFLATE stream, and
/// its outcome is a function of the input bytes alone.
#[verifier::external_body]
fn inflate_bytes(data: &[u8]) -> (r: Option<Vec<u8>>)
    ensures
        r matches Some(v) ==> inflate_of(data@) == Some(v@),
        r is None ==> inflate_of(data@) is None,
{
    let mut dec = flate2::read::DeflateDecoder::new(data);
    let mut out = Vec::new();
    match std::io::Read::read_to_end(&mut dec, &mut out) {
        Ok(_) => Some(out),
        Err(_) => None,
    }
}

/// Relies on flate2::Crc: the CRC-32 of the bytes fed to update.
#[verifier::external_body]
fn crc32_bytes(data: &[u8]) -> (r: u32)
    ensures
        r == crc32_of(data@),
{
    let mut crc = flate2::Crc::new();
    crc.update(data);
    crc.sum()
}

/// The four bytes of a 32-bit value in little-endian order.
pub open spec fn le32_bytes(x: u32) -> Seq<u8> {
    seq![
        (x % 0x100) as u8,
        ((x / 0x100) % 0x100) as u8,
        ((x / 0x1_0000) % 0x100) as u8,
        ((x / 0x100_0000) % 0x100) as u8,
    ]
}

/// The value of the four little-endian bytes of `s` starting at `i`.
pub open spec fn le32_at(s: Seq<u8>, i: int) -> int
    recommends
        0 <= i,
        i + 4 <= s.len(),
{
    s[i] + 0x100 * s[i + 1] + 0x1_0000 * s[i + 2] + 0x100_0000 * s[i + 3]
}

/// The value of the two little-endian bytes of `s` starting at `i`.
pub open spec fn le16_at(s: Seq<u8>, i: int) -> int
    recommends
        0 <= i,
        i + 2 <= s.len(),
{
    s[i] + 0x100 * s[i + 1]
}

/// The ten header bytes this codec emits: magic bytes, DEFLATE method,
/// no flags, zero timestamp, no extra flags, unknown operating system.
pub open spec fn gzip_header() -> Seq<u8> {
    seq![0x1fu8, 0x8bu8, 0x08u8, 0u8, 0u8, 0u8, 0u8, 0u8, 0u8, 0xffu8]
}

/// The length of the input modulo 2^32, as the gzip trailer stores it.
pub open spec fn len_field(b: Seq<u8>) -> u32 {
    (b.len() % 0x1_0000_0000) as u32
}

/// The whole gzip stream for input `b`: header, DEFLATE body, then the
/// CRC-32 of `b` and the length of `b` modulo 2^32, little-endian.
pub open spec fn gzip_frame(b: Seq<u8>) -> Seq<u8> {
    gzip_header() + deflate_of(b) + le32_bytes(crc32_of(b)) + le32_bytes(len_field(b))
}

/// The position just past the first zero byte of `s` at or after `i`,
/// where a zero-terminated header field ends.
pub open spec fn skip_zstr(s: Seq<u8>, i: int) -> Option<int>
    decreases s.len() - i,
{
    if i < 0 || i >= s.len() {
        None
    } else if s[i] == 0 {
        Some(i + 1)
    } else {
        skip_zstr(s, i + 1)
    }
}

/// The position after the optional extra field, which starts at offset 10
/// with its own two-byte little-endian length.
pub open spec fn after_extra(s: Seq<u8>, present: bool) -> Option<int> {
    if !present {
        Some(10int)
    } else if s.len() < 12 {
        None
    } else if 12 + le16_at(s, 10) <= s.len() {
        Some(12 + le16_at(s, 10))
    } else {
        None
    }
}

/// The position after an optional zero-terminated field (file name or
/// comment) that starts where the previous field ended.
pub open spec fn after_zstr(s: Seq<u8>, from: Option<int>, present: bool) -> Option<int> {
    match from {
        None => None,
        Some(i) => if present {
            skip_zstr(s, i)
        } else {
            Some(i)
        },
    }
}

/// The position after the optional two-byte header checksum field.
pub open spec fn after_hcrc(s: Seq<u8>, from: Option<int>, present: bool) -> Option<int> {
    match from {
        None => None,
        Some(i) => if present {
            if i + 2 <= s.len() {
                Some(i + 2)
            } else {
                None
            }
        } else {
            Some(i)
        },
    }
}

/// The length of a well-formed gzip header at the start of `s`: the magic
/// bytes and DEFLATE method, no reserved flag bits, and every optional
/// field announced by the flag byte present in full. `None` when the
/// header is malformed or truncated.
pub open spec fn header_len(s: Seq<u8>) -> Option<int> {
    if s.len() < 10 {
        None
    } else if s[0] != 0x1f || s[1] != 0x8b || s[2] != 0x08 {
        None
    } else if s[3] & 0xe0 != 0 {
        None
    } else {
        let a = after_extra(s, s[3] & 0x04 != 0);
        let b = after_zstr(s, a, s[3] & 0x08 != 0);
        let c = after_zstr(s, b, s[3] & 0x10 != 0);
        after_hcrc(s, c, s[3] & 0x02 != 0)
    }
}

/// What decoding a gzip stream yields: the decoded bytes when the header
/// parses, the DEFLATE body between header and trailer decodes, and both
/// trailer fields (CRC-32 and length modulo 2^32) match the decoded
/// bytes; `None` otherwise.
pub open spec fn gunzip(s: Seq<u8>) -> Option<Seq<u8>> {
    match header_len(s) {
        None => None,
        Some(h) => if h + 8 > s.len() {
            None
        } else {
            match inflate_of(s.subrange(h, s.len() - 8)) {
                None => None,
                Some(p) => if le32_at(s, s.len() - 8) == crc32_of(p)
                    && le32_at(s, s.len() - 4) == p.len() % 0x1_0000_0000 {
                    Some(p)
                } else {
                    None
                },
            }
        },
    }
}

/// Little-endian round trip: reading back the four bytes of `x` gives `x`.
pub proof fn lemma_le32_at_bytes(x: u32)
    ensures
        le32_at(le32_bytes(x), 0) == x,
{
    let xi = x as int;
    vstd::arithmetic::div_mod::lemma_fundamental_div_mod(xi, 0x100);
    vstd::arithmetic::div_mod::lemma_fundamental_div_mod(xi / 0x100, 0x100);
    vstd::arithmetic::div_mod::lemma_fundamental_div_mod(xi / 0x1_0000, 0x100);
    vstd::arithmetic::div_mod::lemma_div_denominator(xi, 0x100, 0x100);
    vstd::arithmetic::div_mod::lemma_div_denominator(xi, 0x1_0000, 0x100);
    vstd::arithmetic::div_mod::lemma_fundamental_div_mod(xi, 0x100_0000);
    vstd::arithmetic::div_mod::lemma_mod_bound(xi, 0x100_0000);
    assert(0 <= xi / 0x100_0000 < 0x100);
    vstd::arithmetic::div_mod::lemma_small_mod((xi / 0x100_0000) as nat, 0x100);
    vstd::arithmetic::div_mod::lemma_mod_bound(xi, 0x100);
    vstd::arithmetic::div_mod::lemma_mod_bound(xi / 0x100, 0x100);
    vstd::arithmetic::div_mod::lemma_mod_bound(xi / 0x1_0000, 0x100);
}

/// Appends the four little-endian bytes of `x`.
fn push_le32(out: &mut Vec<u8>, x: u32)
    ensures
        final(out)@ == old(out)@ + le32_bytes(x),
{
    out.push((x % 0x100) as u8);
    out.push(((x / 0x100) % 0x100) as u8);
    out.push(((x / 0x1_0000) % 0x100) as u8);
    out.push(((x / 0x100_0000) % 0x100) as u8);
    proof {
        assert(out@ =~= old(out)@ + le32_bytes(x));
    }
}

/// Reads the four little-endian bytes of `data` starting at `i`.
fn read_le32(data: &[u8], i: usize) -> (r: u32)
    requires
        i + 4 <= data@.len(),
    ensures
        r as int == le32_at(data@, i as int),
{
    let b0 = data[i] as u32;
    let b1 = data[i + 1] as u32;
    let b2 = data[i + 2] as u32;
    let b3 = data[i + 3] as u32;
    b0 + 0x100 * b1 + 0x1_0000 * b2 + 0x100_0000 * b3
}

/// Wraps a DEFLATE body in the gzip container: the fixed ten-byte header,
/// the body, then the checksum and length trailer fields.
pub fn build_gzip(body: Vec<u8>, crc: u32, len32: u32) -> (r: Vec<u8>)
    ensures
        r@ == gzip_header() + body@ + le32_bytes(crc) + le32_bytes(len32),
{
    let mut out: Vec<u8> = Vec::new();
    out.push(0x1f);
    out.push(0x8b);
    out.push(0x08);
    out.push(0x00);
    out.push(0x00);
    out.push(0x00);
    out.push(0x00);
    out.push(0x00);
    out.push(0x00);
    out.push(0xff);
    proof {
        assert(out@ =~= gzip_header());
    }
    let mut body = body;
    out.append(&mut body);
    push_le32(&mut out, crc);
    push_le32(&mut out, len32);
    out
}

/// Finds the end of a zero-terminated header field.
fn scan_zero(data: &[u8], start: usize) -> (r: Option<usize>)
    requires
        start <= data@.len(),
    ensures
        r matches Some(p) ==> skip_zstr(data@, start as int) == Some(p as int) && start < p <= data@.len(),
        r is None ==> skip_zstr(data@, start as int) is None,
{
    let n = data.len();
    let mut j = start;
    while j < n
        invariant
            start <= j <= n,
            n == data@.len(),
            skip_zstr(data@, start as int) == skip_zstr(data@, j as int),
        decreases n - j,
    {
        if data[j] == 0 {
            return Some(j + 1);
        }
        j = j + 1;
    }
    None
}

/// Parses the gzip header at the start of `data` and returns its length,
/// or `None` when the header is malformed or truncated.
pub fn parse_header(data: &[u8]) -> (r: Option<usize>)
    ensures
        r matches Some(h) ==> header_len(data@) == Some(h as int) && 10 <= h <= data@.len(),
        r is None ==> header_len(data@) is None,
{
    let n = data.len();
    if n < 10 {
        return None;
    }
    if !(data[0] == 0x1f && data[1] == 0x8b && data[2] == 0x08) {
        return None;
    }
    let flg = data[3];
    if flg & 0xe0 != 0 {
        return None;
    }
    let mut pos: usize = 10;
    if flg & 0x04 != 0 {
        if n - pos < 2 {
            return None;
        }
        let xlen: usize = data[10] as usize + 0x100 * (data[11] as usize);
        pos = pos + 2;
        if n - pos < xlen {
            return None;
        }
        pos = pos + xlen;
    }
    proof {
        assert(after_extra(data@, data@[3] & 0x04 != 0) == Some(pos as int));
    }
    if flg & 0x08 != 0 {
        match scan_zero(data, pos) {
            None => {
                return None;
            },
            Some(p) => {
                pos = p;
            },
        }
    }
    if flg & 0x10 != 0 {
        match scan_zero(data, pos) {
            None => {
                return None;
            },
            Some(p) => {
                pos = p;
            },
        }
    }
    if flg & 0x02 != 0 {
        if n - pos < 2 {
            return None;
        }
        pos = pos + 2;
    }
    Some(pos)
}

/// A stream that carries the fixed ten-byte header parses to offset 10.
proof fn lemma_header_of_plain(t: Seq<u8>)
    requires
        t.len() >= 18,
        forall|k: int| 0 <= k < 10 ==> t[k] == gzip_header()[k],
    ensures
        header_len(t) == Some(10int),
{
    assert(t[3] == 0);
    assert(0u8 & 0xe0 == 0) by (bit_vector);
    assert(0u8 & 0x04 == 0) by (bit_vector);
    assert(0u8 & 0x08 == 0) by (bit_vector);
    assert(0u8 & 0x10 == 0) by (bit_vector);
    assert(0u8 & 0x02 == 0) by (bit_vector);
}

/// Format validity: every frame this codec builds is at least 18 bytes
/// long and begins with the gzip magic bytes and the DEFLATE method byte.
pub proof fn lemma_format_validity(b: Seq<u8>)
    ensures
        gzip_frame(b).len() >= 18,
        gzip_frame(b)[0] == 0x1f,
        gzip_frame(b)[1] == 0x8b,
        gzip_frame(b)[2] == 0x08,
{
}

/// Round trip: decoding the frame built for `b` gives `b` back. The
/// hypothesis is the codec boundary fact that the DEFLATE decoder inverts
/// the encoder, which every call of the encoder wrapper establishes for
/// its input.
pub proof fn lemma_round_trip(b: Seq<u8>)
    requires
        inflate_of(deflate_of(b)) == Some(b),
    ensures
        gunzip(gzip_frame(b)) == Some(b),
{
    let s = gzip_frame(b);
    let d = deflate_of(b);
    let c4 = le32_bytes(crc32_of(b));
    let l4 = le32_bytes(len_field(b));
    assert(s.len() == 18 + d.len());
    lemma_header_of_plain(s);
    assert(s.subrange(10, s.len() - 8) =~= d);
    assert(s.subrange(s.len() - 8, s.len() - 4) =~= c4);
    assert(s.subrange(s.len() - 4, s.len() as int) =~= l4);
    lemma_le32_at_bytes(crc32_of(b));
    lemma_le32_at_bytes(len_field(b));
    assert(le32_at(s, s.len() - 8) == le32_at(c4, 0));
    assert(le32_at(s, s.len() - 4) == le32_at(l4, 0));
    assert(len_field(b) == b.len() % 0x1_0000_0000);
}

/// Changing exactly one of the four bytes read at `base` changes the
/// value they encode.
proof fn lemma_le32_at_byte_change(s: Seq<u8>, t: Seq<u8>, base: int, i: int)
    requires
        0 <= base,
        base + 4 <= s.len(),
        t.len() == s.len(),
        base <= i < base + 4,
        forall|k: int| base <= k < base + 4 && k != i ==> t[k] == s[k],
        t[i] != s[i],
    ensures
        le32_at(t, base) != le32_at(s, base),
{
    if i == base {
        assert(le32_at(t, base) - le32_at(s, base) == t[i] - s[i]);
    } else if i == base + 1 {
        assert(le32_at(t, base) - le32_at(s, base) == 0x100 * t[i] - 0x100 * s[i]);
    } else if i == base + 2 {
        assert(le32_at(t, base) - le32_at(s, base) == 0x1_0000 * t[i] - 0x1_0000 * s[i]);
    } else {
        assert(le32_at(t, base) - le32_at(s, base) == 0x100_0000 * t[i] - 0x100_0000 * s[i]);
    }
}

/// Corruption detection: flipping any byte of the trailer checksum of a
/// frame this codec built makes decoding fail rather than yield data.
/// The hypothesis is the same codec boundary fact as in the round-trip
/// law.
pub proof fn lemma_trailer_corruption(b: Seq<u8>, i: int, v: u8)
    requires
        inflate_of(deflate_of(b)) == Some(b),
        gzip_frame(b).len() - 8 <= i < gzip_frame(b).len() - 4,
        v != gzip_frame(b)[i],
    ensures
        gunzip(gzip_frame(b).update(i, v)) is None,
{
    let s = gzip_frame(b);
    let t = s.update(i, v);
    let d = deflate_of(b);
    let c4 = le32_bytes(crc32_of(b));
    assert(s.len() == 18 + d.len());
    assert(forall|k: int| 0 <= k < s.len() && k != i ==> t[k] == s[k]);
    lemma_header_of_plain(t);
    assert(t.subrange(10, t.len() - 8) =~= d);
    assert(s.subrange(s.len() - 8, s.len() - 4) =~= c4);
    lemma_le32_at_bytes(crc32_of(b));
    assert(le32_at(s, s.len() - 8) == le32_at(c4, 0));
    lemma_le32_at_byte_change(s, t, s.len() - 8, i);
    assert(le32_at(t, t.len() - 8) != crc32_of(b));
}

/// Truncation detection: a stream shorter than the ten-byte header never
/// decodes.
pub proof fn lemma_truncation_detected(s: Seq<u8>)
    requires
        s.len() < 10,
    ensures
        gunzip(s) is None,
{
}

/// Compresses `data` into a gzip stream: the DEFLATE encoding of `data`
/// framed by the fixed header and the checksum-and-length trailer. The
/// only failure is an internal encoder fault.
pub fn compress(data: &[u8]) -> (r: Result<Vec<u8>, CodecError>)
    ensures
        r matches Ok(v) ==> v@ == gzip_frame(data@),
        r matches Ok(v) ==> gunzip(v@) == Some(data@),
        r matches Ok(v) ==> v@.len() >= 18 && v@[0] == 0x1f && v@[1] == 0x8b && v@[2] == 0x08,
        r matches Err(e) ==> e == CodecError::EncodeFailed,
{
    let body = match deflate_bytes(data) {
        None => {
            return Err(CodecError::EncodeFailed);
        },
        Some(b) => b,
    };
    let crc = crc32_bytes(data);
    let len32 = ((data.len() as u64) % 0x1_0000_0000) as u32;
    let out = build_gzip(body, crc, len32);
    proof {
        lemma_round_trip(data@);
        lemma_format_validity(data@);
    }
    Ok(out)
}

/// Decompresses a gzip stream, validating the container: the header must
/// parse, the DEFLATE body must decode, and both trailer fields must
/// match the decoded bytes. Yields exactly what `gunzip` says, and fails
/// with `InvalidFormat` exactly when `gunzip` yields nothing.
pub fn decompress(data: &[u8]) -> (r: Result<Vec<u8>, CodecError>)
    ensures
        r matches Ok(v) ==> gunzip(data@) == Some(v@),
        r is Ok <==> gunzip(data@) is Some,
        r matches Err(e) ==> e == CodecError::InvalidFormat,
{
    let n = data.len();
    let h = match parse_header(data) {
        None => {
            return Err(CodecError::InvalidFormat);
        },
        Some(h) => h,
    };
    if n - h < 8 {
        return Err(CodecError::InvalidFormat);
    }
    let body = vstd::slice::slice_subrange(data, h, n - 8);
    let out = match inflate_bytes(body) {
        None => {
            return Err(CodecError::InvalidFormat);
        },
        Some(o) => o,
    };
    let crc = crc32_bytes(out.as_slice());
    let stored_crc = read_le32(data, n - 8);
    let stored_len = read_le32(data, n - 4);
    let len32 = ((out.len() as u64) % 0x1_0000_0000) as u32;
    if crc == stored_crc && len32 == stored_len {
        Ok(out)
    } else {
        Err(CodecError::InvalidFormat)
    }
}

} // verus!
