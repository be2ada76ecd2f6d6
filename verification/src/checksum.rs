//! The integrity checksum of a decoded stream: the CRC-32 of the samples in
//! the byte encoding of their bit depth, as eight uppercase hex digits.

use vstd::prelude::*;
use vstd::string::*;
use crate::model::AudioInfo;

verus! {

/// The CRC-32 (IEEE 802.3) checksum of a byte sequence, as `crc32fast`
/// computes it.
pub uninterp spec fn crc32_of(bytes: Seq<u8>) -> u32;

/// Calls `crc32fast::hash`. The checksum is a function of the bytes alone;
/// nothing else is claimed of it.
#[verifier::external_body]
fn crc32_checksum(bytes: &[u8]) -> (crc: u32)
    ensures
        crc == crc32_of(bytes@),
{
    crc32fast::hash(bytes)
}

/// The character of a hexadecimal digit, in lower case.
pub open spec fn hex_lower_char(d: nat) -> char {
    if d == 0 {
        '0'
    } else if d == 1 {
        '1'
    } else if d == 2 {
        '2'
    } else if d == 3 {
        '3'
    } else if d == 4 {
        '4'
    } else if d == 5 {
        '5'
    } else if d == 6 {
        '6'
    } else if d == 7 {
        '7'
    } else if d == 8 {
        '8'
    } else if d == 9 {
        '9'
    } else if d == 10 {
        'a'
    } else if d == 11 {
        'b'
    } else if d == 12 {
        'c'
    } else if d == 13 {
        'd'
    } else if d == 14 {
        'e'
    } else {
        'f'
    }
}

/// Bytes as lowercase hexadecimal text: two digits for each byte, the high
/// one first.
pub open spec fn hex_lower(bytes: Seq<u8>) -> Seq<char> {
    Seq::new(
        2 * bytes.len(),
        |i: int|
            if i % 2 == 0 {
                hex_lower_char((bytes[i / 2] / 16) as nat)
            } else {
                hex_lower_char((bytes[i / 2] % 16) as nat)
            },
    )
}

/// Calls `hex::encode`, which writes each byte as two lowercase hexadecimal
/// digits, the high one first, and nothing else.
#[verifier::external_body]
fn hex_encode(bytes: &[u8]) -> (text: String)
    ensures
        text@ == hex_lower(bytes@),
{
    hex::encode(bytes)
}

/// Byte `k` (0, 1 or 2) of the two's-complement little-endian form of `v`.
pub open spec fn le_byte(v: int, k: int) -> u8 {
    if k == 0 {
        (v % 256) as u8
    } else if k == 1 {
        ((v / 256) % 256) as u8
    } else {
        ((v / 65536) % 256) as u8
    }
}

/// The low 24 bits of `v`, read as a signed 24-bit number.
pub open spec fn sign_extend_24(v: int) -> int {
    (v + 0x80_0000) % 0x100_0000 - 0x80_0000
}

/// The 16-bit encoding: two bytes for each sample, low byte first, in
/// sample order.
pub open spec fn pcm16_bytes(samples: Seq<i16>) -> Seq<u8> {
    Seq::new(2 * samples.len(), |i: int| le_byte(samples[i / 2] as int, i % 2))
}

/// The 24-bit encoding: each sample is reduced to its signed 24-bit value and
/// gives three bytes, low, middle, high, in sample order. The fourth byte of
/// the container is never written.
pub open spec fn pcm24_bytes(samples: Seq<i32>) -> Seq<u8> {
    Seq::new(
        3 * samples.len(),
        |i: int| le_byte(sign_extend_24(samples[i / 3] as int), i % 3),
    )
}

/// The character of a hexadecimal digit, in upper case.
pub open spec fn hex_upper_char(d: nat) -> char {
    if d == 0 {
        '0'
    } else if d == 1 {
        '1'
    } else if d == 2 {
        '2'
    } else if d == 3 {
        '3'
    } else if d == 4 {
        '4'
    } else if d == 5 {
        '5'
    } else if d == 6 {
        '6'
    } else if d == 7 {
        '7'
    } else if d == 8 {
        '8'
    } else if d == 9 {
        '9'
    } else if d == 10 {
        'A'
    } else if d == 11 {
        'B'
    } else if d == 12 {
        'C'
    } else if d == 13 {
        'D'
    } else if d == 14 {
        'E'
    } else {
        'F'
    }
}

/// The last `width` hexadecimal digits of `n`, most significant first, in
/// upper case and with leading zeros.
pub open spec fn hex_upper_digits(n: nat, width: nat) -> Seq<char>
    decreases width,
{
    if width == 0 {
        Seq::<char>::empty()
    } else {
        hex_upper_digits(n / 16, (width - 1) as nat).push(hex_upper_char(n % 16))
    }
}

/// A checksum as text: eight uppercase hexadecimal digits.
pub open spec fn crc32_text(crc: u32) -> Seq<char> {
    hex_upper_digits(crc as nat, 8)
}

fn hex_upper_str(d: u8) -> (s: &'static str)
    requires
        d < 16,
    ensures
        s@ == seq![hex_upper_char(d as nat)],
{
    proof {
        reveal_strlit("0");
        reveal_strlit("1");
        reveal_strlit("2");
        reveal_strlit("3");
        reveal_strlit("4");
        reveal_strlit("5");
        reveal_strlit("6");
        reveal_strlit("7");
        reveal_strlit("8");
        reveal_strlit("9");
        reveal_strlit("A");
        reveal_strlit("B");
        reveal_strlit("C");
        reveal_strlit("D");
        reveal_strlit("E");
        reveal_strlit("F");
    }
    let s: &'static str = if d == 0 {
        "0"
    } else if d == 1 {
        "1"
    } else if d == 2 {
        "2"
    } else if d == 3 {
        "3"
    } else if d == 4 {
        "4"
    } else if d == 5 {
        "5"
    } else if d == 6 {
        "6"
    } else if d == 7 {
        "7"
    } else if d == 8 {
        "8"
    } else if d == 9 {
        "9"
    } else if d == 10 {
        "A"
    } else if d == 11 {
        "B"
    } else if d == 12 {
        "C"
    } else if d == 13 {
        "D"
    } else if d == 14 {
        "E"
    } else {
        "F"
    };
    assert(s@ =~= seq![hex_upper_char(d as nat)]);
    s
}

fn push_hex_upper(out: &mut String, n: u32, width: u8)
    ensures
        final(out)@ == old(out)@ + hex_upper_digits(n as nat, width as nat),
    decreases width,
{
    if width > 0 {
        push_hex_upper(out, n / 16, width - 1);
        let d: u8 = (n % 16) as u8;
        out.append(hex_upper_str(d));
    }
    assert(out@ =~= old(out)@ + hex_upper_digits(n as nat, width as nat));
}

/// Renders a checksum as eight uppercase hexadecimal digits.
pub fn format_crc32(crc: u32) -> (text: String)
    ensures
        text@ == crc32_text(crc),
{
    let mut text = String::new();
    push_hex_upper(&mut text, crc, 8);
    text
}

/// The bytes of one 16-bit sample.
pub open spec fn sample16_bytes(s: i16) -> Seq<u8> {
    seq![le_byte(s as int, 0), le_byte(s as int, 1)]
}

/// The bytes of one 24-bit sample in its container.
pub open spec fn sample24_bytes(s: i32) -> Seq<u8> {
    seq![
        le_byte(sign_extend_24(s as int), 0),
        le_byte(sign_extend_24(s as int), 1),
        le_byte(sign_extend_24(s as int), 2),
    ]
}

/// The 16-bit encoding of a stream with one more sample is the encoding of
/// the stream followed by the two bytes of that sample.
pub proof fn lemma_pcm16_push(samples: Seq<i16>, s: i16)
    ensures
        pcm16_bytes(samples.push(s)) == pcm16_bytes(samples) + sample16_bytes(s),
{
    let left = pcm16_bytes(samples.push(s));
    let right = pcm16_bytes(samples) + sample16_bytes(s);
    assert(left.len() == right.len());
    assert forall|i: int| 0 <= i < left.len() implies left[i] == right[i] by {
        let n = samples.len() as int;
        if i < 2 * n {
            assert(i / 2 < n);
            assert(samples.push(s)[i / 2] == samples[i / 2]);
        } else {
            assert(i / 2 == n);
            assert(i - 2 * n == i % 2);
        }
    }
    assert(left =~= right);
}

/// The 24-bit encoding of a stream with one more sample is the encoding of
/// the stream followed by the three bytes of that sample.
pub proof fn lemma_pcm24_push(samples: Seq<i32>, s: i32)
    ensures
        pcm24_bytes(samples.push(s)) == pcm24_bytes(samples) + sample24_bytes(s),
{
    let left = pcm24_bytes(samples.push(s));
    let right = pcm24_bytes(samples) + sample24_bytes(s);
    assert(left.len() == right.len());
    assert forall|i: int| 0 <= i < left.len() implies left[i] == right[i] by {
        let n = samples.len() as int;
        if i < 3 * n {
            assert(i / 3 < n);
            assert(samples.push(s)[i / 3] == samples[i / 3]);
        } else {
            assert(i / 3 == n);
            assert(i - 3 * n == i % 3);
        }
    }
    assert(left =~= right);
}

/// The bytes of a 24-bit sample are the three low bytes of its container.
pub proof fn lemma_sample24_low_bytes(s: i32)
    ensures
        sample24_bytes(s) == seq![le_byte(s as int, 0), le_byte(s as int, 1), le_byte(s as int, 2)],
{
    let v = s as int;
    let e = sign_extend_24(v);
    let q = (v + 0x80_0000) / 0x100_0000;
    assert(e == v - q * 0x100_0000);
    assert(e % 256 == v % 256);
    assert(e / 256 == v / 256 - q * 65536);
    assert((e / 256) % 256 == (v / 256) % 256);
    assert(e / 65536 == v / 65536 - q * 256);
    assert((e / 65536) % 256 == (v / 65536) % 256);
}

proof fn lemma_pcm16_step(samples: Seq<i16>, i: int, shifted: int)
    requires
        0 <= i < samples.len(),
        shifted == samples[i] + 65536,
    ensures
        pcm16_bytes(samples.take(i + 1)) == pcm16_bytes(samples.take(i)).push(
            (shifted % 256) as u8,
        ).push(((shifted / 256) % 256) as u8),
{
    lemma_pcm16_push(samples.take(i), samples[i]);
    assert(samples.take(i).push(samples[i]) =~= samples.take(i + 1));
    let v = samples[i] as int;
    assert((shifted % 256) as u8 == le_byte(v, 0));
    assert(((shifted / 256) % 256) as u8 == le_byte(v, 1));
    assert(pcm16_bytes(samples.take(i)) + sample16_bytes(samples[i]) =~= pcm16_bytes(
        samples.take(i),
    ).push((shifted % 256) as u8).push(((shifted / 256) % 256) as u8));
}

proof fn lemma_shift_keeps_low_bytes(v: int, shifted: int)
    requires
        shifted == v + 0x1_0000_0000,
    ensures
        shifted % 256 == v % 256,
        (shifted / 256) % 256 == (v / 256) % 256,
        (shifted / 65536) % 256 == (v / 65536) % 256,
{
    assert(shifted / 256 == v / 256 + 0x100_0000);
    assert(shifted / 65536 == v / 65536 + 0x1_0000);
}

proof fn lemma_shifted24_bytes(s: i32, shifted: int)
    requires
        shifted == s + 0x1_0000_0000,
    ensures
        sample24_bytes(s) == seq![
            (shifted % 256) as u8,
            ((shifted / 256) % 256) as u8,
            ((shifted / 65536) % 256) as u8,
        ],
{
    lemma_sample24_low_bytes(s);
    lemma_shift_keeps_low_bytes(s as int, shifted);
}

proof fn lemma_pcm24_step(samples: Seq<i32>, i: int, shifted: int)
    requires
        0 <= i < samples.len(),
        shifted == samples[i] + 0x1_0000_0000,
    ensures
        pcm24_bytes(samples.take(i + 1)) == pcm24_bytes(samples.take(i)).push(
            (shifted % 256) as u8,
        ).push(((shifted / 256) % 256) as u8).push(((shifted / 65536) % 256) as u8),
{
    lemma_pcm24_push(samples.take(i), samples[i]);
    lemma_shifted24_bytes(samples[i], shifted);
    assert(samples.take(i).push(samples[i]) =~= samples.take(i + 1));
    let before = pcm24_bytes(samples.take(i));
    let low = (shifted % 256) as u8;
    let middle = ((shifted / 256) % 256) as u8;
    let high = ((shifted / 65536) % 256) as u8;
    assert(before + seq![low, middle, high] =~= before.push(low).push(middle).push(high));
}

/// The encoding of a single 16-bit sample is its low byte, then its high
/// byte.
pub proof fn lemma_pcm16_single(s: i16)
    ensures
        pcm16_bytes(seq![s]) == seq![le_byte(s as int, 0), le_byte(s as int, 1)],
{
    assert(pcm16_bytes(seq![s]) =~= seq![le_byte(s as int, 0), le_byte(s as int, 1)]);
}

/// Bits of a container outside its low 24 do not reach the checksum: two
/// streams whose samples agree in their signed 24-bit values have the same
/// encoding and the same checksum.
pub proof fn lemma_pcm24_ignores_container_bits(a: Seq<i32>, b: Seq<i32>)
    requires
        a.len() == b.len(),
        forall|i: int|
            0 <= i < a.len() ==> sign_extend_24(a[i] as int) == sign_extend_24(b[i] as int),
    ensures
        pcm24_bytes(a) == pcm24_bytes(b),
        crc32_text(crc32_of(pcm24_bytes(a))) == crc32_text(crc32_of(pcm24_bytes(b))),
{
    assert forall|i: int| 0 <= i < 3 * a.len() implies pcm24_bytes(a)[i] == pcm24_bytes(b)[i] by {
        assert(0 <= i / 3 < a.len());
    }
    assert(pcm24_bytes(a) =~= pcm24_bytes(b));
}

/// Reducing a sample to its signed 24-bit value a second time changes
/// nothing, and the value lies in the 24-bit range.
pub proof fn lemma_sign_extend_24_range(v: int)
    ensures
        -0x80_0000 <= sign_extend_24(v) < 0x80_0000,
        sign_extend_24(sign_extend_24(v)) == sign_extend_24(v),
        -0x80_0000 <= v < 0x80_0000 ==> sign_extend_24(v) == v,
{
}

/// Encodes 16-bit samples as bytes, two for each sample, low byte first.
pub fn pcm16_le_bytes(samples: &Vec<i16>) -> (bytes: Vec<u8>)
    ensures
        bytes@ == pcm16_bytes(samples@),
{
    let mut bytes: Vec<u8> = Vec::new();
    let mut i: usize = 0;
    assert(bytes@ =~= pcm16_bytes(samples@.take(0)));
    while i < samples.len()
        invariant
            i <= samples.len(),
            bytes@ == pcm16_bytes(samples@.take(i as int)),
        decreases samples.len() - i,
    {
        let shifted: u32 = (samples[i] as i32 + 65536) as u32;
        let low: u8 = (shifted % 256) as u8;
        let high: u8 = ((shifted / 256) % 256) as u8;
        bytes.push(low);
        bytes.push(high);
        proof {
            lemma_pcm16_step(samples@, i as int, shifted as int);
        }
        i = i + 1;
    }
    assert(samples@.take(i as int) =~= samples@);
    bytes
}

/// Encodes samples held in 32-bit containers as 24-bit values, three bytes
/// for each sample, low byte first. Bits of the container above the low 24
/// do not reach the output.
pub fn pcm24_le_bytes(samples: &Vec<i32>) -> (bytes: Vec<u8>)
    ensures
        bytes@ == pcm24_bytes(samples@),
{
    let mut bytes: Vec<u8> = Vec::new();
    let mut i: usize = 0;
    assert(bytes@ =~= pcm24_bytes(samples@.take(0)));
    while i < samples.len()
        invariant
            i <= samples.len(),
            bytes@ == pcm24_bytes(samples@.take(i as int)),
        decreases samples.len() - i,
    {
        let shifted: u64 = (samples[i] as i64 + 0x1_0000_0000) as u64;
        let low: u8 = (shifted % 256) as u8;
        let middle: u8 = ((shifted / 256) % 256) as u8;
        let high: u8 = ((shifted / 65536) % 256) as u8;
        bytes.push(low);
        bytes.push(middle);
        bytes.push(high);
        proof {
            lemma_pcm24_step(samples@, i as int, shifted as int);
        }
        i = i + 1;
    }
    assert(samples@.take(i as int) =~= samples@);
    bytes
}

impl AudioInfo {
    /// The content checksum that a decoder reports, as lowercase hexadecimal
    /// text.
    pub fn md5_text(md5sum: &Vec<u8>) -> (text: String)
        ensures
            text@ == hex_lower(md5sum@),
    {
        hex_encode(md5sum.as_slice())
    }

    /// The checksum of a 16-bit stream.
    pub fn generate_crc32_16bit(samples: &Vec<i16>) -> (text: String)
        ensures
            text@ == crc32_text(crc32_of(pcm16_bytes(samples@))),
    {
        let bytes = pcm16_le_bytes(samples);
        format_crc32(crc32_checksum(bytes.as_slice()))
    }

    /// The checksum of a 24-bit stream.
    pub fn generate_crc32_24bit(samples: &Vec<i32>) -> (text: String)
        ensures
            text@ == crc32_text(crc32_of(pcm24_bytes(samples@))),
    {
        let bytes = pcm24_le_bytes(samples);
        format_crc32(crc32_checksum(bytes.as_slice()))
    }
}

} // verus!
