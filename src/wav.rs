//! WAV (RIFF, 16-bit PCM, mono) serialisation of a recording.

use vstd::prelude::*;

verus! {

/// `x` as two little-endian bytes.
pub open spec fn le16(x: nat) -> Seq<u8> {
    seq![(x % 256) as u8, ((x / 256) % 256) as u8]
}

/// `x` as four little-endian bytes.
pub open spec fn le32(x: nat) -> Seq<u8> {
    seq![
        (x % 256) as u8,
        ((x / 256) % 256) as u8,
        ((x / 65536) % 256) as u8,
        ((x / 16777216) % 256) as u8,
    ]
}

/// The two's-complement bit pattern of a sample.
pub open spec fn sample_bits(s: i16) -> nat {
    if s < 0 { (s + 65536) as nat } else { s as nat }
}

/// The 44-byte header of a mono 16-bit PCM WAV file with `n` samples.
pub open spec fn wav_header(n: nat, rate: nat) -> Seq<u8> {
    seq![82u8, 73, 70, 70] + le32(36 + 2 * n) + seq![87u8, 65, 86, 69]
        + seq![102u8, 109, 116, 32] + le32(16) + le16(1) + le16(1) + le32(rate) + le32(2 * rate)
        + le16(2) + le16(16) + seq![100u8, 97, 116, 97] + le32(2 * n)
}

/// The samples, each as two little-endian bytes.
pub open spec fn sample_bytes(samples: Seq<i16>) -> Seq<u8>
    decreases samples.len(),
{
    if samples.len() == 0 {
        seq![]
    } else {
        sample_bytes(samples.drop_last()) + le16(sample_bits(samples.last()))
    }
}

fn push_le16(out: &mut Vec<u8>, x: u32)
    requires
        x < 65536,
    ensures
        final(out)@ == old(out)@ + le16(x as nat),
{
    let ghost start = out@;
    out.push((x % 256) as u8);
    out.push((x / 256) as u8);
    assert(out@ =~= start + le16(x as nat));
}

fn push_le32(out: &mut Vec<u8>, x: u32)
    ensures
        final(out)@ == old(out)@ + le32(x as nat),
{
    let ghost start = out@;
    out.push((x % 256) as u8);
    out.push(((x / 256) % 256) as u8);
    out.push(((x / 65536) % 256) as u8);
    out.push((x / 16777216) as u8);
    assert(out@ =~= start + le32(x as nat));
}

fn push_bytes(out: &mut Vec<u8>, a: u8, b: u8, c: u8, d: u8)
    ensures
        final(out)@ == old(out)@ + seq![a, b, c, d],
{
    let ghost start = out@;
    out.push(a);
    out.push(b);
    out.push(c);
    out.push(d);
    assert(out@ =~= start + seq![a, b, c, d]);
}

/// A WAV file holding `samples` at `sample_rate_hz`.
pub fn pcm_i16_to_wav_bytes(samples: &[i16], sample_rate_hz: u32) -> (r: Vec<u8>)
    requires
        36 + 2 * samples@.len() <= u32::MAX,
        2 * sample_rate_hz <= u32::MAX,
    ensures
        r@ == wav_header(samples@.len(), sample_rate_hz as nat) + sample_bytes(samples@),
{
    let n = samples.len();
    let data_size = (2 * n) as u32;
    let mut out: Vec<u8> = Vec::new();
    push_bytes(&mut out, 82, 73, 70, 70);
    push_le32(&mut out, 36 + data_size);
    push_bytes(&mut out, 87, 65, 86, 69);
    push_bytes(&mut out, 102, 109, 116, 32);
    push_le32(&mut out, 16);
    push_le16(&mut out, 1);
    push_le16(&mut out, 1);
    push_le32(&mut out, sample_rate_hz);
    push_le32(&mut out, 2 * sample_rate_hz);
    push_le16(&mut out, 2);
    push_le16(&mut out, 16);
    push_bytes(&mut out, 100, 97, 116, 97);
    push_le32(&mut out, data_size);
    let ghost header = out@;
    assert(header =~= wav_header(n as nat, sample_rate_hz as nat));
    let mut i: usize = 0;
    while i < n
        invariant
            i <= n == samples@.len(),
            out@ == header + sample_bytes(samples@.take(i as int)),
        decreases n - i,
    {
        let s = samples[i];
        let bits: u32 = if s < 0 { (s as i32 + 65536) as u32 } else { s as u32 };
        push_le16(&mut out, bits);
        assert(samples@.take(i + 1).drop_last() =~= samples@.take(i as int));
        assert(out@ =~= header + sample_bytes(samples@.take(i + 1)));
        i = i + 1;
    }
    assert(samples@.take(n as int) =~= samples@);
    out
}

} // verus!
