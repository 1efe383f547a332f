//! The WAV container for the generated sounds: a 44-byte RIFF header for
//! mono 16-bit PCM, then the samples, all little-endian.

use vstd::prelude::*;

verus! {

/// The two little-endian bytes of `v < 65536`.
pub open spec fn le16(v: nat) -> Seq<u8> {
    seq![(v % 256) as u8, ((v / 256) % 256) as u8]
}

/// The four little-endian bytes of `v < 2^32`.
pub open spec fn le32(v: nat) -> Seq<u8> {
    seq![
        (v % 256) as u8,
        ((v / 256) % 256) as u8,
        ((v / 65536) % 256) as u8,
        ((v / 16777216) % 256) as u8,
    ]
}

/// The bit pattern of a sample, read as unsigned (two's complement).
pub open spec fn pcm_bits(s: i16) -> nat {
    if s < 0 {
        (s + 65536) as nat
    } else {
        s as nat
    }
}

/// The sample data: each sample's two little-endian bytes, in order.
pub open spec fn sample_bytes(samples: Seq<i16>) -> Seq<u8>
    decreases samples.len(),
{
    if samples.len() == 0 {
        Seq::empty()
    } else {
        sample_bytes(samples.drop_last()) + le16(pcm_bits(samples.last()))
    }
}

/// The 44-byte header of a mono 16-bit PCM file with `n` samples at
/// `rate` samples per second: "RIFF", the chunk size `36 + 2n`, "WAVE",
/// "fmt ", the format chunk size 16, format 1 (PCM), 1 channel, the rate,
/// the byte rate `2 * rate`, the block alignment 2, 16 bits per sample,
/// "data" and the data size `2n`.
pub open spec fn wav_header(n: nat, rate: nat) -> Seq<u8> {
    seq![82u8, 73u8, 70u8, 70u8] + le32(36 + 2 * n) + seq![87u8, 65u8, 86u8, 69u8] + seq![
        102u8,
        109u8,
        116u8,
        32u8,
    ] + le32(16) + le16(1) + le16(1) + le32(rate) + le32(2 * rate) + le16(2) + le16(16) + seq![
        100u8,
        97u8,
        116u8,
        97u8,
    ] + le32(2 * n)
}

/// The whole file: the header followed by the sample data.
pub open spec fn wav_file(samples: Seq<i16>, rate: nat) -> Seq<u8> {
    wav_header(samples.len(), rate) + sample_bytes(samples)
}

fn push_le16(out: &mut Vec<u8>, v: u32)
    requires
        v < 65536,
    ensures
        final(out)@ == old(out)@ + le16(v as nat),
{
    out.push((v % 256) as u8);
    out.push(((v / 256) % 256) as u8);
    assert(final(out)@ =~= old(out)@ + le16(v as nat));
}

fn push_le32(out: &mut Vec<u8>, v: u32)
    ensures
        final(out)@ == old(out)@ + le32(v as nat),
{
    out.push((v % 256) as u8);
    out.push(((v / 256) % 256) as u8);
    out.push(((v / 65536) % 256) as u8);
    out.push(((v / 16777216) % 256) as u8);
    assert(final(out)@ =~= old(out)@ + le32(v as nat));
}

fn push_tag(out: &mut Vec<u8>, a: u8, b: u8, c: u8, d: u8)
    ensures
        final(out)@ == old(out)@ + seq![a, b, c, d],
{
    out.push(a);
    out.push(b);
    out.push(c);
    out.push(d);
    assert(final(out)@ =~= old(out)@ + seq![a, b, c, d]);
}

/// Wraps 16-bit mono samples in a WAV file.
pub fn encode_wav(samples: &[i16], sample_rate: u32) -> (bytes: Vec<u8>)
    requires
        2 * samples@.len() + 44 <= u32::MAX,
        2 * sample_rate <= u32::MAX,
    ensures
        bytes@ == wav_file(samples@, sample_rate as nat),
        bytes@.len() == 44 + 2 * samples@.len(),
{
    let channels: u32 = 1;
    let bits_per_sample: u32 = 16;
    let block_align: u32 = channels * (bits_per_sample / 8);
    let byte_rate: u32 = sample_rate * block_align;
    let data_size: u32 = (samples.len() * 2) as u32;
    let chunk_size: u32 = 36 + data_size;
    let mut bytes: Vec<u8> = Vec::new();
    push_tag(&mut bytes, 82, 73, 70, 70);
    push_le32(&mut bytes, chunk_size);
    push_tag(&mut bytes, 87, 65, 86, 69);
    push_tag(&mut bytes, 102, 109, 116, 32);
    push_le32(&mut bytes, 16);
    push_le16(&mut bytes, 1);
    push_le16(&mut bytes, channels);
    push_le32(&mut bytes, sample_rate);
    push_le32(&mut bytes, byte_rate);
    push_le16(&mut bytes, block_align);
    push_le16(&mut bytes, bits_per_sample);
    push_tag(&mut bytes, 100, 97, 116, 97);
    push_le32(&mut bytes, data_size);
    let ghost header = bytes@;
    assert(header =~= wav_header(samples@.len(), sample_rate as nat));
    let mut i: usize = 0;
    assert(samples@.take(0) =~= Seq::<i16>::empty());
    assert(bytes@ =~= header + sample_bytes(samples@.take(0)));
    while i < samples.len()
        invariant
            0 <= i <= samples@.len(),
            header.len() == 44,
            bytes@ == header + sample_bytes(samples@.take(i as int)),
            sample_bytes(samples@.take(i as int)).len() == 2 * i,
        decreases samples@.len() - i,
    {
        let s = samples[i];
        let bits: u32 = if s < 0 {
            (s as i32 + 65536) as u32
        } else {
            s as u32
        };
        push_le16(&mut bytes, bits);
        proof {
            let t = samples@.take(i + 1);
            assert(t.drop_last() =~= samples@.take(i as int));
            assert(t.last() == s);
            assert(bytes@ =~= header + sample_bytes(t));
        }
        i = i + 1;
    }
    assert(samples@.take(i as int) =~= samples@);
    bytes
}

} // verus!
