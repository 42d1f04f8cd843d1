//! Audio capture: device descriptions, the WAV layout chosen for a capture
//! format, and decoding captured integer sample bytes.

use vstd::prelude::*;

verus! {

/// An available audio capture device.
pub struct AudioDevice {
    pub id: String,
    pub name: String,
    pub is_default: bool,
}

/// The default capture device as listed to the user: its id (empty when
/// unknown) and its friendly name ("Default Microphone" when unknown).
pub fn default_capture_device(id: Option<String>, name: Option<String>) -> (d: AudioDevice)
    ensures
        d.id@ == (match id { Some(i) => i@, None => Seq::empty() }),
        d.name@ == (match name { Some(n) => n@, None => "Default Microphone"@ }),
        d.is_default,
{
    AudioDevice {
        id: match id { Some(i) => i, None => String::new() },
        name: match name { Some(n) => n, None => "Default Microphone".to_owned() },
        is_default: true,
    }
}

/// What a screen recording reports when it starts: whether system audio is
/// captured and from which device.
pub struct RecordingStartedPayload {
    pub has_audio: bool,
    pub audio_device: Option<String>,
}

/// The sample encoding of a capture stream.
#[derive(Clone, Copy, Debug, PartialEq, Eq, Structural)]
pub enum SampleKind {
    Float,
    Int,
}

/// Bits per sample of the WAV file for a capture format: 32 for float
/// samples; for integer samples the bytes per frame divided among the
/// channels, in bits (kept to 16 bits).
pub fn wav_bits_per_sample(kind: SampleKind, block_align: u32, channels: u16) -> (bits: u16)
    requires
        kind == SampleKind::Int ==> channels > 0,
    ensures
        kind == SampleKind::Float ==> bits == 32,
        kind == SampleKind::Int ==> bits == ((block_align / (channels as u32)) * 8) % 65536,
{
    match kind {
        SampleKind::Float => 32,
        SampleKind::Int => {
            let per_channel: u64 = (block_align / (channels as u32)) as u64;
            ((per_channel * 8) % 65536) as u16
        },
    }
}

/// A little-endian two's-complement integer sample of 2, 3 or 4 bytes.
pub open spec fn le_sample(b: Seq<u8>) -> int {
    if b.len() == 2 {
        let v = b[0] + 256 * b[1];
        if b[1] >= 128 { v - 65_536 } else { v }
    } else if b.len() == 3 {
        let v = b[0] + 256 * b[1] + 65_536 * b[2];
        if b[2] >= 128 { v - 16_777_216 } else { v }
    } else {
        let v = b[0] + 256 * b[1] + 65_536 * b[2] + 16_777_216 * b[3];
        if b[3] >= 128 { v - 4_294_967_296 } else { v }
    }
}

/// The samples of consecutive `width`-byte chunks of `raw`; a shorter
/// remainder is dropped.
pub open spec fn decode_chunks(raw: Seq<u8>, width: nat) -> Seq<int>
    decreases raw.len(),
{
    if width == 0 || raw.len() < width {
        Seq::empty()
    } else {
        seq![le_sample(raw.take(width as int))] + decode_chunks(raw.skip(width as int), width)
    }
}

/// Integer samples of captured bytes: 16-, 24- and 32-bit samples are
/// decoded, any other width yields nothing.
pub open spec fn int_samples(raw: Seq<u8>, bits_per_sample: nat) -> Seq<int> {
    let width = bits_per_sample / 8;
    if width == 2 || width == 3 || width == 4 {
        decode_chunks(raw, width)
    } else {
        Seq::empty()
    }
}

fn sample_at(raw: &[u8], pos: usize, width: usize) -> (v: i32)
    requires
        width == 2 || width == 3 || width == 4,
        pos + width <= raw@.len(),
    ensures
        v as int == le_sample(raw@.subrange(pos as int, pos + width)),
{
    let b0 = raw[pos] as i64;
    let b1 = raw[pos + 1] as i64;
    let ghost chunk = raw@.subrange(pos as int, pos + width);
    if width == 2 {
        let v = b0 + 256 * b1;
        let v = if b1 >= 128 { v - 65_536 } else { v };
        v as i32
    } else if width == 3 {
        let b2 = raw[pos + 2] as i64;
        let v = b0 + 256 * b1 + 65_536 * b2;
        let v = if b2 >= 128 { v - 16_777_216 } else { v };
        v as i32
    } else {
        let b2 = raw[pos + 2] as i64;
        let b3 = raw[pos + 3] as i64;
        let v = b0 + 256 * b1 + 65_536 * b2 + 16_777_216 * b3;
        let v = if b3 >= 128 { v - 4_294_967_296 } else { v };
        v as i32
    }
}

/// Decodes captured integer sample bytes (see `int_samples`).
pub fn decode_int_samples(raw: &[u8], bits_per_sample: u16) -> (samples: Vec<i32>)
    requires
        bits_per_sample >= 8,
    ensures
        samples@.map_values(|v: i32| v as int) == int_samples(raw@, bits_per_sample as nat),
{
    let width: usize = (bits_per_sample / 8) as usize;
    let mut out: Vec<i32> = Vec::new();
    if !(width == 2 || width == 3 || width == 4) {
        assert(out@.map_values(|v: i32| v as int) =~= Seq::<int>::empty());
        return out;
    }
    let n = raw.len();
    let mut pos: usize = 0;
    assert(raw@.skip(0) =~= raw@);
    while width <= n - pos
        invariant
            width == 2 || width == 3 || width == 4,
            n == raw@.len(),
            pos <= n,
            out@.map_values(|v: i32| v as int) + decode_chunks(raw@.skip(pos as int), width as nat)
                == decode_chunks(raw@, width as nat),
        decreases n - pos,
    {
        let v = sample_at(raw, pos, width);
        let ghost before = out@.map_values(|v: i32| v as int);
        proof {
            assert(raw@.skip(pos as int).take(width as int) =~= raw@.subrange(pos as int, pos + width));
            assert(raw@.skip(pos as int).skip(width as int) =~= raw@.skip(pos + width));
        }
        out.push(v);
        assert(out@.map_values(|v: i32| v as int) =~= before.push(v as int));
        assert(before.push(v as int) + decode_chunks(raw@.skip(pos + width), width as nat)
            =~= before + decode_chunks(raw@.skip(pos as int), width as nat));
        pos = pos + width;
    }
    assert(decode_chunks(raw@.skip(pos as int), width as nat) =~= Seq::<int>::empty());
    assert(out@.map_values(|v: i32| v as int) =~= decode_chunks(raw@, width as nat));
    out
}

} // verus!
