//! Audio between the emulator and the sound device.
//!
//! The emulator hands out one block of samples per channel, as many as it has
//! made; the device asks for one sample after the other and never waits.
//! [`SampleBuffer`] sits between the two: a block that comes up short is
//! filled with silence.

use byteorder::ByteOrder;
use vstd::prelude::*;

verus! {

/// Number of channels: left, then right.
pub const CHANNELS: u16 = 2;

/// The block of `len` samples that two channels make: left and right sample
/// by turns for as many frames as both channels have and the block holds,
/// then silence.
pub open spec fn interleaved(left: Seq<i16>, right: Seq<i16>, len: nat) -> Seq<i16> {
    Seq::new(
        len,
        |i: int|
            if i / 2 < frames(left.len(), right.len(), len) {
                if i % 2 == 0 {
                    left[i / 2]
                } else {
                    right[i / 2]
                }
            } else {
                0i16
            },
    )
}

/// Number of whole frames that go into a block of `len` samples from
/// channels of these lengths.
pub open spec fn frames(left_len: nat, right_len: nat, len: nat) -> int {
    let have = if left_len <= right_len {
        left_len
    } else {
        right_len
    };
    if have <= len / 2 {
        have as int
    } else {
        (len / 2) as int
    }
}

/// Samples as the bytes of 16-bit little-endian PCM.
pub open spec fn pcm_le(samples: Seq<i16>) -> Seq<u8> {
    Seq::new(
        2 * samples.len(),
        |k: int|
            if k % 2 == 0 {
                (samples[k / 2] as u16 % 256) as u8
            } else {
                (samples[k / 2] as u16 / 256) as u8
            },
    )
}

/// `byteorder::LittleEndian::write_i16_into`: writes each sample of `src`
/// into two bytes of `dst`, low byte first.  It panics unless `dst` is twice
/// as long as `src`, which the precondition asks for.
#[verifier::external_body]
fn write_i16_le(src: &[i16], dst: &mut Vec<u8>)
    requires
        old(dst)@.len() == 2 * src@.len(),
    ensures
        final(dst)@ == pcm_le(src@),
{
    byteorder::LittleEndian::write_i16_into(src, dst.as_mut_slice());
}

/// The bytes that an encoder reads as 16-bit little-endian PCM.
pub fn pcm_bytes(samples: &[i16]) -> (bytes: Vec<u8>)
    ensures
        bytes@ == pcm_le(samples@),
{
    let mut bytes: Vec<u8> = Vec::new();
    let mut i: usize = 0;
    while i < samples.len()
        invariant
            i <= samples@.len(),
            bytes@.len() == 2 * i,
        decreases samples@.len() - i,
    {
        bytes.push(0);
        bytes.push(0);
        i += 1;
    }
    write_i16_le(samples, &mut bytes);
    bytes
}

/// A block of interleaved stereo samples and how far it has been played.
pub struct SampleBuffer {
    buf: Vec<i16>,
    buf_offset: usize,
}

/// Mathematical state of a sample buffer.
pub struct SampleBufferState {
    pub samples: Seq<i16>,
    /// Number of samples that have been played.
    pub offset: nat,
}

impl View for SampleBuffer {
    type V = SampleBufferState;

    closed spec fn view(&self) -> SampleBufferState {
        SampleBufferState { samples: self.buf@, offset: self.buf_offset as nat }
    }
}

impl SampleBuffer {
    #[verifier::type_invariant]
    spec fn offset_in_range(self) -> bool {
        self.buf_offset <= self.buf@.len()
    }

    /// A block of `len` samples of silence, nothing played yet.
    pub fn new(len: usize) -> (b: Self)
        ensures
            b@ == (SampleBufferState { samples: Seq::new(len as nat, |i: int| 0i16), offset: 0 }),
    {
        let mut buf: Vec<i16> = Vec::new();
        let mut i: usize = 0;
        while i < len
            invariant
                i <= len,
                buf@ == Seq::new(i as nat, |k: int| 0i16),
            decreases len - i,
        {
            buf.push(0);
            i += 1;
            assert(buf@ =~= Seq::new(i as nat, |k: int| 0i16));
        }
        SampleBuffer { buf, buf_offset: 0 }
    }

    /// Whether every sample has been played.
    pub fn is_exhausted(&self) -> (b: bool)
        ensures
            b == (self@.offset >= self@.samples.len()),
    {
        self.buf_offset >= self.buf.len()
    }

    /// Replaces the block with what the two channels hold, and starts over.
    /// Where the channels hold less than the block, the rest is silence.
    pub fn load(&mut self, left: &[i16], right: &[i16])
        ensures
            final(self)@ == (SampleBufferState {
                samples: interleaved(left@, right@, old(self)@.samples.len()),
                offset: 0,
            }),
    {
        let len = self.buf.len();
        let have = if left.len() <= right.len() { left.len() } else { right.len() };
        let n = if have <= len / 2 { have } else { len / 2 };
        let mut block: Vec<i16> = Vec::new();
        let mut i: usize = 0;
        while i < len
            invariant
                i <= len,
                n == frames(left@.len(), right@.len(), len as nat),
                n <= left@.len(),
                n <= right@.len(),
                block@ == interleaved(left@, right@, len as nat).take(i as int),
            decreases len - i,
        {
            let sample = if i / 2 < n {
                if i % 2 == 0 {
                    left[i / 2]
                } else {
                    right[i / 2]
                }
            } else {
                0
            };
            block.push(sample);
            i += 1;
            assert(block@ =~= interleaved(left@, right@, len as nat).take(i as int));
        }
        assert(block@ =~= interleaved(left@, right@, len as nat));
        *self = SampleBuffer { buf: block, buf_offset: 0 };
    }

    /// The next sample to play, or `None` once the block is exhausted.
    pub fn next_sample(&mut self) -> (sample: Option<i16>)
        ensures
            final(self)@.samples == old(self)@.samples,
            match sample {
                Some(s) => {
                    &&& old(self)@.offset < old(self)@.samples.len()
                    &&& s == old(self)@.samples[old(self)@.offset as int]
                    &&& final(self)@.offset == old(self)@.offset + 1
                },
                None => {
                    &&& old(self)@.offset >= old(self)@.samples.len()
                    &&& final(self)@.offset == old(self)@.offset
                },
            },
    {
        if self.buf_offset < self.buf.len() {
            let sample = self.buf[self.buf_offset];
            self.buf_offset = self.buf_offset + 1;
            Some(sample)
        } else {
            None
        }
    }
}

} // verus!
