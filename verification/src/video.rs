//! The frame on its way from the emulator to the screen.

use vstd::prelude::*;

verus! {

/// Bytes per pixel: red, green, blue, alpha.
pub const BYTES_PER_PIXEL: usize = 4;

/// A frame with every pixel's alpha byte set to full.
pub open spec fn opaque_frame(frame: Seq<u8>) -> Seq<u8> {
    Seq::new(
        frame.len(),
        |i: int|
            if i % 4 == 3 {
                0xffu8
            } else {
                frame[i]
            },
    )
}

/// Copies the emulator's frame into the buffer that the screen reads, and
/// makes every pixel opaque on the way.
pub fn copy_opaque(frame: &[u8], shown: &mut Vec<u8>)
    ensures
        final(shown)@ == opaque_frame(frame@),
{
    shown.clear();
    let mut i: usize = 0;
    while i < frame.len()
        invariant
            i <= frame@.len(),
            shown@ == opaque_frame(frame@).take(i as int),
        decreases frame@.len() - i,
    {
        let byte = if i % BYTES_PER_PIXEL == 3 { 0xff } else { frame[i] };
        shown.push(byte);
        i += 1;
        assert(shown@ =~= opaque_frame(frame@).take(i as int));
    }
    assert(shown@ =~= opaque_frame(frame@));
}

} // verus!
