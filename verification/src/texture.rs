//! Laying out colours as the bytes of a texture.
//!
//! A colour comes as one number holding red in its lowest byte, then green,
//! blue and alpha. The texture wants blue first: blue, green, red, alpha.

use vstd::prelude::*;

verus! {

/// The byte of `rgba` that starts at bit `shift`.
pub open spec fn channel(rgba: u32, shift: u32) -> u8 {
    ((rgba >> shift) & 0xff) as u8
}

/// Whether `bytes` holds the colours of `colors` in order, four bytes each:
/// blue, green, red, alpha.
pub open spec fn holds_texels(bytes: Seq<u8>, colors: Seq<u32>) -> bool {
    &&& bytes.len() == 4 * colors.len()
    &&& forall|i: int|
        0 <= i < colors.len() ==> {
            &&& bytes[4 * i] == channel(#[trigger] colors[i], 16)
            &&& bytes[4 * i + 1] == channel(colors[i], 8)
            &&& bytes[4 * i + 2] == channel(colors[i], 0)
            &&& bytes[4 * i + 3] == channel(colors[i], 24)
        }
}

fn byte_at(rgba: u32, shift: u32) -> (b: u8)
    requires
        shift < 32,
    ensures
        b == channel(rgba, shift),
{
    ((rgba >> shift) & 0xff) as u8
}

/// The bytes of a texture that shows the given colours.
pub fn texture_bytes(colors: &Vec<u32>) -> (bytes: Vec<u8>)
    requires
        colors.len() <= usize::MAX / 4,
    ensures
        holds_texels(bytes@, colors@),
{
    let mut bytes: Vec<u8> = Vec::new();
    let mut i: usize = 0;
    while i < colors.len()
        invariant
            i <= colors.len(),
            holds_texels(bytes@, colors@.subrange(0, i as int)),
        decreases colors.len() - i,
    {
        let c: u32 = colors[i];
        let ghost before = bytes@;
        bytes.push(byte_at(c, 16));
        bytes.push(byte_at(c, 8));
        bytes.push(byte_at(c, 0));
        bytes.push(byte_at(c, 24));
        proof {
            let done = colors@.subrange(0, i + 1);
            assert forall|k: int| 0 <= k < done.len() implies bytes@[4 * k] == channel(
                #[trigger] done[k],
                16,
            ) && bytes@[4 * k + 1] == channel(done[k], 8) && bytes@[4 * k + 2] == channel(
                done[k],
                0,
            ) && bytes@[4 * k + 3] == channel(done[k], 24) by {
                if k < i {
                    assert(colors@.subrange(0, i as int)[k] == done[k]);
                    assert(bytes@[4 * k] == before[4 * k]);
                    assert(bytes@[4 * k + 1] == before[4 * k + 1]);
                    assert(bytes@[4 * k + 2] == before[4 * k + 2]);
                    assert(bytes@[4 * k + 3] == before[4 * k + 3]);
                }
            }
        }
        i += 1;
    }
    proof {
        assert(colors@.subrange(0, i as int) =~= colors@);
    }
    bytes
}

} // verus!
