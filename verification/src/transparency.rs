//! Transparency rewrite: relocates a frame's transparent palette index to
//! index 0, swapping the two palette entries and every occurrence of the two
//! index values in the pixel buffer. The encoder this crate feeds only
//! supports a transparent index fixed at 0.

use crate::frame::{Frame, FrameModel};
use vstd::prelude::*;

verus! {

/// Exchanges the two values of an index pair: `v1` becomes `v2`, `v2`
/// becomes `v1`, anything else stays.
pub open spec fn spec_swap_val(val: u8, v1: u8, v2: u8) -> u8 {
    if val == v1 {
        v2
    } else if val == v2 {
        v1
    } else {
        val
    }
}

/// A palette with the RGB triples at entry 0 and entry `bg` exchanged, when
/// the palette reaches entry `bg`; a shorter palette stays as it is.
pub open spec fn spec_palette_swapped(p: Seq<u8>, bg: int) -> Seq<u8>
    recommends
        0 <= bg,
{
    if 3 * bg + 2 < p.len() {
        Seq::new(
            p.len(),
            |i: int|
                (if 0 <= i <= 2 {
                    p[3 * bg + i]
                } else if 3 * bg <= i <= 3 * bg + 2 {
                    p[i - 3 * bg]
                } else {
                    p[i]
                }),
        )
    } else {
        p
    }
}

/// A frame after the transparency rewrite: where the transparent marker is
/// some non-zero index `t`, the palette entries 0 and `t` are exchanged, the
/// buffer values 0 and `t` are exchanged, and the marker becomes 0; frames
/// already transparent at 0, or without transparency, stay as they are.
pub open spec fn spec_rewrite(f: FrameModel) -> FrameModel {
    let t = match f.transparent {
        Some(t) => t,
        None => 0u8,
    };
    if t == 0 {
        f
    } else {
        FrameModel {
            transparent: Some(0u8),
            palette: match f.palette {
                Some(p) => Some(spec_palette_swapped(p, t as int)),
                None => None,
            },
            buffer: f.buffer.map_values(|c: u8| spec_swap_val(c, t, 0u8)),
            ..f
        }
    }
}

/// Law: exchanging an index pair is an involution — the same swap applied
/// twice gives back the original value.
pub proof fn lemma_swap_val_involution(val: u8, v1: u8, v2: u8)
    ensures
        spec_swap_val(spec_swap_val(val, v1, v2), v1, v2) == val,
{
}

/// Law: exchanging the buffer values 0 and `t` twice restores the buffer
/// exactly.
pub proof fn lemma_buffer_swap_involution(b: Seq<u8>, t: u8)
    ensures
        b.map_values(|c: u8| spec_swap_val(c, t, 0u8)).map_values(
            |c: u8| spec_swap_val(c, t, 0u8),
        ) == b,
{
    assert(b.map_values(|c: u8| spec_swap_val(c, t, 0u8)).map_values(
        |c: u8| spec_swap_val(c, t, 0u8),
    ) =~= b);
}

/// Law: exchanging the palette entries 0 and `bg` twice restores the
/// palette exactly.
pub proof fn lemma_palette_swap_involution(p: Seq<u8>, bg: int)
    requires
        0 <= bg,
    ensures
        spec_palette_swapped(spec_palette_swapped(p, bg), bg) == p,
{
    assert(spec_palette_swapped(spec_palette_swapped(p, bg), bg) =~= p);
}

/// Law: after one rewrite no frame still reports transparency at an index
/// other than 0, a frame that needs no relocation passes through unchanged,
/// and rewriting is idempotent.
pub proof fn lemma_rewrite_transparent_zero(f: FrameModel)
    ensures
        spec_rewrite(f).transparent is Some ==> spec_rewrite(f).transparent == Some(0u8),
        f.transparent is None || f.transparent == Some(0u8) ==> spec_rewrite(f) == f,
        spec_rewrite(spec_rewrite(f)) == spec_rewrite(f),
{
}

/// Law: the rewrite's two swaps undo themselves — applying the same
/// index-pair swap once more to the rewritten frame's buffer and palette
/// restores the original buffer and palette exactly.
pub proof fn lemma_rewrite_swaps_involution(f: FrameModel)
    requires
        f.transparent matches Some(t) && t != 0,
    ensures
        spec_rewrite(f).buffer.map_values(
            |c: u8| spec_swap_val(c, f.transparent->0, 0u8),
        ) == f.buffer,
        (match spec_rewrite(f).palette {
            Some(p) => Some(spec_palette_swapped(p, f.transparent->0 as int)),
            None => None::<Seq<u8>>,
        }) == f.palette,
{
    let t = f.transparent->0;
    lemma_buffer_swap_involution(f.buffer, t);
    match f.palette {
        Some(p) => lemma_palette_swap_involution(p, t as int),
        None => (),
    }
}

/// Exchanges the values `v1` and `v2`: returns the other one of the pair,
/// or `val` itself when it is neither.
pub fn swap(val: u8, v1: u8, v2: u8) -> (r: u8)
    ensures
        r == spec_swap_val(val, v1, v2),
{
    if val == v1 {
        v2
    } else if val == v2 {
        v1
    } else {
        val
    }
}

/// Exchanges the RGB triples at palette entry 0 and entry `bg`, in place.
/// A palette too short to hold entry `bg` is left untouched.
pub fn swap_transparent_palette(bg: usize, palette: &mut Vec<u8>)
    ensures
        final(palette)@ == spec_palette_swapped(old(palette)@, bg as int),
{
    let in_range = (bg as u128) * 3 + 2 < palette.len() as u128;
    if in_range {
        let p = bg * 3;
        let a = palette[0];
        let b = palette[p];
        palette[0] = b;
        palette[p] = a;
        let a = palette[1];
        let b = palette[p + 1];
        palette[1] = b;
        palette[p + 1] = a;
        let a = palette[2];
        let b = palette[p + 2];
        palette[2] = b;
        palette[p + 2] = a;
        proof {
            assert(palette@ =~= spec_palette_swapped(old(palette)@, bg as int));
        }
    }
}

/// Rewrites one frame so its transparent index, if any, is 0.
pub fn swap_transparent(frame: Frame) -> (r: Frame)
    ensures
        r@ == spec_rewrite(frame@),
{
    let mut frame = frame;
    let ghost orig = frame@;
    let t = match frame.transparent {
        Some(t) => t,
        None => 0,
    };
    if t == 0 {
        return frame;
    }

    frame.palette = match frame.palette {
        Some(mut p) => {
            swap_transparent_palette(t as usize, &mut p);
            Some(p)
        },
        None => None,
    };

    swap_buffer(&mut frame.buffer, t);

    frame.transparent = Some(0);
    proof {
        assert(frame@ =~~= spec_rewrite(orig));
    }
    frame
}

/// Exchanges the values 0 and `t` at every position of a pixel buffer, in
/// place.
fn swap_buffer(buf: &mut Vec<u8>, t: u8)
    ensures
        final(buf)@ == old(buf)@.map_values(|c: u8| spec_swap_val(c, t, 0u8)),
{
    let mut i: usize = 0;
    while i < buf.len()
        invariant
            i <= buf@.len(),
            buf@.len() == old(buf)@.len(),
            forall|j: int| 0 <= j < i ==> buf@[j] == spec_swap_val(old(buf)@[j], t, 0u8),
            forall|j: int| i <= j < old(buf)@.len() ==> buf@[j] == old(buf)@[j],
        decreases buf@.len() - i,
    {
        let c = buf[i];
        buf[i] = swap(c, t, 0);
        i = i + 1;
    }
    proof {
        assert(buf@ =~= old(buf)@.map_values(|c: u8| spec_swap_val(c, t, 0u8)));
    }
}

} // verus!
