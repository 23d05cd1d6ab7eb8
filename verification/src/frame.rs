//! The frame data the pipeline works on: a canvas-relative pixel-index
//! buffer with its palette, transparency marker, disposal method and delay.

use vstd::prelude::*;

verus! {

/// What the renderer does with the canvas once a frame's delay has elapsed,
/// before the next frame is drawn.
#[derive(Clone, Copy, Debug, PartialEq, Eq, Structural)]
pub enum Disposal {
    /// No instruction; renderers treat it like `Keep`.
    Any,
    /// Leave the frame's pixels in place.
    Keep,
    /// Clear the frame's region to the background color.
    Background,
    /// Restore the canvas to what it showed before this frame.
    Previous,
}

/// One animation frame. The buffer holds palette indices for a
/// `width x height` region placed at `(left, top)` on the canvas.
#[derive(Debug, Clone, PartialEq, Eq)]
pub struct Frame {
    /// Region width in pixels.
    pub width: u16,
    /// Region height in pixels.
    pub height: u16,
    /// Topmost canvas row of the region.
    pub top: u16,
    /// Leftmost canvas column of the region.
    pub left: u16,
    /// Requested display duration in hundredths of a second.
    pub delay: u16,
    /// Canvas handling after this frame's delay elapses.
    pub dispose: Disposal,
    /// Palette index drawn as transparent, if any.
    pub transparent: Option<u8>,
    /// Whether the stream pauses for user input at this frame.
    pub needs_user_input: bool,
    /// Whether the frame's rows are stored interlaced.
    pub interlaced: bool,
    /// Local palette as RGB triples, overriding the global one when present.
    pub palette: Option<Vec<u8>>,
    /// Pixel data: one palette index per pixel.
    pub buffer: Vec<u8>,
}

/// Mathematical image of a [`Frame`], with sequences for the buffers.
#[verifier::ext_equal]
pub struct FrameModel {
    pub width: u16,
    pub height: u16,
    pub top: u16,
    pub left: u16,
    pub delay: u16,
    pub dispose: Disposal,
    pub transparent: Option<u8>,
    pub needs_user_input: bool,
    pub interlaced: bool,
    pub palette: Option<Seq<u8>>,
    pub buffer: Seq<u8>,
}

impl View for Frame {
    type V = FrameModel;

    open spec fn view(&self) -> FrameModel {
        FrameModel {
            width: self.width,
            height: self.height,
            top: self.top,
            left: self.left,
            delay: self.delay,
            dispose: self.dispose,
            transparent: self.transparent,
            needs_user_input: self.needs_user_input,
            interlaced: self.interlaced,
            palette: match self.palette {
                Some(p) => Some(p@),
                None => None,
            },
            buffer: self.buffer@,
        }
    }
}

/// The views of a frame sequence, in order.
pub open spec fn frame_views(s: Seq<Frame>) -> Seq<FrameModel> {
    s.map_values(|f: Frame| f@)
}

/// Taking views distributes over concatenation.
pub proof fn lemma_frame_views_concat(a: Seq<Frame>, b: Seq<Frame>)
    ensures
        frame_views(a + b) == frame_views(a) + frame_views(b),
{
    assert forall|i: int| 0 <= i < a.len() + b.len() implies frame_views(a + b)[i] == (frame_views(
        a,
    ) + frame_views(b))[i] by {
        if i < a.len() {
            assert((a + b)[i] == a[i]);
        } else {
            assert((a + b)[i] == b[i - a.len()]);
        }
    }
    assert(frame_views(a + b) =~= frame_views(a) + frame_views(b));
}

impl Frame {
    /// An independent copy of the frame, needed where the expansion policy
    /// emits the same logical frame more than once.
    pub fn duplicate(&self) -> (r: Frame)
        ensures
            r@ == self@,
    {
        let palette = match &self.palette {
            Some(p) => Some(clone_bytes(p)),
            None => None,
        };
        let r = Frame {
            width: self.width,
            height: self.height,
            top: self.top,
            left: self.left,
            delay: self.delay,
            dispose: self.dispose,
            transparent: self.transparent,
            needs_user_input: self.needs_user_input,
            interlaced: self.interlaced,
            palette,
            buffer: clone_bytes(&self.buffer),
        };
        proof {
            assert(r@ =~= self@);
        }
        r
    }
}

/// A byte-for-byte copy of a buffer.
fn clone_bytes(v: &Vec<u8>) -> (r: Vec<u8>)
    ensures
        r@ == v@,
{
    let mut r: Vec<u8> = Vec::new();
    let mut i: usize = 0;
    while i < v.len()
        invariant
            i <= v@.len(),
            r@ == v@.take(i as int),
        decreases v@.len() - i,
    {
        r.push(v[i]);
        proof {
            assert(v@.take(i as int).push(v@[i as int]) =~= v@.take(i as int + 1));
        }
        i = i + 1;
    }
    proof {
        assert(v@.take(v@.len() as int) =~= v@);
    }
    r
}

} // verus!
