//! Pipeline driver: from the decoded frame sequence, global palette and
//! background index to the uniform delay and the expanded output sequence —
//! or to "no change" when every frame already shares one delay.

use crate::delay::{
    lemma_uniform_delay_bounds, spec_all_same, spec_uniform_delay, uniform_delay, MIN_DELAY,
};
use crate::expand::{expand_frame, lemma_expand_uniform, spec_expand};
use crate::frame::{frame_views, Frame, FrameModel};
use crate::transparency::{
    spec_palette_swapped, spec_rewrite, swap_transparent, swap_transparent_palette,
};
use vstd::prelude::*;

verus! {

/// The delays of a frame sequence, in order.
pub open spec fn spec_delays(s: Seq<FrameModel>) -> Seq<u16> {
    s.map_values(|f: FrameModel| f.delay)
}

/// A frame sequence with every frame's transparency relocated to index 0.
pub open spec fn spec_rewrite_all(s: Seq<FrameModel>) -> Seq<FrameModel> {
    s.map_values(|f: FrameModel| spec_rewrite(f))
}

/// The concatenated expansions of a frame sequence, in stream order.
pub open spec fn spec_expand_all(s: Seq<FrameModel>, u: u16) -> Seq<FrameModel>
    decreases s.len(),
{
    if s.len() == 0 {
        Seq::empty()
    } else {
        spec_expand_all(s.drop_last(), u) + spec_expand(s.last(), u)
    }
}

/// What the pipeline produces from a decoded stream: `None` when the stream
/// is empty or already uniform (it is then left untouched), otherwise the
/// uniform delay, the background-swapped global palette, and the expanded
/// frame sequence built from the transparency-rewritten frames.
pub open spec fn spec_normalize(
    frames: Seq<FrameModel>,
    palette: Seq<u8>,
    background: int,
) -> Option<(u16, Seq<u8>, Seq<FrameModel>)> {
    if frames.len() == 0 || spec_all_same(spec_delays(frames)) {
        None
    } else {
        let u = spec_uniform_delay(spec_delays(frames)) as u16;
        Some(
            (
                u,
                spec_palette_swapped(palette, background),
                spec_expand_all(spec_rewrite_all(frames), u),
            ),
        )
    }
}

/// Law: the expanded stream has at least one output frame per original
/// frame, and every one of them carries exactly the uniform delay.
pub proof fn lemma_expand_all_uniform(s: Seq<FrameModel>, u: u16)
    requires
        u >= 1,
    ensures
        spec_expand_all(s, u).len() >= s.len(),
        forall|i: int|
            0 <= i < spec_expand_all(s, u).len() ==> (#[trigger] spec_expand_all(s, u)[i]).delay
                == u,
    decreases s.len(),
{
    if s.len() > 0 {
        lemma_expand_all_uniform(s.drop_last(), u);
        lemma_expand_uniform(s.last(), u);
    }
}

/// Law: normalization is idempotent. A successful run emits a non-empty
/// stream whose delays are all the uniform delay, so running the pipeline
/// again on that output — whatever palette and background index come with
/// it — reports "no change".
pub proof fn lemma_normalize_idempotent(
    frames: Seq<FrameModel>,
    palette: Seq<u8>,
    background: int,
    palette2: Seq<u8>,
    background2: int,
)
    requires
        spec_normalize(frames, palette, background) is Some,
    ensures
        ({
            let sn = spec_normalize(frames, palette, background)->0;
            spec_normalize(sn.2, palette2, background2) is None
        }),
{
    lemma_uniform_delay_bounds(spec_delays(frames));
    let u = spec_uniform_delay(spec_delays(frames)) as u16;
    let sn = spec_normalize(frames, palette, background)->0;
    let out = sn.2;
    lemma_expand_all_uniform(spec_rewrite_all(frames), u);
    assert(out.len() >= 1);
    assert(forall|i: int| 0 <= i < out.len() ==> (#[trigger] spec_delays(out)[i]) == u);
    assert(spec_all_same(spec_delays(out)));
}

/// A stream rewritten to one uniform delay: what the encoder is fed.
pub struct NormalizedStream {
    /// The delay stamped on every output frame.
    pub uniform_delay: u16,
    /// The global palette with the background entry swapped to index 0.
    pub global_palette: Vec<u8>,
    /// The expanded output frames, in emission order.
    pub frames: Vec<Frame>,
}

/// Runs the whole pipeline on a decoded stream.
///
/// Returns `None` — leave the stream untouched, emit nothing — when there
/// are no frames or every frame already shares one delay. Otherwise every
/// output frame carries the returned uniform delay, which is at least
/// `MIN_DELAY`.
pub fn normalize_stream(frames: Vec<Frame>, global_palette: Vec<u8>, background: usize) -> (r:
    Option<NormalizedStream>)
    ensures
        r is Some <==> spec_normalize(frame_views(frames@), global_palette@, background as int)
            is Some,
        r matches Some(out) ==> {
            let sn = spec_normalize(frame_views(frames@), global_palette@, background as int)->0;
            &&& out.uniform_delay == sn.0
            &&& out.uniform_delay >= MIN_DELAY
            &&& out.global_palette@ == sn.1
            &&& frame_views(out.frames@) == sn.2
            &&& out.frames@.len() >= frames@.len()
            &&& forall|i: int|
                0 <= i < out.frames@.len() ==> (#[trigger] out.frames@[i])@.delay
                    == out.uniform_delay
        },
{
    let ghost in_views = frame_views(frames@);
    if frames.len() == 0 {
        return None;
    }

    let mut delays: Vec<u16> = Vec::new();
    let mut i: usize = 0;
    while i < frames.len()
        invariant
            i <= frames@.len(),
            delays@ =~= spec_delays(frame_views(frames@)).take(i as int),
        decreases frames@.len() - i,
    {
        delays.push(frames[i].delay);
        i = i + 1;
    }
    proof {
        assert(delays@ =~= spec_delays(in_views));
    }

    let u = match uniform_delay(&delays) {
        None => {
            return None;
        },
        Some(u) => u,
    };
    proof {
        lemma_uniform_delay_bounds(delays@);
        assert(u as int == spec_uniform_delay(spec_delays(in_views)));
    }

    let mut palette = global_palette;
    swap_transparent_palette(background, &mut palette);

    let mut out_frames: Vec<Frame> = Vec::new();
    let mut i: usize = 0;
    while i < frames.len()
        invariant
            i <= frames@.len(),
            u >= 1,
            frame_views(out_frames@) =~= spec_expand_all(
                spec_rewrite_all(frame_views(frames@)).take(i as int),
                u,
            ),
        decreases frames@.len() - i,
    {
        let f = frames[i].duplicate();
        let rf = swap_transparent(f);
        let mut ex = expand_frame(rf, u);
        let ghost before = out_frames@;
        let ghost ex_seq = ex@;
        out_frames.append(&mut ex);
        proof {
            let rw = spec_rewrite_all(frame_views(frames@));
            assert(rf@ == rw[i as int]);
            assert(rw.take(i as int + 1).drop_last() =~= rw.take(i as int));
            assert(rw.take(i as int + 1).last() == rw[i as int]);
            crate::frame::lemma_frame_views_concat(before, ex_seq);
            assert(frame_views(out_frames@) =~= spec_expand_all(rw.take(i as int + 1), u));
        }
        i = i + 1;
    }
    proof {
        let rw = spec_rewrite_all(in_views);
        assert(rw.take(rw.len() as int) =~= rw);
        lemma_expand_all_uniform(rw, u);
        assert forall|j: int| 0 <= j < out_frames@.len() implies (#[trigger] out_frames@[j])@.delay
            == u by {
            assert(frame_views(out_frames@)[j] == out_frames@[j]@);
        }
    }

    Some(NormalizedStream { uniform_delay: u, global_palette: palette, frames: out_frames })
}

} // verus!
