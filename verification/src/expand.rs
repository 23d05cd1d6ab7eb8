//! Frame expansion: one original frame becomes a run of output frames, all
//! stamped with the uniform delay, whose count covers the frame's requested
//! duration. Where the disposal method allows it, the run substitutes cheap
//! 1x1 transparent fillers for verbatim repeats.

use crate::delay::{MIN_DELAY, ZERO_DELAY};
use crate::frame::{frame_views, Disposal, Frame, FrameModel};
use vstd::prelude::*;

verus! {

/// Ceiling division.
pub open spec fn spec_ceil_div(a: int, b: int) -> int
    recommends
        b >= 1,
{
    (a + b - 1) / b
}

/// How many uniform-delay ticks one frame occupies in the output: its
/// requested duration — or the player default for an effectively zero
/// delay — rounded up to whole ticks.
pub open spec fn spec_tick_count(d: u16, u: u16) -> int
    recommends
        u >= 1,
{
    if d < MIN_DELAY {
        spec_ceil_div(ZERO_DELAY as int, u as int)
    } else {
        spec_ceil_div(d as int, u as int)
    }
}

/// `f` stamped with the uniform delay.
pub open spec fn spec_stamped(f: FrameModel, u: u16) -> FrameModel {
    FrameModel { delay: u, ..f }
}

/// The synthetic filler: a 1x1 fully transparent frame, disposed of by
/// leaving it in place, that consumes one tick without altering the visible
/// canvas.
pub open spec fn spec_filler(u: u16) -> FrameModel {
    FrameModel {
        width: 1,
        height: 1,
        top: 0,
        left: 0,
        delay: u,
        dispose: Disposal::Keep,
        transparent: Some(0u8),
        needs_user_input: false,
        interlaced: false,
        palette: None,
        buffer: seq![0u8],
    }
}

/// The run of output frames one original frame expands into. For short runs
/// the frame repeats verbatim; for longer ones fillers take over where the
/// canvas is left in place, restore-previous forbids fillers outright, and
/// restore-background defers its canvas-clear to the run's last copy.
pub open spec fn spec_expand(f: FrameModel, u: u16) -> Seq<FrameModel>
    recommends
        u >= 1,
{
    let n = spec_tick_count(f.delay, u);
    if n < 3 {
        Seq::new(n as nat, |i: int| spec_stamped(f, u))
    } else {
        match f.dispose {
            Disposal::Any | Disposal::Keep => seq![spec_stamped(f, u)] + Seq::new(
                (n - 1) as nat,
                |i: int| spec_filler(u),
            ),
            Disposal::Previous => Seq::new(n as nat, |i: int| spec_stamped(f, u)),
            Disposal::Background => seq![
                (FrameModel { dispose: Disposal::Keep, ..spec_stamped(f, u) }),
            ] + Seq::new((n - 2) as nat, |i: int| spec_filler(u)) + seq![spec_stamped(f, u)],
        }
    }
}

/// Law: a frame with delay `d >= MIN_DELAY` occupies exactly `ceil(d / u)`
/// ticks, and any frame's run of ticks covers at least its requested
/// duration.
pub proof fn lemma_ticks_cover_duration(d: u16, u: u16)
    requires
        u >= 1,
    ensures
        d >= MIN_DELAY ==> spec_tick_count(d, u) == spec_ceil_div(d as int, u as int),
        spec_tick_count(d, u) * (u as int) >= d as int,
{
    let b = if d < MIN_DELAY {
        ZERO_DELAY as int
    } else {
        d as int
    };
    assert(((b + u - 1) / (u as int)) * (u as int) >= b) by (nonlinear_arith)
        requires
            1 <= u as int,
            1 <= b,
    ;
}

/// Law: an expansion is never empty, its length is the tick count, and
/// every frame of it carries exactly the uniform delay.
pub proof fn lemma_expand_uniform(f: FrameModel, u: u16)
    requires
        u >= 1,
    ensures
        spec_expand(f, u).len() == spec_tick_count(f.delay, u),
        spec_expand(f, u).len() >= 1,
        forall|i: int|
            0 <= i < spec_expand(f, u).len() ==> #[trigger] spec_expand(f, u)[i].delay == u,
{
    let b = if f.delay < MIN_DELAY {
        ZERO_DELAY as int
    } else {
        f.delay as int
    };
    assert(1 <= (b + u - 1) / (u as int)) by (nonlinear_arith)
        requires
            1 <= u as int,
            1 <= b,
    ;
}

/// Number of output ticks for a frame of delay `d` under uniform delay `u`.
pub fn tick_count(d: u16, u: u16) -> (n: usize)
    requires
        u >= 1,
    ensures
        n as int == spec_tick_count(d, u),
        1 <= n <= u16::MAX,
{
    let base: u32 = if d < MIN_DELAY {
        ZERO_DELAY as u32
    } else {
        d as u32
    };
    let n32: u32 = (base + u as u32 - 1) / (u as u32);
    proof {
        let b = base as int;
        assert(1 <= (b + u - 1) / (u as int) <= b) by (nonlinear_arith)
            requires
                1 <= u as int,
                1 <= b,
        ;
    }
    n32 as usize
}

/// The filler frame, built once per stream and emitted wherever a tick
/// needs no real pixel data.
pub fn filler_frame(u: u16) -> (r: Frame)
    ensures
        r@ == spec_filler(u),
{
    let mut buffer: Vec<u8> = Vec::new();
    buffer.push(0);
    let r = Frame {
        width: 1,
        height: 1,
        top: 0,
        left: 0,
        delay: u,
        dispose: Disposal::Keep,
        transparent: Some(0),
        needs_user_input: false,
        interlaced: false,
        palette: None,
        buffer,
    };
    proof {
        assert(r@ =~~= spec_filler(u));
    }
    r
}

/// The views of a pushed-on sequence are the pushed-on views.
proof fn lemma_frame_views_push(s: Seq<Frame>, x: Frame)
    ensures
        frame_views(s.push(x)) == frame_views(s).push(x@),
{
    assert(frame_views(s.push(x)) =~= frame_views(s).push(x@));
}

/// Appends `count` independent copies of `f` to `out`.
fn push_copies(out: &mut Vec<Frame>, f: &Frame, count: usize)
    ensures
        frame_views(final(out)@) == frame_views(old(out)@) + Seq::new(
            count as nat,
            |i: int| f@,
        ),
{
    let mut k: usize = 0;
    while k < count
        invariant
            k <= count,
            out@.len() == old(out)@.len() + k,
            forall|j: int| 0 <= j < old(out)@.len() ==> out@[j] == old(out)@[j],
            forall|j: int| old(out)@.len() <= j < out@.len() ==> (#[trigger] out@[j])@ == f@,
        decreases count - k,
    {
        out.push(f.duplicate());
        k = k + 1;
    }
    proof {
        assert(frame_views(out@) =~= frame_views(old(out)@) + Seq::new(
            count as nat,
            |i: int| f@,
        ));
    }
}

/// Expands one (already transparency-rewritten) frame into its run of
/// uniform-delay output frames, following the disposal-aware policy of
/// [`spec_expand`].
pub fn expand_frame(frame: Frame, u: u16) -> (out: Vec<Frame>)
    requires
        u >= 1,
    ensures
        frame_views(out@) == spec_expand(frame@, u),
        out@.len() == spec_tick_count(frame@.delay, u),
        forall|i: int| 0 <= i < out@.len() ==> (#[trigger] out@[i])@.delay == u,
{
    let ghost orig = frame@;
    let n = tick_count(frame.delay, u);
    let mut stamped = frame;
    stamped.delay = u;
    proof {
        assert(stamped@ =~= spec_stamped(orig, u));
    }

    let mut out: Vec<Frame> = Vec::new();
    if n < 3 {
        push_copies(&mut out, &stamped, n);
        proof {
            assert(frame_views(out@) =~= spec_expand(orig, u));
        }
    } else {
        match stamped.dispose {
            Disposal::Any | Disposal::Keep => {
                let filler = filler_frame(u);
                out.push(stamped);
                push_copies(&mut out, &filler, n - 1);
                proof {
                    assert(frame_views(out@) =~= spec_expand(orig, u));
                }
            },
            Disposal::Previous => {
                push_copies(&mut out, &stamped, n);
                proof {
                    assert(frame_views(out@) =~= spec_expand(orig, u));
                }
            },
            Disposal::Background => {
                let mut lead = stamped.duplicate();
                lead.dispose = Disposal::Keep;
                proof {
                    assert(lead@ =~= (FrameModel { dispose: Disposal::Keep, ..spec_stamped(orig, u) }));
                }
                let filler = filler_frame(u);
                out.push(lead);
                push_copies(&mut out, &filler, n - 2);
                let ghost with_fillers = out@;
                out.push(stamped);
                proof {
                    lemma_frame_views_push(with_fillers, stamped);
                    assert(frame_views(with_fillers) =~= seq![lead@] + Seq::new(
                        (n - 2) as nat,
                        |i: int| spec_filler(u),
                    ));
                    assert(frame_views(out@) =~= spec_expand(orig, u));
                }
            },
        }
    }
    proof {
        lemma_expand_uniform(orig, u);
        assert forall|i: int| 0 <= i < out@.len() implies (#[trigger] out@[i])@.delay == u by {
            assert(frame_views(out@)[i] == out@[i]@);
            assert(spec_expand(orig, u)[i].delay == u);
        }
    }
    out
}

} // verus!
