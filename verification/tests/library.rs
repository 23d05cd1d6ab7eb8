use uniform_gif::cli::usage_ok;
use uniform_gif::delay::{gcd, uniform_delay};
use uniform_gif::expand::{expand_frame, filler_frame, tick_count};
use uniform_gif::frame::{Disposal, Frame};
use uniform_gif::pipeline::normalize_stream;
use uniform_gif::transparency::{swap, swap_transparent, swap_transparent_palette};

fn make_frame(
    delay: u16,
    dispose: Disposal,
    transparent: Option<u8>,
    palette: Option<Vec<u8>>,
    buffer: Vec<u8>,
) -> Frame {
    Frame {
        width: 2,
        height: 2,
        top: 0,
        left: 0,
        delay,
        dispose,
        transparent,
        needs_user_input: false,
        interlaced: false,
        palette,
        buffer,
    }
}

fn is_filler(f: &Frame, u: u16) -> bool {
    f.width == 1
        && f.height == 1
        && f.top == 0
        && f.left == 0
        && f.delay == u
        && f.dispose == Disposal::Keep
        && f.transparent == Some(0)
        && f.palette.is_none()
        && f.buffer == vec![0]
}

#[test]
fn gcd_examples() {
    assert_eq!(gcd(6, 4), 2);
    assert_eq!(gcd(9, 0), 9);
    assert_eq!(gcd(0, 9), 9);
    assert_eq!(gcd(6, 6), 6);
    assert_eq!(gcd(35, 21), 7);
}

#[test]
fn normalizer_examples() {
    assert_eq!(uniform_delay(&vec![6, 6, 4]), Some(2));
    assert_eq!(uniform_delay(&vec![10, 20]), Some(10));
    assert_eq!(uniform_delay(&vec![5, 5, 5]), None);
    assert_eq!(uniform_delay(&vec![7]), None);
    assert_eq!(uniform_delay(&vec![0, 0]), None);
}

#[test]
fn normalizer_clamps_to_floor() {
    // gcd(1, 3) == 1, clamped up to the floor of 2
    assert_eq!(uniform_delay(&vec![1, 3]), Some(2));
    // a zero delay counts as the floor: gcd(4, max(0, 2)) == 2
    assert_eq!(uniform_delay(&vec![4, 0]), Some(2));
    assert_eq!(uniform_delay(&vec![3, 7]), Some(2));
}

#[test]
fn swap_examples() {
    assert_eq!(swap(5, 5, 0), 0);
    assert_eq!(swap(0, 5, 0), 5);
    assert_eq!(swap(7, 5, 0), 7);
}

#[test]
fn palette_swap_moves_triples() {
    let mut palette = vec![10, 20, 30, 40, 50, 60];
    swap_transparent_palette(1, &mut palette);
    assert_eq!(palette, vec![40, 50, 60, 10, 20, 30]);
}

#[test]
fn palette_swap_out_of_range_is_noop() {
    let mut palette = vec![10, 20, 30, 40, 50, 60];
    swap_transparent_palette(2, &mut palette);
    assert_eq!(palette, vec![10, 20, 30, 40, 50, 60]);
    let mut palette = vec![10, 20, 30];
    swap_transparent_palette(0, &mut palette);
    assert_eq!(palette, vec![10, 20, 30]);
}

#[test]
fn palette_swap_twice_restores() {
    let original = vec![1, 2, 3, 4, 5, 6, 7, 8, 9];
    let mut palette = original.clone();
    swap_transparent_palette(2, &mut palette);
    assert_eq!(palette, vec![7, 8, 9, 4, 5, 6, 1, 2, 3]);
    swap_transparent_palette(2, &mut palette);
    assert_eq!(palette, original);
}

#[test]
fn transparency_rewrite_relocates_to_zero() {
    let frame = make_frame(
        4,
        Disposal::Keep,
        Some(2),
        Some(vec![1, 2, 3, 4, 5, 6, 7, 8, 9]),
        vec![0, 1, 2, 2, 0],
    );
    let out = swap_transparent(frame);
    assert_eq!(out.transparent, Some(0));
    assert_eq!(out.palette, Some(vec![7, 8, 9, 4, 5, 6, 1, 2, 3]));
    assert_eq!(out.buffer, vec![2, 1, 0, 0, 2]);
    // untouched fields pass through
    assert_eq!(out.delay, 4);
    assert_eq!(out.dispose, Disposal::Keep);
}

#[test]
fn transparency_rewrite_swaps_are_involutions() {
    let original = make_frame(
        4,
        Disposal::Keep,
        Some(2),
        Some(vec![1, 2, 3, 4, 5, 6, 7, 8, 9]),
        vec![0, 1, 2, 2, 0],
    );
    let once = swap_transparent(original.clone());
    // undo by marking the same pair again and rewriting once more
    let mut marked = once.clone();
    marked.transparent = Some(2);
    let twice = swap_transparent(marked);
    assert_eq!(twice.buffer, original.buffer);
    assert_eq!(twice.palette, original.palette);
}

#[test]
fn transparency_rewrite_passes_through() {
    let at_zero = make_frame(4, Disposal::Any, Some(0), None, vec![0, 1]);
    let out = swap_transparent(at_zero.clone());
    assert_eq!(out, at_zero);

    let no_transparency = make_frame(4, Disposal::Any, None, None, vec![0, 1]);
    let out = swap_transparent(no_transparency.clone());
    assert_eq!(out, no_transparency);
}

#[test]
fn tick_count_examples() {
    assert_eq!(tick_count(10, 2), 5);
    assert_eq!(tick_count(7, 2), 4);
    assert_eq!(tick_count(2, 2), 1);
    // delays below the floor stand for the ~100 ms player default
    assert_eq!(tick_count(0, 2), 5);
    assert_eq!(tick_count(1, 3), 4);
}

#[test]
fn expand_short_run_repeats_verbatim() {
    let frame = make_frame(4, Disposal::Background, None, None, vec![1, 2, 3, 4]);
    let out = expand_frame(frame.clone(), 2);
    assert_eq!(out.len(), 2);
    for f in &out {
        let mut expected = frame.clone();
        expected.delay = 2;
        assert_eq!(*f, expected);
    }
}

#[test]
fn expand_keep_uses_fillers() {
    let frame = make_frame(0, Disposal::Keep, None, None, vec![1, 2, 3, 4]);
    let out = expand_frame(frame.clone(), 2);
    assert_eq!(out.len(), 5);
    let mut expected = frame.clone();
    expected.delay = 2;
    assert_eq!(out[0], expected);
    for f in &out[1..] {
        assert!(is_filler(f, 2));
    }
}

#[test]
fn expand_restore_previous_repeats_verbatim() {
    let frame = make_frame(8, Disposal::Previous, None, None, vec![1, 2, 3, 4]);
    let out = expand_frame(frame.clone(), 2);
    assert_eq!(out.len(), 4);
    let mut expected = frame.clone();
    expected.delay = 2;
    for f in &out {
        assert_eq!(*f, expected);
    }
}

#[test]
fn expand_restore_background_defers_the_clear() {
    let frame = make_frame(10, Disposal::Background, None, None, vec![1, 2, 3, 4]);
    let out = expand_frame(frame.clone(), 2);
    assert_eq!(out.len(), 5);
    let mut lead = frame.clone();
    lead.delay = 2;
    lead.dispose = Disposal::Keep;
    assert_eq!(out[0], lead);
    for f in &out[1..4] {
        assert!(is_filler(f, 2));
    }
    let mut tail = frame.clone();
    tail.delay = 2;
    assert_eq!(out[4], tail);
}

#[test]
fn expand_stamps_every_frame_and_covers_duration() {
    let frame = make_frame(7, Disposal::Keep, None, None, vec![1, 2, 3, 4]);
    let out = expand_frame(frame, 2);
    assert_eq!(out.len(), 4);
    for f in &out {
        assert_eq!(f.delay, 2);
    }
    // ceil(7 / 2) * 2 >= 7
    assert!(out.len() as u32 * 2 >= 7);
}

#[test]
fn filler_frame_shape() {
    let f = filler_frame(3);
    assert!(is_filler(&f, 3));
}

#[test]
fn normalize_stream_expands_and_stamps() {
    let frames = vec![
        make_frame(6, Disposal::Keep, None, None, vec![1, 1, 1, 1]),
        make_frame(6, Disposal::Keep, None, None, vec![2, 2, 2, 2]),
        make_frame(4, Disposal::Keep, None, None, vec![3, 3, 3, 3]),
    ];
    let out = normalize_stream(frames, vec![10, 20, 30, 40, 50, 60], 1).unwrap();
    assert_eq!(out.uniform_delay, 2);
    assert_eq!(out.global_palette, vec![40, 50, 60, 10, 20, 30]);
    // delay 6 -> 3 ticks (frame + 2 fillers), twice; delay 4 -> 2 verbatim
    assert_eq!(out.frames.len(), 8);
    for f in &out.frames {
        assert_eq!(f.delay, 2);
    }
    assert_eq!(out.frames[0].buffer, vec![1, 1, 1, 1]);
    assert!(is_filler(&out.frames[1], 2));
    assert!(is_filler(&out.frames[2], 2));
    assert_eq!(out.frames[3].buffer, vec![2, 2, 2, 2]);
    assert!(is_filler(&out.frames[4], 2));
    assert!(is_filler(&out.frames[5], 2));
    assert_eq!(out.frames[6].buffer, vec![3, 3, 3, 3]);
    assert_eq!(out.frames[7].buffer, vec![3, 3, 3, 3]);
}

#[test]
fn normalize_stream_uniform_is_no_change() {
    let frames = vec![
        make_frame(5, Disposal::Keep, None, None, vec![1]),
        make_frame(5, Disposal::Background, None, None, vec![2]),
    ];
    assert!(normalize_stream(frames, vec![], 0).is_none());
}

#[test]
fn normalize_stream_empty_is_no_change() {
    assert!(normalize_stream(Vec::new(), vec![1, 2, 3], 0).is_none());
}

#[test]
fn normalize_stream_is_idempotent() {
    let frames = vec![
        make_frame(6, Disposal::Previous, Some(1), Some(vec![1, 2, 3, 4, 5, 6]), vec![0, 1]),
        make_frame(4, Disposal::Keep, None, None, vec![2, 2]),
    ];
    let out = normalize_stream(frames, vec![9, 9, 9, 8, 8, 8], 1).unwrap();
    // feeding a normalized stream back in reports "no change"
    assert!(normalize_stream(out.frames, out.global_palette, 1).is_none());
}

#[test]
fn usage_accepts_one_gif_path() {
    assert!(usage_ok(&vec![b"picture.gif".to_vec()]));
    assert!(usage_ok(&vec![b"dir/sub/a.gif".to_vec()]));
    assert!(usage_ok(&vec![b"a.tar.gif".to_vec()]));
    // trailing separators do not count against the file name
    assert!(usage_ok(&vec![b"picture.gif/".to_vec()]));
    assert!(usage_ok(&vec![b"picture.gif//".to_vec()]));
}

#[test]
fn usage_rejects_wrong_argument_count() {
    assert!(!usage_ok(&Vec::new()));
    assert!(!usage_ok(&vec![b"a.gif".to_vec(), b"b.gif".to_vec()]));
}

#[test]
fn usage_rejects_wrong_extension() {
    assert!(!usage_ok(&vec![b"picture.png".to_vec()]));
    assert!(!usage_ok(&vec![b"picture.GIF".to_vec()]));
    assert!(!usage_ok(&vec![b"gif".to_vec()]));
    assert!(!usage_ok(&vec![b".gif".to_vec()]));
    assert!(!usage_ok(&vec![b"dir/.gif".to_vec()]));
    assert!(!usage_ok(&vec![b"dir/.gif/".to_vec()]));
    assert!(!usage_ok(&vec![b"///".to_vec()]));
}
