use cosmetics::slider::{
    clamp_high, clamp_low, refresh_status, slider_update, ActiveHandle, DragTarget, GestureState,
    RangeValues, ScrubInput, ScrubOutcome, ScrubReport, ScrubValues, SliderInput, SliderOutcome,
    SliderStatus, scrub_update,
};

#[test]
fn clamps_against_other_handle() {
    assert_eq!(clamp_low(7, 5), 5);
    assert_eq!(clamp_low(3, 5), 3);
    assert_eq!(clamp_high(3, 5), 5);
    assert_eq!(clamp_high(7, 5), 7);
}

#[test]
fn range_values_are_clamped_and_ordered() {
    let r = RangeValues::new(0, 100, (80, 20));
    assert_eq!((r.low, r.high), (20, 80));
    let r = RangeValues::new(0, 100, (-5, 150));
    assert_eq!((r.low, r.high), (0, 100));
}

#[test]
fn setting_handles_reports_changes() {
    let mut r = RangeValues::new(0, 100, (20, 80));
    assert!(r.set(ActiveHandle::Low, 90));
    assert_eq!((r.low, r.high), (80, 80));
    assert!(!r.set(ActiveHandle::Low, 95));
    assert!(!r.set(ActiveHandle::High, 10));
    assert_eq!((r.low, r.high), (80, 80));
    assert!(!r.set(ActiveHandle::High, 80));
    let mut s = RangeValues::new(0, 100, (20, 80));
    assert!(s.set(ActiveHandle::High, 10));
    assert_eq!((s.low, s.high), (20, 20));
    assert_eq!(s.value_of(ActiveHandle::Low), 20);
    assert_eq!(ActiveHandle::Low.other(), ActiveHandle::High);
}

#[test]
fn scrub_values_are_clamped() {
    let s = ScrubValues::new(0, 10, 12, (8, 2));
    assert_eq!((s.position, s.trim_start, s.trim_end), (10, 2, 8));
}

#[test]
fn playhead_stays_in_trim() {
    let mut s = ScrubValues::new(0, 10, 5, (2, 8));
    let r = s.apply(DragTarget::Playhead, 9);
    assert_eq!(s.position, 8);
    assert_eq!(r, ScrubReport { scrubbed: Some(8), trimmed: None });
    let r = s.apply(DragTarget::Playhead, 8);
    assert_eq!(r, ScrubReport { scrubbed: None, trimmed: None });
}

#[test]
fn trim_pushes_playhead() {
    let mut s = ScrubValues::new(0, 10, 3, (2, 8));
    let r = s.apply(DragTarget::TrimStart, 5);
    assert_eq!((s.trim_start, s.position), (5, 5));
    assert_eq!(r, ScrubReport { scrubbed: Some(5), trimmed: Some((5, 8)) });
    let r = s.apply(DragTarget::TrimStart, 9);
    assert_eq!((s.trim_start, s.trim_end, s.position), (8, 8, 8));
    assert_eq!(r, ScrubReport { scrubbed: Some(8), trimmed: Some((8, 8)) });
    let mut t = ScrubValues::new(0, 10, 7, (2, 8));
    let r = t.apply(DragTarget::TrimEnd, 1);
    assert_eq!((t.trim_end, t.position), (2, 2));
    assert_eq!(r, ScrubReport { scrubbed: Some(2), trimmed: Some((2, 2)) });
    let mut u = ScrubValues::new(0, 10, 5, (2, 8));
    let r = u.apply(DragTarget::TrimEnd, 9);
    assert_eq!(r, ScrubReport { scrubbed: None, trimmed: Some((2, 9)) });
    assert_eq!(u.value_for(DragTarget::TrimEnd), 9);
}

#[test]
fn tab_cycles_targets() {
    assert_eq!(DragTarget::Playhead.next(), DragTarget::TrimStart);
    assert_eq!(DragTarget::TrimStart.next(), DragTarget::TrimEnd);
    assert_eq!(DragTarget::TrimEnd.next(), DragTarget::Playhead);
}

#[test]
fn gestures_track_drag_and_focus() {
    let mut g: GestureState<ActiveHandle> = GestureState::new();
    assert_eq!(g.focus(ActiveHandle::Low), ActiveHandle::Low);
    assert_eq!(g.status(false), SliderStatus::Active);
    assert_eq!(g.status(true), SliderStatus::Hovered);
    g.press(ActiveHandle::High);
    assert_eq!(g.dragged(), Some(ActiveHandle::High));
    assert_eq!(g.status(false), SliderStatus::Dragged);
    assert!(g.release());
    assert!(!g.release());
    assert_eq!(g.focus(ActiveHandle::Low), ActiveHandle::High);
    assert_eq!(g.pick(Some(ActiveHandle::Low), ActiveHandle::Low), ActiveHandle::Low);
    assert_eq!(g.pick(None, ActiveHandle::Low), ActiveHandle::High);
    g.set_focus(ActiveHandle::Low);
    assert_eq!(g.focus(ActiveHandle::High), ActiveHandle::Low);
}

#[test]
fn status_refresh() {
    assert_eq!(refresh_status(None, SliderStatus::Hovered, true), (Some(SliderStatus::Hovered), false));
    assert_eq!(
        refresh_status(Some(SliderStatus::Active), SliderStatus::Hovered, false),
        (Some(SliderStatus::Active), true)
    );
    assert_eq!(refresh_status(None, SliderStatus::Hovered, false), (None, false));
}

#[test]
fn scrub_changes_pick_given_values() {
    let given = [0, 1, 2, 3];
    for target in [DragTarget::Playhead, DragTarget::TrimStart, DragTarget::TrimEnd] {
        for val in given {
            let mut s = ScrubValues { start: 0, end: 3, position: 1, trim_start: 0, trim_end: 2 };
            let r = s.apply(target, val);
            for v in [s.position, s.trim_start, s.trim_end] {
                assert!(v == val || [1, 0, 2].contains(&v), "{:?} {} {:?}", target, val, s);
            }
            if let Some(p) = r.scrubbed {
                assert!(p == val || [0, 2].contains(&p));
            }
        }
    }
}

#[test]
fn slider_update_press_drag_release() {
    let mut v = RangeValues::new(0, 100, (20, 80));
    let mut g = GestureState::new();
    let out = slider_update(&mut v, &mut g, SliderInput::Press { handle: ActiveHandle::High, value: Some(60) });
    assert_eq!(out, SliderOutcome { changed: true, released: false, capture: true });
    assert_eq!((v.low, v.high), (20, 60));
    assert_eq!(g.dragging, Some(ActiveHandle::High));
    let out = slider_update(&mut v, &mut g, SliderInput::Move { value: Some(10) });
    assert_eq!(out, SliderOutcome { changed: true, released: false, capture: true });
    assert_eq!((v.low, v.high), (20, 20));
    let out = slider_update(&mut v, &mut g, SliderInput::Move { value: Some(20) });
    assert_eq!(out, SliderOutcome { changed: false, released: false, capture: true });
    let out = slider_update(&mut v, &mut g, SliderInput::Release);
    assert_eq!(out, SliderOutcome { changed: false, released: true, capture: false });
    assert_eq!(g.dragging, None);
    let out = slider_update(&mut v, &mut g, SliderInput::Release);
    assert!(!out.released);
    let out = slider_update(&mut v, &mut g, SliderInput::Move { value: Some(90) });
    assert_eq!(out, SliderOutcome { changed: false, released: false, capture: false });
    assert_eq!((v.start, v.end, v.low, v.high), (0, 100, 20, 20));
}

#[test]
fn slider_update_nudges_and_tab() {
    let mut v = RangeValues::new(0, 100, (20, 80));
    let mut g = GestureState::new();
    // No focus yet: keys act on the low handle.
    let out = slider_update(&mut v, &mut g, SliderInput::Nudge { nearest: None, low: Some(21), high: Some(81) });
    assert!(out.changed && out.capture);
    assert_eq!((v.low, v.high), (21, 80));
    assert!(slider_update(&mut v, &mut g, SliderInput::Tab).capture);
    assert_eq!(g.last_active, Some(ActiveHandle::High));
    slider_update(&mut v, &mut g, SliderInput::Nudge { nearest: None, low: Some(22), high: Some(79) });
    assert_eq!((v.low, v.high), (21, 79));
    // The wheel acts on the handle nearest the pointer.
    slider_update(&mut v, &mut g, SliderInput::Nudge { nearest: Some(ActiveHandle::Low), low: Some(30), high: None });
    assert_eq!((v.low, v.high), (30, 79));
    let out = slider_update(&mut v, &mut g, SliderInput::Other);
    assert_eq!(out, SliderOutcome { changed: false, released: false, capture: false });
}

#[test]
fn scrub_update_press_drag_release() {
    let mut v = ScrubValues::new(0, 10, 5, (2, 8));
    let mut g = GestureState::new();
    let none = ScrubReport { scrubbed: None, trimmed: None };
    let out = scrub_update(&mut v, &mut g, ScrubInput::Press { target: DragTarget::TrimStart, value: Some(6) });
    assert_eq!(out, ScrubOutcome { report: ScrubReport { scrubbed: Some(6), trimmed: Some((6, 8)) }, released: false, capture: true });
    assert_eq!(g.dragging, Some(DragTarget::TrimStart));
    let out = scrub_update(&mut v, &mut g, ScrubInput::Move { value: Some(3) });
    assert_eq!(out.report, ScrubReport { scrubbed: None, trimmed: Some((3, 8)) });
    assert_eq!((v.trim_start, v.position), (3, 6));
    let out = scrub_update(&mut v, &mut g, ScrubInput::Release);
    assert_eq!(out, ScrubOutcome { report: none, released: true, capture: false });
    let out = scrub_update(&mut v, &mut g, ScrubInput::Move { value: Some(9) });
    assert_eq!(out, ScrubOutcome { report: none, released: false, capture: false });
    assert!(!scrub_update(&mut v, &mut g, ScrubInput::Release).released);
}

#[test]
fn scrub_update_keys_follow_focus() {
    let mut v = ScrubValues::new(0, 10, 5, (2, 8));
    let mut g = GestureState::new();
    let keys = ScrubInput::Nudge { playhead: Some(6), trim_start: Some(3), trim_end: Some(9) };
    // At first keys move the playhead.
    assert_eq!(scrub_update(&mut v, &mut g, keys).report.scrubbed, Some(6));
    assert!(scrub_update(&mut v, &mut g, ScrubInput::Tab).capture);
    assert_eq!(g.last_active, Some(DragTarget::TrimStart));
    assert_eq!(scrub_update(&mut v, &mut g, keys).report.trimmed, Some((3, 8)));
    scrub_update(&mut v, &mut g, ScrubInput::Tab);
    assert_eq!(scrub_update(&mut v, &mut g, keys).report.trimmed, Some((3, 9)));
    scrub_update(&mut v, &mut g, ScrubInput::Tab);
    assert_eq!(g.last_active, Some(DragTarget::Playhead));
    assert!(!scrub_update(&mut v, &mut g, ScrubInput::Other).capture);
}
