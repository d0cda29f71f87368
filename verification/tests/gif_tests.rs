use cosmetics::gif::{Frames, Playback, PlaybackAction, PlaybackEvent};
use std::hash::{DefaultHasher, Hash, Hasher};

fn frames(n: usize, delay_ms: u32) -> Frames {
    let pixels: Vec<Vec<u8>> = (0..n).map(|i| vec![i as u8; 4]).collect();
    let images: Vec<(u32, u32, &[u8])> = pixels.iter().map(|p| (1u32, 1u32, p.as_slice())).collect();
    Frames::from_rgba(&images, delay_ms)
}

fn redraw(ms: u64) -> PlaybackEvent {
    PlaybackEvent::Redraw { elapsed_ns: ms * 1_000_000 }
}

#[test]
fn frames_keep_images() {
    let f = frames(3, 40);
    assert_eq!(f.len(), 3);
    assert!(!f.is_empty());
    let (w, h, px) = f.frame(2);
    assert_eq!((w, h), (1, 1));
    assert_eq!(px, &vec![2u8; 4]);
    assert_eq!(f.delay_ms(1), 40);
    assert!(frames(0, 40).is_empty());
}

#[test]
fn frame_identity_follows_count_and_delay() {
    assert_eq!(frames(3, 40).id(), frames(3, 40).id());
    assert_ne!(frames(3, 40).id(), frames(4, 40).id());
    assert_ne!(frames(3, 40).id(), frames(3, 50).id());
}

#[test]
fn frame_identity_is_default_hash_of_count_and_delay() {
    let mut h = DefaultHasher::new();
    3usize.hash(&mut h);
    40u32.hash(&mut h);
    assert_eq!(frames(3, 40).id(), h.finish());
}

#[test]
fn trim_and_seek_are_clamped() {
    let p = Playback::new(5);
    assert_eq!((p.trim_start, p.trim_end), (0, 5));
    let t = p.trim(2, 9);
    assert_eq!((t.trim_start, t.trim_end), (2, 5));
    let inv = p.trim(4, 1);
    assert_eq!((inv.trim_start, inv.trim_end), (4, 4));
    let far = p.trim(7, 9);
    assert_eq!((far.trim_start, far.trim_end), (5, 5));
    assert_eq!(p.seek(10).seek_index, Some(4));
    assert_eq!(Playback::new(0).seek(3).seek_index, Some(0));
    assert_eq!(p.trim(3, 5).initial_index(), 3);
    assert_eq!(Playback::new(2).trim(2, 2).initial_index(), 1);
}

#[test]
fn playing_advances_and_wraps() {
    let f = frames(4, 100);
    let p = Playback::new(4).playing(true).trim(1, 3);
    let mut i = 1usize;
    let a = p.step(&f, &mut i, redraw(50));
    assert_eq!(i, 1);
    assert_eq!(a, vec![PlaybackAction::RedrawAfterNs(50_000_000)]);
    let a = p.step(&f, &mut i, redraw(100));
    assert_eq!(i, 2);
    assert_eq!(
        a,
        vec![
            PlaybackAction::RestartClockAtEvent,
            PlaybackAction::Publish(2),
            PlaybackAction::RedrawAfterNs(100_000_000)
        ]
    );
    p.step(&f, &mut i, redraw(120));
    assert_eq!(i, 1);
}

#[test]
fn playing_jumps_into_range() {
    let f = frames(4, 100);
    let p = Playback::new(4).playing(true).trim(1, 3);
    let mut i = 3usize;
    let a = p.step(&f, &mut i, PlaybackEvent::Other);
    assert_eq!(i, 1);
    assert_eq!(a, vec![PlaybackAction::RestartClock, PlaybackAction::Publish(1)]);
    let mut j = 0usize;
    let a = p.step(&f, &mut j, redraw(500));
    assert_eq!(j, 1);
    assert_eq!(
        a,
        vec![
            PlaybackAction::RestartClock,
            PlaybackAction::Publish(1),
            PlaybackAction::RedrawAfterNs(100_000_000)
        ]
    );
}

#[test]
fn paused_follows_seek() {
    let f = frames(4, 100);
    let p = Playback::new(4).seek(2);
    let mut i = 0usize;
    assert_eq!(p.step(&f, &mut i, redraw(1000)), vec![PlaybackAction::RestartClock]);
    assert_eq!(i, 2);
    assert_eq!(p.step(&f, &mut i, redraw(1000)), vec![]);
    let q = Playback::new(4);
    let mut k = 3usize;
    assert_eq!(q.step(&f, &mut k, redraw(1000)), vec![]);
    assert_eq!(k, 3);
}

#[test]
fn empty_frames_do_nothing() {
    let f = frames(0, 100);
    let p = Playback::new(0).playing(true);
    let mut i = 0usize;
    assert_eq!(p.step(&f, &mut i, redraw(1000)), vec![]);
}

#[test]
fn empty_trim_keeps_jumping_to_its_start() {
    let f = frames(4, 100);
    let p = Playback::new(4).playing(true).trim(2, 2);
    let mut i = 0usize;
    for ev in [redraw(1000), PlaybackEvent::Other] {
        let a = p.step(&f, &mut i, ev);
        assert_eq!(i, 2);
        assert_eq!(a, vec![PlaybackAction::RestartClock, PlaybackAction::Publish(2)]);
    }
}

#[test]
fn empty_trim_at_end_stays_in_frames() {
    let f = frames(5, 100);
    let p = Playback::new(5).playing(true).trim(5, 5);
    let mut i = p.initial_index();
    assert_eq!(i, 4);
    for ev in [PlaybackEvent::Other, redraw(1000)] {
        let a = p.step(&f, &mut i, ev);
        assert_eq!(i, 4);
        assert!(a.is_empty());
    }
}
