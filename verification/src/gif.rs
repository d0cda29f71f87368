//! Pre-decoded animation frames and the frame-stepping logic of a player
//! that loops over a trimmed range of them.
use vstd::prelude::*;
use std::collections::hash_map::DefaultHasher;
use std::hash::Hasher;
use std::sync::Arc;
use vstd::std_specs::hash::DefaultHasherAdditionalSpecFns;

verus! {

/// One frame as the player sees it.
pub struct FrameView {
    pub width: u32,
    pub height: u32,
    pub pixels: Seq<u8>,
    pub delay_ms: nat,
}

#[derive(Clone)]
struct RawFrame {
    width: u32,
    height: u32,
    pixels: Arc<Vec<u8>>,
    delay_ms: u32,
}

/// Pre-decoded RGBA frames for playback, with an identity used to notice
/// when a player is handed a different set of frames.
#[derive(Clone)]
pub struct Frames {
    frames: Vec<RawFrame>,
    id: u64,
}

/// Little-endian bytes of a 64-bit value.
pub open spec fn le_bytes_u64(n: u64) -> Seq<u8> {
    seq![
        (n & 0xff) as u8,
        ((n >> 8u64) & 0xff) as u8,
        ((n >> 16u64) & 0xff) as u8,
        ((n >> 24u64) & 0xff) as u8,
        ((n >> 32u64) & 0xff) as u8,
        ((n >> 40u64) & 0xff) as u8,
        ((n >> 48u64) & 0xff) as u8,
        ((n >> 56u64) & 0xff) as u8,
    ]
}

/// Little-endian bytes of a 32-bit value.
pub open spec fn le_bytes_u32(n: u32) -> Seq<u8> {
    seq![
        (n & 0xff) as u8,
        ((n >> 8u32) & 0xff) as u8,
        ((n >> 16u32) & 0xff) as u8,
        ((n >> 24u32) & 0xff) as u8,
    ]
}

/// Identity of a frame set: the default hasher's digest of the frame count
/// and the per-frame delay, written as a machine word and a 32-bit word.
pub open spec fn frames_id(count: u64, delay_ms: u32) -> u64 {
    DefaultHasher::spec_finish(seq![le_bytes_u64(count), le_bytes_u32(delay_ms)])
}

fn bytes_u64(n: u64) -> (r: Vec<u8>)
    ensures
        r@ == le_bytes_u64(n),
{
    let r = vec![
        (n & 0xff) as u8,
        ((n >> 8u64) & 0xff) as u8,
        ((n >> 16u64) & 0xff) as u8,
        ((n >> 24u64) & 0xff) as u8,
        ((n >> 32u64) & 0xff) as u8,
        ((n >> 40u64) & 0xff) as u8,
        ((n >> 48u64) & 0xff) as u8,
        ((n >> 56u64) & 0xff) as u8,
    ];
    assert(r@ =~= le_bytes_u64(n));
    r
}

fn bytes_u32(n: u32) -> (r: Vec<u8>)
    ensures
        r@ == le_bytes_u32(n),
{
    let r = vec![
        (n & 0xff) as u8,
        ((n >> 8u32) & 0xff) as u8,
        ((n >> 16u32) & 0xff) as u8,
        ((n >> 24u32) & 0xff) as u8,
    ];
    assert(r@ =~= le_bytes_u32(n));
    r
}

impl Frames {
    /// The frames, in playback order.
    pub closed spec fn frames_view(&self) -> Seq<FrameView> {
        Seq::new(
            self.frames@.len(),
            |i: int|
                FrameView {
                    width: self.frames@[i].width,
                    height: self.frames@[i].height,
                    pixels: self.frames@[i].pixels@,
                    delay_ms: self.frames@[i].delay_ms as nat,
                },
        )
    }

    /// The identity of this frame set.
    pub closed spec fn spec_id(&self) -> u64 {
        self.id
    }

    /// Frames from `(width, height, rgba)` images, each shown for `delay_ms`.
    pub fn from_rgba(images: &[(u32, u32, &[u8])], delay_ms: u32) -> (f: Self)
        ensures
            f.frames_view().len() == images@.len(),
            forall|i: int|
                0 <= i < images@.len() ==> #[trigger] f.frames_view()[i] == (FrameView {
                    width: images@[i].0,
                    height: images@[i].1,
                    pixels: images@[i].2@,
                    delay_ms: delay_ms as nat,
                }),
            f.spec_id() == frames_id(images@.len() as u64, delay_ms),
    {
        let mut hasher = DefaultHasher::new();
        let n = images.len() as u64;
        let nb = bytes_u64(n);
        hasher.write(nb.as_slice());
        assert(hasher@ == seq![nb@]);
        let db = bytes_u32(delay_ms);
        hasher.write(db.as_slice());
        let mut frames: Vec<RawFrame> = Vec::new();
        let mut i: usize = 0;
        while i < images.len()
            invariant
                i <= images@.len(),
                frames@.len() == i,
                hasher@ == seq![nb@, db@],
                forall|j: int|
                    0 <= j < i ==> {
                        &&& #[trigger] frames@[j].width == images@[j].0
                        &&& frames@[j].height == images@[j].1
                        &&& frames@[j].pixels@ == images@[j].2@
                        &&& frames@[j].delay_ms == delay_ms
                    },
            decreases images.len() - i,
        {
            let (w, h, pixels) = images[i];
            let copy = vstd::slice::slice_to_vec(pixels);
            frames.push(RawFrame { width: w, height: h, pixels: Arc::new(copy), delay_ms });
            i = i + 1;
        }
        let id = hasher.finish();
        assert(seq![nb@, db@] =~= seq![le_bytes_u64(n), le_bytes_u32(delay_ms)]);
        let f = Frames { frames, id };
        assert forall|i: int| 0 <= i < images@.len() implies #[trigger] f.frames_view()[i] == (FrameView {
                    width: images@[i].0,
                    height: images@[i].1,
                    pixels: images@[i].2@,
                    delay_ms: delay_ms as nat,
                }) by {
            assert(f.frames@[i].width == images@[i].0);
        }
        f
    }

    /// Number of frames.
    pub fn len(&self) -> (n: usize)
        ensures
            n == self.frames_view().len(),
    {
        self.frames.len()
    }

    /// Whether there are no frames.
    pub fn is_empty(&self) -> (b: bool)
        ensures
            b == (self.frames_view().len() == 0),
    {
        self.frames.is_empty()
    }

    /// The identity of this frame set.
    pub fn id(&self) -> (r: u64)
        ensures
            r == self.spec_id(),
    {
        self.id
    }

    /// Width, height and RGBA pixels of frame `i`.
    pub fn frame(&self, i: usize) -> (r: (u32, u32, &Vec<u8>))
        requires
            i < self.frames_view().len(),
        ensures
            r.0 == self.frames_view()[i as int].width,
            r.1 == self.frames_view()[i as int].height,
            r.2@ == self.frames_view()[i as int].pixels,
    {
        let f = &self.frames[i];
        (f.width, f.height, &*f.pixels)
    }

    /// How long frame `i` stays on screen, in milliseconds.
    pub fn delay_ms(&self, i: usize) -> (r: u32)
        requires
            i < self.frames_view().len(),
        ensures
            r == self.frames_view()[i as int].delay_ms,
    {
        self.frames[i].delay_ms
    }
}


/// `a - b`, or 0 when `b > a`.
pub open spec fn sat_sub(a: int, b: int) -> int {
    if a >= b {
        a - b
    } else {
        0
    }
}

/// The smaller of two integers.
pub open spec fn min_int(a: int, b: int) -> int {
    if a <= b {
        a
    } else {
        b
    }
}

/// The larger of two integers.
pub open spec fn max_int(a: int, b: int) -> int {
    if a >= b {
        a
    } else {
        b
    }
}

/// What a player is asked to do with its frames: whether it plays, the
/// looped range `[trim_start, trim_end)` and, while paused, a frame to show.
#[derive(Debug, Clone, Copy, PartialEq, Eq, Structural)]
pub struct Playback {
    pub frame_count: usize,
    pub playing: bool,
    pub trim_start: usize,
    pub trim_end: usize,
    pub seek_index: Option<usize>,
}

/// Something the player must do after a step, in order.
#[derive(Debug, Clone, Copy, PartialEq, Eq, Structural)]
pub enum PlaybackAction {
    /// Restart the frame clock at the current instant.
    RestartClock,
    /// Restart the frame clock at the instant carried by the redraw event.
    RestartClockAtEvent,
    /// Report that frame `index` is now shown.
    Publish(usize),
    /// Ask for a redraw this many nanoseconds after the redraw event.
    RedrawAfterNs(u64),
}

/// An event handed to the player.
#[derive(Debug, Clone, Copy, PartialEq, Eq, Structural)]
pub enum PlaybackEvent {
    /// A redraw; `elapsed_ns` is how long the current frame has been shown.
    Redraw { elapsed_ns: u64 },
    /// Any other event.
    Other,
}

impl Playback {
    /// The trimmed range lies within the frames.
    pub open spec fn wf(&self) -> bool {
        self.trim_start <= self.trim_end <= self.frame_count
    }

    /// Paused, looping over all `frame_count` frames, no seek.
    pub fn new(frame_count: usize) -> (p: Self)
        ensures
            p.wf(),
            p.frame_count == frame_count,
            !p.playing,
            p.trim_start == 0,
            p.trim_end == frame_count,
            p.seek_index is None,
    {
        Playback { frame_count, playing: false, trim_start: 0, trim_end: frame_count, seek_index: None }
    }

    /// Set whether the player advances frames.
    pub fn playing(self, playing: bool) -> (p: Self)
        ensures
            p == (Playback { playing, ..self }),
    {
        Playback { playing, ..self }
    }

    /// Loop over frame indices `[start, end)`, clamped to the frames; an
    /// inverted range collapses to an empty one at `start`.
    pub fn trim(self, start: usize, end: usize) -> (p: Self)
        requires
            self.wf(),
        ensures
            p.wf(),
            p.trim_start == min_int(start as int, self.frame_count as int),
            p.trim_end == max_int(min_int(end as int, self.frame_count as int), p.trim_start as int),
            p == (Playback { trim_start: p.trim_start, trim_end: p.trim_end, ..self }),
    {
        let len = self.frame_count;
        let ts = if start < len { start } else { len };
        let te0 = if end < len { end } else { len };
        let te = if te0 > ts { te0 } else { ts };
        Playback { trim_start: ts, trim_end: te, ..self }
    }

    /// While paused, show frame `index` (clamped to the last frame).
    pub fn seek(self, index: usize) -> (p: Self)
        requires
            self.wf(),
        ensures
            p.wf(),
            p == (Playback {
                seek_index: Some(min_int(index as int, sat_sub(self.frame_count as int, 1)) as usize),
                ..self
            }),
    {
        let last = if self.frame_count > 0 { self.frame_count - 1 } else { 0 };
        let i = if index < last { index } else { last };
        Playback { seek_index: Some(i), ..self }
    }

    /// The frame shown when a player starts: the trim start, clamped to the
    /// last frame.
    pub fn initial_index(&self) -> (i: usize)
        ensures
            i == min_int(self.trim_start as int, sat_sub(self.frame_count as int, 1)),
    {
        let last = if self.frame_count > 0 { self.frame_count - 1 } else { 0 };
        if self.trim_start < last { self.trim_start } else { last }
    }

    /// Advance the player by one event. `index` is the frame being shown;
    /// the returned actions say what to do with the clock, whom to tell and
    /// when to redraw.
    ///
    /// - No frames: nothing happens.
    /// - Paused: a pending seek moves to its (clamped) frame, restarting the
    ///   clock if the frame changed.
    /// - Playing: a frame outside the trimmed range jumps to its start
    ///   (restart clock, report it), unless that start lies past the last
    ///   frame (an empty range at the very end), where nothing happens. An
    ///   empty range inside the frames keeps jumping to its start. On a
    ///   redraw over a non-empty range, a
    ///   frame shown for at least its delay gives way to the next one in the
    ///   range, wrapping to the start; otherwise a redraw is requested for
    ///   when its delay runs out. Right after a jump the frame counts as
    ///   just shown.
    pub fn step(&self, frames: &Frames, index: &mut usize, event: PlaybackEvent) -> (actions: Vec<
        PlaybackAction,
    >)
        requires
            self.wf(),
            self.frame_count == frames.frames_view().len(),
        ensures
            actions@ == step_actions(*self, frames.frames_view(), *old(index) as int, event),
            *final(index) as int == step_index(*self, frames.frames_view(), *old(index) as int, event),
    {
        let mut actions: Vec<PlaybackAction> = Vec::new();
        let len = frames.len();
        if len == 0 {
            return actions;
        }
        if !self.playing {
            if let Some(idx) = self.seek_index {
                let clamped = if idx < len - 1 { idx } else { len - 1 };
                if *index != clamped {
                    *index = clamped;
                    actions.push(PlaybackAction::RestartClock);
                }
            }
            return actions;
        }
        let mut restarted = false;
        if self.trim_start < len && (*index < self.trim_start || *index >= self.trim_end) {
            *index = self.trim_start;
            restarted = true;
            actions.push(PlaybackAction::RestartClock);
            actions.push(PlaybackAction::Publish(*index));
        }
        let ghost jump = actions@;
        assert(jump =~= (if restarted {
            seq![PlaybackAction::RestartClock, PlaybackAction::Publish(*index)]
        } else {
            seq![]
        }));
        if let PlaybackEvent::Redraw { elapsed_ns } = event {
            let trim_len = self.trim_end - self.trim_start;
            if trim_len == 0 {
                return actions;
            }
            let elapsed = if restarted { 0 } else { elapsed_ns };
            let delay = (frames.delay_ms(*index) as u64) * 1_000_000;
            if elapsed >= delay {
                let offset = *index - self.trim_start;
                let next_offset = (offset + 1) % trim_len;
                *index = self.trim_start + next_offset;
                actions.push(PlaybackAction::RestartClockAtEvent);
                actions.push(PlaybackAction::Publish(*index));
                let next_delay = (frames.delay_ms(*index) as u64) * 1_000_000;
                actions.push(PlaybackAction::RedrawAfterNs(next_delay));
                assert(actions@ =~= jump + seq![
                    PlaybackAction::RestartClockAtEvent,
                    PlaybackAction::Publish(*index),
                    PlaybackAction::RedrawAfterNs(next_delay),
                ]);
            } else {
                let remaining = delay - elapsed;
                actions.push(PlaybackAction::RedrawAfterNs(remaining));
                assert(actions@ =~= jump + seq![PlaybackAction::RedrawAfterNs(remaining)]);
            }
        }
        actions
    }
}

/// Whether a playing player must first jump to the start of its range:
/// it shows a frame outside the range, and that start is a frame.
pub open spec fn out_of_range(p: Playback, index: int) -> bool {
    p.trim_start < p.frame_count && (index < p.trim_start || index >= p.trim_end)
}

/// The frame a playing player jumps to before handling the event.
pub open spec fn in_range_index(p: Playback, index: int) -> int {
    if out_of_range(p, index) {
        p.trim_start as int
    } else {
        index
    }
}

/// Whether the shown frame has used up its delay on this redraw.
pub open spec fn frame_due(p: Playback, frames: Seq<FrameView>, index: int, elapsed_ns: u64) -> bool {
    let i = in_range_index(p, index);
    let elapsed = if out_of_range(p, index) { 0 } else { elapsed_ns as int };
    elapsed >= frames[i].delay_ms * 1_000_000
}

/// The frame after `i` in the looped range.
pub open spec fn next_in_range(p: Playback, i: int) -> int {
    p.trim_start + (i - p.trim_start + 1) % (p.trim_end - p.trim_start)
}

/// The frame shown after [`Playback::step`].
pub open spec fn step_index(p: Playback, frames: Seq<FrameView>, index: int, event: PlaybackEvent) -> int {
    if frames.len() == 0 {
        index
    } else if !p.playing {
        match p.seek_index {
            Some(s) => min_int(s as int, frames.len() - 1),
            None => index,
        }
    } else {
        let i = in_range_index(p, index);
        match event {
            PlaybackEvent::Redraw { elapsed_ns } => if p.trim_end > p.trim_start && frame_due(
                p,
                frames,
                index,
                elapsed_ns,
            ) {
                next_in_range(p, i)
            } else {
                i
            },
            PlaybackEvent::Other => i,
        }
    }
}

/// The actions [`Playback::step`] returns.
pub open spec fn step_actions(p: Playback, frames: Seq<FrameView>, index: int, event: PlaybackEvent) -> Seq<PlaybackAction> {
    if frames.len() == 0 {
        seq![]
    } else if !p.playing {
        match p.seek_index {
            Some(s) => if min_int(s as int, frames.len() - 1) != index {
                seq![PlaybackAction::RestartClock]
            } else {
                seq![]
            },
            None => seq![],
        }
    } else {
        let i = in_range_index(p, index);
        let jump = if out_of_range(p, index) {
            seq![PlaybackAction::RestartClock, PlaybackAction::Publish(i as usize)]
        } else {
            seq![]
        };
        match event {
            PlaybackEvent::Redraw { elapsed_ns } => if p.trim_end <= p.trim_start {
                jump
            } else if frame_due(p, frames, index, elapsed_ns) {
                let n = next_in_range(p, i);
                jump + seq![
                    PlaybackAction::RestartClockAtEvent,
                    PlaybackAction::Publish(n as usize),
                    PlaybackAction::RedrawAfterNs((frames[n].delay_ms * 1_000_000) as u64),
                ]
            } else {
                let elapsed = if out_of_range(p, index) { 0 } else { elapsed_ns as int };
                jump + seq![PlaybackAction::RedrawAfterNs((frames[i].delay_ms * 1_000_000 - elapsed) as u64)]
            },
            PlaybackEvent::Other => jump,
        }
    }
}


/// A playing player over a non-empty trimmed range always ends a step on a
/// frame inside that range.
pub proof fn lemma_playing_stays_in_range(p: Playback, frames: Seq<FrameView>, index: int, event: PlaybackEvent)
    requires
        p.wf(),
        p.frame_count == frames.len(),
        p.playing,
        p.trim_start < p.trim_end,
    ensures
        p.trim_start <= step_index(p, frames, index, event) < p.trim_end,
{
    let i = in_range_index(p, index);
    let len = p.trim_end - p.trim_start;
    assert(0 <= (i - p.trim_start + 1) % len < len) by {
        vstd::arithmetic::div_mod::lemma_mod_bound(i - p.trim_start + 1, len as int);
    }
}

/// Stepping a playing player past the last frame of its range wraps around
/// to the first one.
pub proof fn lemma_playback_wraps(p: Playback, frames: Seq<FrameView>, elapsed_ns: u64)
    requires
        p.wf(),
        p.frame_count == frames.len(),
        p.playing,
        p.trim_start < p.trim_end,
        elapsed_ns >= frames[p.trim_end - 1].delay_ms * 1_000_000,
    ensures
        step_index(p, frames, p.trim_end - 1, PlaybackEvent::Redraw { elapsed_ns }) == p.trim_start,
{
    let len = p.trim_end - p.trim_start;
    assert((p.trim_end - 1 - p.trim_start + 1) % len == 0) by {
        vstd::arithmetic::div_mod::lemma_mod_self_0(len as int);
    }
}

/// A due frame gives way to the very next one when it is not the last of
/// the range.
pub proof fn lemma_playback_advances(p: Playback, frames: Seq<FrameView>, index: int, elapsed_ns: u64)
    requires
        p.wf(),
        p.frame_count == frames.len(),
        p.playing,
        p.trim_start <= index < p.trim_end - 1,
        elapsed_ns >= frames[index].delay_ms * 1_000_000,
    ensures
        step_index(p, frames, index, PlaybackEvent::Redraw { elapsed_ns }) == index + 1,
{
    let len = p.trim_end - p.trim_start;
    assert((index - p.trim_start + 1) % len == index - p.trim_start + 1) by {
        vstd::arithmetic::div_mod::lemma_small_mod((index - p.trim_start + 1) as nat, len as nat);
    }
}

/// A step from a shown frame never moves to, or reports, an index past the
/// last frame.
pub proof fn lemma_step_stays_in_frames(p: Playback, frames: Seq<FrameView>, index: int, event: PlaybackEvent)
    requires
        p.wf(),
        p.frame_count == frames.len(),
        0 <= index < frames.len(),
    ensures
        0 <= step_index(p, frames, index, event) < frames.len(),
        forall|k: int|
            0 <= k < step_actions(p, frames, index, event).len() ==> match #[trigger] step_actions(
                p,
                frames,
                index,
                event,
            )[k] {
                PlaybackAction::Publish(i) => i < frames.len(),
                _ => true,
            },
{
    if p.playing && p.trim_start < p.trim_end && frames.len() > 0 {
        lemma_playing_stays_in_range(p, frames, index, event);
        let i = in_range_index(p, index);
        let len = p.trim_end - p.trim_start;
        assert(0 <= (i - p.trim_start + 1) % len < len) by {
            vstd::arithmetic::div_mod::lemma_mod_bound(i - p.trim_start + 1, len as int);
        }
    }
}

/// A paused player with a pending seek shows the sought frame (clamped to
/// the last one), whatever the event.
pub proof fn lemma_paused_shows_seek(p: Playback, frames: Seq<FrameView>, index: int, event: PlaybackEvent, seek: usize)
    requires
        !p.playing,
        p.seek_index == Some(seek),
        frames.len() > 0,
    ensures
        step_index(p, frames, index, event) == min_int(seek as int, frames.len() - 1),
{
}

} // verus!
