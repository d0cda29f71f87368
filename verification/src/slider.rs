//! Value bookkeeping of the two-handle range slider and of the timeline
//! scrubber: clamping new values against the other handles and deciding
//! which changes are reported.
use vstd::prelude::*;

verus! {

/// `v` forced into `[start, end]` the way the widgets do it: below `start`
/// gives `start`, else above `end` gives `end`.
pub open spec fn clamp_into(v: int, start: int, end: int) -> int {
    if v < start {
        start
    } else if v > end {
        end
    } else {
        v
    }
}

fn clamp_value(v: i32, start: i32, end: i32) -> (r: i32)
    ensures
        r == clamp_into(v as int, start as int, end as int),
{
    if v < start {
        start
    } else if v > end {
        end
    } else {
        v
    }
}

/// A new low value may not pass the high one.
pub fn clamp_low(val: i32, high: i32) -> (r: i32)
    ensures
        r == (if val > high {
            high
        } else {
            val
        }),
{
    if val > high {
        high
    } else {
        val
    }
}

/// A new high value may not pass the low one.
pub fn clamp_high(val: i32, low: i32) -> (r: i32)
    ensures
        r == (if val < low {
            low
        } else {
            val
        }),
{
    if val < low {
        low
    } else {
        val
    }
}

/// Which handle of the range slider a gesture or key acts on.
#[derive(Debug, Clone, Copy, PartialEq, Eq, Structural)]
pub enum ActiveHandle {
    Low,
    High,
}

impl ActiveHandle {
    /// The handle Tab moves focus to.
    pub fn other(self) -> (r: ActiveHandle)
        ensures
            r == (match self {
                ActiveHandle::Low => ActiveHandle::High,
                ActiveHandle::High => ActiveHandle::Low,
            }),
    {
        match self {
            ActiveHandle::Low => ActiveHandle::High,
            ActiveHandle::High => ActiveHandle::Low,
        }
    }
}

/// The range and the selected `(low, high)` pair of a range slider.
#[derive(Debug, Clone, Copy, PartialEq, Eq, Structural)]
pub struct RangeValues {
    pub start: i32,
    pub end: i32,
    pub low: i32,
    pub high: i32,
}

impl RangeValues {
    /// Both values clamped into `[start, end]`, then ordered so that
    /// `low <= high`.
    pub fn new(start: i32, end: i32, values: (i32, i32)) -> (r: RangeValues)
        ensures
            r.start == start,
            r.end == end,
            r.low <= r.high,
            ({
                let a = clamp_into(values.0 as int, start as int, end as int);
                let b = clamp_into(values.1 as int, start as int, end as int);
                if a > b {
                    r.low == b && r.high == a
                } else {
                    r.low == a && r.high == b
                }
            }),
    {
        let mut lo = clamp_value(values.0, start, end);
        let mut hi = clamp_value(values.1, start, end);
        if lo > hi {
            let t = lo;
            lo = hi;
            hi = t;
        }
        RangeValues { start, end, low: lo, high: hi }
    }

    /// The value of a handle.
    pub fn value_of(&self, handle: ActiveHandle) -> (v: i32)
        ensures
            v == (match handle {
                ActiveHandle::Low => self.low,
                ActiveHandle::High => self.high,
            }),
    {
        match handle {
            ActiveHandle::Low => self.low,
            ActiveHandle::High => self.high,
        }
    }

    /// Move `handle` toward `val`, never past the other handle. Returns
    /// whether the pair changed (and so must be reported).
    pub fn set(&mut self, handle: ActiveHandle, val: i32) -> (changed: bool)
        ensures
            final(self).start == old(self).start,
            final(self).end == old(self).end,
            match handle {
                ActiveHandle::Low => {
                    &&& final(self).high == old(self).high
                    &&& final(self).low == (if val > old(self).high {
                        old(self).high
                    } else {
                        val
                    })
                },
                ActiveHandle::High => {
                    &&& final(self).low == old(self).low
                    &&& final(self).high == (if val < old(self).low {
                        old(self).low
                    } else {
                        val
                    })
                },
            },
            changed == (*final(self) != *old(self)),
    {
        match handle {
            ActiveHandle::Low => {
                let c = clamp_low(val, self.high);
                if c != self.low {
                    self.low = c;
                    true
                } else {
                    false
                }
            },
            ActiveHandle::High => {
                let c = clamp_high(val, self.low);
                if c != self.high {
                    self.high = c;
                    true
                } else {
                    false
                }
            },
        }
    }
}

/// What a scrubber gesture acts on.
#[derive(Debug, Clone, Copy, PartialEq, Eq, Structural)]
pub enum DragTarget {
    Playhead,
    TrimStart,
    TrimEnd,
}

impl DragTarget {
    /// The target Tab moves focus to: playhead, trim start, trim end, and round.
    pub fn next(self) -> (r: DragTarget)
        ensures
            r == (match self {
                DragTarget::Playhead => DragTarget::TrimStart,
                DragTarget::TrimStart => DragTarget::TrimEnd,
                DragTarget::TrimEnd => DragTarget::Playhead,
            }),
    {
        match self {
            DragTarget::Playhead => DragTarget::TrimStart,
            DragTarget::TrimStart => DragTarget::TrimEnd,
            DragTarget::TrimEnd => DragTarget::Playhead,
        }
    }
}

/// The values of a scrubber: its range, the playhead and the trim bracket.
#[derive(Debug, Clone, Copy, PartialEq, Eq, Structural)]
pub struct ScrubValues {
    pub start: i32,
    pub end: i32,
    pub position: i32,
    pub trim_start: i32,
    pub trim_end: i32,
}

/// What a scrubber change must report, in this order: the new playhead,
/// then the new trim bracket.
#[derive(Debug, Clone, Copy, PartialEq, Eq)]
pub struct ScrubReport {
    pub scrubbed: Option<i32>,
    pub trimmed: Option<(i32, i32)>,
}

impl ScrubValues {
    /// The playhead and both trim ends clamped into `[start, end]`, the trim
    /// ends ordered.
    pub fn new(start: i32, end: i32, position: i32, trim: (i32, i32)) -> (r: ScrubValues)
        ensures
            r.start == start,
            r.end == end,
            r.position == clamp_into(position as int, start as int, end as int),
            r.trim_start <= r.trim_end,
            ({
                let a = clamp_into(trim.0 as int, start as int, end as int);
                let b = clamp_into(trim.1 as int, start as int, end as int);
                if a > b {
                    r.trim_start == b && r.trim_end == a
                } else {
                    r.trim_start == a && r.trim_end == b
                }
            }),
    {
        let mut ts = clamp_value(trim.0, start, end);
        let mut te = clamp_value(trim.1, start, end);
        if ts > te {
            let t = ts;
            ts = te;
            te = t;
        }
        ScrubValues { start, end, position: clamp_value(position, start, end), trim_start: ts, trim_end: te }
    }

    /// The value a target currently has.
    pub fn value_for(&self, target: DragTarget) -> (v: i32)
        ensures
            v == (match target {
                DragTarget::Playhead => self.position,
                DragTarget::TrimStart => self.trim_start,
                DragTarget::TrimEnd => self.trim_end,
            }),
    {
        match target {
            DragTarget::Playhead => self.position,
            DragTarget::TrimStart => self.trim_start,
            DragTarget::TrimEnd => self.trim_end,
        }
    }

    /// Move `target` toward `val`.
    ///
    /// - The playhead is kept inside the trim bracket.
    /// - A trim end may not cross the other end; if it then leaves the
    ///   playhead outside, the playhead follows it.
    ///
    /// Nothing changes, and nothing is reported, when the clamped value is
    /// the current one.
    pub fn apply(&mut self, target: DragTarget, val: i32) -> (rep: ScrubReport)
        requires
            old(self).trim_start <= old(self).trim_end,
        ensures
            apply_effect(*old(self), target, val, *final(self), rep),
    {
        match target {
            DragTarget::Playhead => {
                let c = if val < self.trim_start {
                    self.trim_start
                } else if val > self.trim_end {
                    self.trim_end
                } else {
                    val
                };
                if c != self.position {
                    self.position = c;
                    ScrubReport { scrubbed: Some(c), trimmed: None }
                } else {
                    ScrubReport { scrubbed: None, trimmed: None }
                }
            },
            DragTarget::TrimStart => {
                let c = if val > self.trim_end {
                    self.trim_end
                } else {
                    val
                };
                if c != self.trim_start {
                    self.trim_start = c;
                    let mut scrubbed = None;
                    if self.position < self.trim_start {
                        self.position = self.trim_start;
                        scrubbed = Some(self.position);
                    }
                    ScrubReport { scrubbed, trimmed: Some((self.trim_start, self.trim_end)) }
                } else {
                    ScrubReport { scrubbed: None, trimmed: None }
                }
            },
            DragTarget::TrimEnd => {
                let c = if val < self.trim_start {
                    self.trim_start
                } else {
                    val
                };
                if c != self.trim_end {
                    self.trim_end = c;
                    let mut scrubbed = None;
                    if self.position > self.trim_end {
                        self.position = self.trim_end;
                        scrubbed = Some(self.position);
                    }
                    ScrubReport { scrubbed, trimmed: Some((self.trim_start, self.trim_end)) }
                } else {
                    ScrubReport { scrubbed: None, trimmed: None }
                }
            },
        }
    }
}

/// The exact effect of [`ScrubValues::apply`] from `s` to `f` with report `rep`.
pub open spec fn apply_effect(s: ScrubValues, target: DragTarget, val: i32, f: ScrubValues, rep: ScrubReport) -> bool {
    let unchanged = f == s && rep == (ScrubReport { scrubbed: None, trimmed: None });
    match target {
        DragTarget::Playhead => {
            let c = clamp_into(val as int, s.trim_start as int, s.trim_end as int);
            if c != s.position {
                f == (ScrubValues { position: c as i32, ..s }) && rep == (ScrubReport {
                    scrubbed: Some(c as i32),
                    trimmed: None,
                })
            } else {
                unchanged
            }
        },
        DragTarget::TrimStart => {
            let c = if val > s.trim_end {
                s.trim_end
            } else {
                val
            };
            if c != s.trim_start {
                let follows = s.position < c;
                &&& f == (ScrubValues {
                    trim_start: c,
                    position: if follows {
                        c
                    } else {
                        s.position
                    },
                    ..s
                })
                &&& rep == (ScrubReport {
                    scrubbed: if follows {
                        Some(c)
                    } else {
                        None
                    },
                    trimmed: Some((c, s.trim_end)),
                })
            } else {
                unchanged
            }
        },
        DragTarget::TrimEnd => {
            let c = if val < s.trim_start {
                s.trim_start
            } else {
                val
            };
            if c != s.trim_end {
                let follows = s.position > c;
                &&& f == (ScrubValues {
                    trim_end: c,
                    position: if follows {
                        c
                    } else {
                        s.position
                    },
                    ..s
                })
                &&& rep == (ScrubReport {
                    scrubbed: if follows {
                        Some(c)
                    } else {
                        None
                    },
                    trimmed: Some((s.trim_start, c)),
                })
            } else {
                unchanged
            }
        },
    }
}


/// Moving either handle of a range slider never lets the low value pass
/// the high one.
pub proof fn lemma_range_stays_ordered(before: RangeValues, handle: ActiveHandle, val: i32, after: RangeValues)
    requires
        before.low <= before.high,
        match handle {
            ActiveHandle::Low => after.high == before.high && after.low == (if val > before.high {
                before.high
            } else {
                val
            }),
            ActiveHandle::High => after.low == before.low && after.high == (if val < before.low {
                before.low
            } else {
                val
            }),
        },
    ensures
        after.low <= after.high,
{
}

/// Every scrubber change keeps the trim bracket ordered and, when the
/// playhead started inside the bracket, keeps it inside.
pub proof fn lemma_scrub_stays_ordered(s: ScrubValues, target: DragTarget, val: i32, f: ScrubValues, rep: ScrubReport)
    requires
        s.trim_start <= s.trim_end,
        apply_effect(s, target, val, f, rep),
    ensures
        f.trim_start <= f.trim_end,
        s.trim_start <= s.position <= s.trim_end ==> f.trim_start <= f.position <= f.trim_end,
{
}

/// A scrubber change that reports nothing changed nothing, and one that
/// changed something reports it.
pub proof fn lemma_scrub_reports_changes(s: ScrubValues, target: DragTarget, val: i32, f: ScrubValues, rep: ScrubReport)
    requires
        s.trim_start <= s.trim_end,
        apply_effect(s, target, val, f, rep),
    ensures
        (rep.scrubbed is None && rep.trimmed is None) <==> f == s,
        rep.scrubbed matches Some(v) ==> v == f.position && f.position != s.position,
        rep.trimmed matches Some(t) ==> t == (f.trim_start, f.trim_end),
{
}

/// A scrubber change only compares values and picks among them: every value
/// it leaves or reports is the requested one or one it already held. So
/// values of any ordered type can go through it encoded as their ranks.
pub proof fn lemma_scrub_picks_given_values(s: ScrubValues, target: DragTarget, val: i32, f: ScrubValues, rep: ScrubReport)
    requires
        s.trim_start <= s.trim_end,
        apply_effect(s, target, val, f, rep),
    ensures
        f.position == s.position || f.position == val || f.position == s.trim_start || f.position
            == s.trim_end,
        f.trim_start == s.trim_start || f.trim_start == val || f.trim_start == s.trim_end,
        f.trim_end == s.trim_end || f.trim_end == val || f.trim_end == s.trim_start,
        f.start == s.start && f.end == s.end,
{
}


/// Where a scrubber change leaves the playhead, from a state whose playhead
/// lies in its trim bracket. Moving the playhead puts it at the requested
/// value brought into the bracket. Moving a trim end puts that end at the
/// requested value unless it would cross the other end (then on the other
/// end), leaves the other end alone, and moves the playhead only when the
/// new bracket leaves it outside, and then to the nearest end of the
/// bracket.
pub proof fn lemma_scrub_playhead_nearest(s: ScrubValues, target: DragTarget, val: i32, f: ScrubValues, rep: ScrubReport)
    requires
        s.trim_start <= s.position <= s.trim_end,
        apply_effect(s, target, val, f, rep),
    ensures
        target is Playhead ==> {
            &&& f.trim_start == s.trim_start && f.trim_end == s.trim_end
            &&& f.position == (if val < s.trim_start {
                s.trim_start
            } else if val > s.trim_end {
                s.trim_end
            } else {
                val
            })
        },
        target is TrimStart ==> {
            &&& f.trim_end == s.trim_end
            &&& f.trim_start == (if val <= s.trim_end { val } else { s.trim_end })
        },
        target is TrimEnd ==> {
            &&& f.trim_start == s.trim_start
            &&& f.trim_end == (if val >= s.trim_start { val } else { s.trim_start })
        },
        !(target is Playhead) ==> {
            &&& (f.trim_start <= s.position <= f.trim_end ==> f.position == s.position)
            &&& (s.position < f.trim_start ==> f.position == f.trim_start)
            &&& (s.position > f.trim_end ==> f.position == f.trim_end)
        },
{
}

/// Visual status of a slider-like control.
#[derive(Debug, Clone, Copy, PartialEq, Eq, Structural)]
pub enum SliderStatus {
    Active,
    Hovered,
    Dragged,
}

/// Which handle is being dragged and which one the keyboard acts on.
#[derive(Debug, Clone, Copy, PartialEq, Eq, Structural)]
pub struct GestureState<H> {
    pub dragging: Option<H>,
    pub last_active: Option<H>,
}

impl<H: Copy> GestureState<H> {
    /// Nothing dragged, no handle focused yet.
    pub fn new() -> (g: Self)
        ensures
            g.dragging is None,
            g.last_active is None,
    {
        GestureState { dragging: None, last_active: None }
    }

    /// A press grabbed `target`: it is dragged and focused.
    pub fn press(&mut self, target: H)
        ensures
            final(self).dragging == Some(target),
            final(self).last_active == Some(target),
    {
        self.dragging = Some(target);
        self.last_active = Some(target);
    }

    /// The pointer was released. Returns whether a drag ended (and the
    /// release must be reported).
    pub fn release(&mut self) -> (ended: bool)
        ensures
            ended == old(self).dragging is Some,
            final(self).dragging is None,
            final(self).last_active == old(self).last_active,
    {
        let ended = self.dragging.is_some();
        self.dragging = None;
        ended
    }

    /// The handle under drag, if any.
    pub fn dragged(&self) -> (r: Option<H>)
        ensures
            r == self.dragging,
    {
        self.dragging
    }

    /// The handle keys act on: the last one used, else `default`.
    pub fn focus(&self, default: H) -> (h: H)
        ensures
            h == (match self.last_active {
                Some(x) => x,
                None => default,
            }),
    {
        match self.last_active {
            Some(x) => x,
            None => default,
        }
    }

    /// The handle a wheel notch acts on: the one nearest the cursor when
    /// the cursor is known, else the focused one.
    pub fn pick(&self, nearest: Option<H>, default: H) -> (h: H)
        ensures
            h == (match nearest {
                Some(x) => x,
                None => match self.last_active {
                    Some(x) => x,
                    None => default,
                },
            }),
    {
        match nearest {
            Some(x) => x,
            None => self.focus(default),
        }
    }

    /// Move keyboard focus to `h`.
    pub fn set_focus(&mut self, h: H)
        ensures
            final(self).last_active == Some(h),
            final(self).dragging == old(self).dragging,
    {
        self.last_active = Some(h);
    }

    /// Status from the drag state and whether the cursor is over the control.
    pub fn status(&self, over: bool) -> (st: SliderStatus)
        ensures
            st == (if self.dragging is Some {
                SliderStatus::Dragged
            } else if over {
                SliderStatus::Hovered
            } else {
                SliderStatus::Active
            }),
    {
        if self.dragging.is_some() {
            SliderStatus::Dragged
        } else if over {
            SliderStatus::Hovered
        } else {
            SliderStatus::Active
        }
    }
}

/// An input to a range slider, with the geometry already measured: the
/// handle nearest the pointer and the stepped values the pointer or a nudge
/// asks for.
#[derive(Debug, Clone, Copy, PartialEq, Eq, Structural)]
pub enum SliderInput {
    /// A press on the track: `handle` is the nearest handle, `value` the
    /// stepped value under the pointer, if it has one.
    Press { handle: ActiveHandle, value: Option<i32> },
    /// The pointer was released.
    Release,
    /// The pointer moved; `value` is the stepped value under it, if any.
    Move { value: Option<i32> },
    /// A step up or down (wheel notch or arrow key): `nearest` is the handle
    /// nearest the pointer (for the wheel, when known), `low` and `high`
    /// the values each handle would step to.
    Nudge { nearest: Option<ActiveHandle>, low: Option<i32>, high: Option<i32> },
    /// Tab: keys move to the other handle.
    Tab,
    /// Anything else.
    Other,
}

/// What a range slider must do after an input.
#[derive(Debug, Clone, Copy, PartialEq, Eq, Structural)]
pub struct SliderOutcome {
    /// The pair changed: report the new `(low, high)`.
    pub changed: bool,
    /// A drag ended: report the release.
    pub released: bool,
    /// The input was used up.
    pub capture: bool,
}

/// `v` with `handle` moved toward `val`, never past the other handle.
pub open spec fn set_result(v: RangeValues, handle: ActiveHandle, val: i32) -> RangeValues {
    match handle {
        ActiveHandle::Low => RangeValues {
            low: if val > v.high {
                v.high
            } else {
                val
            },
            ..v
        },
        ActiveHandle::High => RangeValues {
            high: if val < v.low {
                v.low
            } else {
                val
            },
            ..v
        },
    }
}

/// The handle keys act on: the last one used, else the low one.
pub open spec fn focused(g: GestureState<ActiveHandle>) -> ActiveHandle {
    match g.last_active {
        Some(h) => h,
        None => ActiveHandle::Low,
    }
}

/// The handle and value an input asks to move, if any.
pub open spec fn slider_target(g: GestureState<ActiveHandle>, input: SliderInput) -> Option<(ActiveHandle, i32)> {
    match input {
        SliderInput::Press { handle, value } => match value {
            Some(x) => Some((handle, x)),
            None => None,
        },
        SliderInput::Move { value } => match (g.dragging, value) {
            (Some(h), Some(x)) => Some((h, x)),
            _ => None,
        },
        SliderInput::Nudge { nearest, low, high } => {
            let h = match nearest {
                Some(n) => n,
                None => focused(g),
            };
            match (if h == ActiveHandle::Low {
                low
            } else {
                high
            }) {
                Some(x) => Some((h, x)),
                None => None,
            }
        },
        _ => None,
    }
}

/// The gesture state after an input.
pub open spec fn gesture_after(g: GestureState<ActiveHandle>, input: SliderInput) -> GestureState<ActiveHandle> {
    match input {
        SliderInput::Press { handle, .. } => GestureState { dragging: Some(handle), last_active: Some(handle) },
        SliderInput::Release => GestureState { dragging: None, ..g },
        SliderInput::Tab => GestureState {
            last_active: Some(
                match focused(g) {
                    ActiveHandle::Low => ActiveHandle::High,
                    ActiveHandle::High => ActiveHandle::Low,
                },
            ),
            ..g
        },
        _ => g,
    }
}

/// Whether an input is used up.
pub open spec fn slider_captures(g: GestureState<ActiveHandle>, input: SliderInput) -> bool {
    match input {
        SliderInput::Press { .. } | SliderInput::Nudge { .. } | SliderInput::Tab => true,
        SliderInput::Move { .. } => g.dragging is Some,
        _ => false,
    }
}

/// One input to a range slider.
///
/// - A press grabs and focuses the nearest handle and moves it to the value
///   under the pointer.
/// - A move while dragging moves the dragged handle to the value under the
///   pointer.
/// - A release ends a drag (reported only if one was going on).
/// - A nudge steps the handle nearest the pointer, else the focused one.
/// - Tab focuses the other handle.
///
/// A handle never passes the other one, and a change is reported exactly
/// when the pair changed.
pub fn slider_update(values: &mut RangeValues, gesture: &mut GestureState<ActiveHandle>, input: SliderInput) -> (out: SliderOutcome)
    ensures
        *final(values) == (match slider_target(*old(gesture), input) {
            Some((h, x)) => set_result(*old(values), h, x),
            None => *old(values),
        }),
        *final(gesture) == gesture_after(*old(gesture), input),
        out.changed == (*final(values) != *old(values)),
        out.released == (input is Release && old(gesture).dragging is Some),
        out.capture == slider_captures(*old(gesture), input),
{
    let mut out = SliderOutcome { changed: false, released: false, capture: false };
    match input {
        SliderInput::Press { handle, value } => {
            gesture.press(handle);
            if let Some(x) = value {
                out.changed = values.set(handle, x);
            }
            out.capture = true;
        },
        SliderInput::Release => {
            out.released = gesture.release();
        },
        SliderInput::Move { value } => {
            if let Some(h) = gesture.dragged() {
                if let Some(x) = value {
                    out.changed = values.set(h, x);
                }
                out.capture = true;
            }
        },
        SliderInput::Nudge { nearest, low, high } => {
            let h = gesture.pick(nearest, ActiveHandle::Low);
            let v = match h {
                ActiveHandle::Low => low,
                ActiveHandle::High => high,
            };
            if let Some(x) = v {
                out.changed = values.set(h, x);
            }
            out.capture = true;
        },
        SliderInput::Tab => {
            let h = gesture.focus(ActiveHandle::Low);
            gesture.set_focus(h.other());
            out.capture = true;
        },
        SliderInput::Other => {},
    }
    out
}

/// Whether every value an input asks for lies in `[start, end]`.
pub open spec fn input_in_range(input: SliderInput, start: int, end: int) -> bool {
    let ok = |v: Option<i32>|
        match v {
            Some(x) => start <= x <= end,
            None => true,
        };
    match input {
        SliderInput::Press { value, .. } => ok(value),
        SliderInput::Move { value } => ok(value),
        SliderInput::Nudge { low, high, .. } => ok(low) && ok(high),
        _ => true,
    }
}

/// A range slider whose handles lie in its range, in order, keeps them so
/// through any input whose asked-for values lie in the range; the range
/// itself never changes.
pub proof fn lemma_slider_keeps_range(v: RangeValues, g: GestureState<ActiveHandle>, input: SliderInput)
    requires
        v.start <= v.low <= v.high <= v.end,
        input_in_range(input, v.start as int, v.end as int),
    ensures
        ({
            let f = match slider_target(g, input) {
                Some((h, x)) => set_result(v, h, x),
                None => v,
            };
            &&& f.start == v.start && f.end == v.end
            &&& f.start <= f.low <= f.high <= f.end
        }),
{
}

/// Each input moves at most one handle, and the pair changes exactly when
/// its `(low, high)` values do (which is when [`slider_update`] reports
/// it); after a release nothing is dragged.
pub proof fn lemma_slider_reports(v: RangeValues, g: GestureState<ActiveHandle>, input: SliderInput)
    ensures
        ({
            let f = match slider_target(g, input) {
                Some((h, x)) => set_result(v, h, x),
                None => v,
            };
            &&& f.low == v.low || f.high == v.high
            &&& (f != v) == ((f.low, f.high) != (v.low, v.high))
            &&& input is Release ==> gesture_after(g, input).dragging is None
        }),
{
}

/// An input to a scrubber, with the geometry already measured: the target
/// under the pointer and the stepped values the pointer or a key asks for.
#[derive(Debug, Clone, Copy, PartialEq, Eq, Structural)]
pub enum ScrubInput {
    /// A press: `target` is what lies under the pointer, `value` the stepped
    /// value there, if it has one.
    Press { target: DragTarget, value: Option<i32> },
    /// The pointer was released.
    Release,
    /// The pointer moved; `value` is the stepped value under it, if any.
    Move { value: Option<i32> },
    /// An arrow key: the value each target would step to.
    Nudge { playhead: Option<i32>, trim_start: Option<i32>, trim_end: Option<i32> },
    /// Tab: keys move to the next target.
    Tab,
    /// Anything else.
    Other,
}

/// What a scrubber must do after an input.
#[derive(Debug, Clone, Copy, PartialEq, Eq)]
pub struct ScrubOutcome {
    /// What changed, to be reported in order: playhead, then trim bracket.
    pub report: ScrubReport,
    /// A drag ended: report the release.
    pub released: bool,
    /// The input was used up.
    pub capture: bool,
}

/// The target keys act on: the last one used, else the playhead.
pub open spec fn scrub_focused(g: GestureState<DragTarget>) -> DragTarget {
    match g.last_active {
        Some(t) => t,
        None => DragTarget::Playhead,
    }
}

/// The target and value a scrubber input asks to move, if any.
pub open spec fn scrub_target(g: GestureState<DragTarget>, input: ScrubInput) -> Option<(DragTarget, i32)> {
    match input {
        ScrubInput::Press { target, value } => match value {
            Some(x) => Some((target, x)),
            None => None,
        },
        ScrubInput::Move { value } => match (g.dragging, value) {
            (Some(t), Some(x)) => Some((t, x)),
            _ => None,
        },
        ScrubInput::Nudge { playhead, trim_start, trim_end } => {
            let t = scrub_focused(g);
            match (match t {
                DragTarget::Playhead => playhead,
                DragTarget::TrimStart => trim_start,
                DragTarget::TrimEnd => trim_end,
            }) {
                Some(x) => Some((t, x)),
                None => None,
            }
        },
        _ => None,
    }
}

/// The scrubber's gesture state after an input.
pub open spec fn scrub_gesture_after(g: GestureState<DragTarget>, input: ScrubInput) -> GestureState<DragTarget> {
    match input {
        ScrubInput::Press { target, .. } => GestureState { dragging: Some(target), last_active: Some(target) },
        ScrubInput::Release => GestureState { dragging: None, ..g },
        ScrubInput::Tab => GestureState {
            last_active: Some(
                match scrub_focused(g) {
                    DragTarget::Playhead => DragTarget::TrimStart,
                    DragTarget::TrimStart => DragTarget::TrimEnd,
                    DragTarget::TrimEnd => DragTarget::Playhead,
                },
            ),
            ..g
        },
        _ => g,
    }
}

/// Whether a scrubber input is used up.
pub open spec fn scrub_captures(g: GestureState<DragTarget>, input: ScrubInput) -> bool {
    match input {
        ScrubInput::Press { .. } | ScrubInput::Nudge { .. } | ScrubInput::Tab => true,
        ScrubInput::Move { .. } => g.dragging is Some,
        _ => false,
    }
}

/// One input to a scrubber.
///
/// - A press grabs and focuses the target under the pointer and moves it
///   to the value there.
/// - A move while dragging moves the dragged target.
/// - A release ends a drag (reported only if one was going on).
/// - An arrow key steps the focused target (the playhead at first).
/// - Tab focuses the next target.
///
/// Each move goes through [`ScrubValues::apply`].
pub fn scrub_update(values: &mut ScrubValues, gesture: &mut GestureState<DragTarget>, input: ScrubInput) -> (out: ScrubOutcome)
    requires
        old(values).trim_start <= old(values).trim_end,
    ensures
        match scrub_target(*old(gesture), input) {
            Some((t, x)) => apply_effect(*old(values), t, x, *final(values), out.report),
            None => *final(values) == *old(values) && out.report == (ScrubReport {
                scrubbed: None,
                trimmed: None,
            }),
        },
        *final(gesture) == scrub_gesture_after(*old(gesture), input),
        out.released == (input is Release && old(gesture).dragging is Some),
        out.capture == scrub_captures(*old(gesture), input),
{
    let mut out = ScrubOutcome {
        report: ScrubReport { scrubbed: None, trimmed: None },
        released: false,
        capture: false,
    };
    match input {
        ScrubInput::Press { target, value } => {
            gesture.press(target);
            if let Some(x) = value {
                out.report = values.apply(target, x);
            }
            out.capture = true;
        },
        ScrubInput::Release => {
            out.released = gesture.release();
        },
        ScrubInput::Move { value } => {
            if let Some(t) = gesture.dragged() {
                if let Some(x) = value {
                    out.report = values.apply(t, x);
                }
                out.capture = true;
            }
        },
        ScrubInput::Nudge { playhead, trim_start, trim_end } => {
            let t = gesture.focus(DragTarget::Playhead);
            let v = match t {
                DragTarget::Playhead => playhead,
                DragTarget::TrimStart => trim_start,
                DragTarget::TrimEnd => trim_end,
            };
            if let Some(x) = v {
                out.report = values.apply(t, x);
            }
            out.capture = true;
        },
        ScrubInput::Tab => {
            let t = gesture.focus(DragTarget::Playhead);
            gesture.set_focus(t.next());
            out.capture = true;
        },
        ScrubInput::Other => {},
    }
    out
}

/// Whatever input a scrubber gets, its trim bracket stays ordered and a
/// playhead inside the bracket stays inside.
pub proof fn lemma_scrub_input_keeps_order(s: ScrubValues, g: GestureState<DragTarget>, input: ScrubInput, f: ScrubValues, rep: ScrubReport)
    requires
        s.trim_start <= s.trim_end,
        match scrub_target(g, input) {
            Some((t, x)) => apply_effect(s, t, x, f, rep),
            None => f == s,
        },
    ensures
        f.trim_start <= f.trim_end,
        s.trim_start <= s.position <= s.trim_end ==> f.trim_start <= f.position <= f.trim_end,
{
    if let Some((t, x)) = scrub_target(g, input) {
        lemma_scrub_stays_ordered(s, t, x, f, rep);
    }
}

/// The status to keep after an event, and whether to ask for a redraw: a
/// redraw event records the current status; any other event asks for a
/// redraw when the recorded status is out of date.
pub fn refresh_status(recorded: Option<SliderStatus>, current: SliderStatus, is_redraw: bool) -> (r: (Option<SliderStatus>, bool))
    ensures
        r == (if is_redraw {
            (Some(current), false)
        } else {
            (recorded, recorded is Some && recorded != Some(current))
        }),
{
    if is_redraw {
        (Some(current), false)
    } else {
        let stale = match recorded {
            Some(s) => s != current,
            None => false,
        };
        (recorded, stale)
    }
}

} // verus!
