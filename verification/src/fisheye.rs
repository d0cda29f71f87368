//! Index logic shared by the fisheye rows: which item is active, the
//! z-order in which overlapping items are drawn, and the paged window of
//! visible items with its overflow counts.
use vstd::prelude::*;

verus! {

/// Distance between two item indices.
pub open spec fn dist(a: int, b: int) -> int {
    if a >= b {
        a - b
    } else {
        b - a
    }
}

/// `a` is drawn before `b`: it is farther from the pivot, or as far and to
/// its left.
pub open spec fn drawn_before(a: int, b: int, pivot: int) -> bool {
    dist(a, pivot) > dist(b, pivot) || (dist(a, pivot) == dist(b, pivot) && a < b)
}

/// The active index, clamped to the last item (0 when there are none).
pub fn active_clamped(active: usize, n: usize) -> (r: usize)
    ensures
        r == (if n == 0 {
            0
        } else if active < n {
            active as int
        } else {
            n - 1
        }),
{
    let last = if n > 0 { n - 1 } else { 0 };
    if active < last { active } else { last }
}

/// Draw order of the items `start..start + count` around `pivot`: farthest
/// first, so the pivot item ends on top; items equally far keep index order.
/// This is the order a stable sort by decreasing distance gives.
pub fn draw_order(start: usize, count: usize, pivot: usize) -> (order: Vec<usize>)
    requires
        start + count <= usize::MAX,
    ensures
        order@.len() == count,
        forall|k: int| 0 <= k < count ==> start <= #[trigger] order@[k] < start + count,
        forall|k1: int, k2: int|
            0 <= k1 < k2 < count ==> drawn_before(
                #[trigger] order@[k1] as int,
                #[trigger] order@[k2] as int,
                pivot as int,
            ),
        forall|k1: int, k2: int|
            0 <= k1 < count && 0 <= k2 < count && k1 != k2 ==> #[trigger] order@[k1]
                != #[trigger] order@[k2],
        forall|v: int| start <= v < start + count ==> #[trigger] order@.contains(v as usize),
{
    let mut order: Vec<usize> = Vec::new();
    let mut lo = start;
    let mut hi = start + count;
    let ghost p = pivot as int;
    while lo < hi
        invariant
            p == pivot as int,
            start <= lo <= hi <= start + count,
            start + count <= usize::MAX,
            order@.len() == (lo - start) + (start + count - hi),
            forall|k: int|
                0 <= k < order@.len() ==> (start <= #[trigger] order@[k] < lo || hi <= order@[k]
                    < start + count),
            forall|k1: int, k2: int|
                0 <= k1 < k2 < order@.len() ==> drawn_before(
                    #[trigger] order@[k1] as int,
                    #[trigger] order@[k2] as int,
                    p,
                ),
            forall|v: int|
                (start <= v < lo || hi <= v < start + count) ==> #[trigger] order@.contains(
                    v as usize,
                ),
            forall|k: int, x: int|
                0 <= k < order@.len() && lo <= x < hi ==> #[trigger] drawn_before(
                    order@[k] as int,
                    x,
                    p,
                ),
        decreases hi - lo,
    {
        let dl = if lo >= pivot { lo - pivot } else { pivot - lo };
        let dh = if hi - 1 >= pivot { hi - 1 - pivot } else { pivot - (hi - 1) };
        assert(dl == dist(lo as int, p));
        assert(dh == dist(hi - 1, p));
        if dl >= dh {
            assert forall|x: int| lo < x < hi implies #[trigger] drawn_before(lo as int, x, p) by {
                assert(dist(x, p) <= dist(lo as int, p) || dist(x, p) <= dist(hi - 1, p));
            }
            let ghost before = order@;
            order.push(lo);
            proof {
                assert forall|v: int| (start <= v < lo + 1 || hi <= v < start + count) implies #[trigger] order@.contains(v as usize) by {
                    if v == lo {
                        assert(order@[order@.len() - 1] == lo);
                    } else {
                        assert(before.contains(v as usize));
                        let k = choose|k: int| 0 <= k < before.len() && before[k] == v as usize;
                        assert(order@[k] == v as usize);
                    }
                }
            }
            lo = lo + 1;
        } else {
            assert forall|x: int| lo <= x < hi - 1 implies #[trigger] drawn_before(hi - 1, x, p) by {
                assert(dist(x, p) < dist(hi - 1, p));
            }
            let ghost before = order@;
            hi = hi - 1;
            order.push(hi);
            proof {
                assert forall|v: int| (start <= v < lo || hi <= v < start + count) implies #[trigger] order@.contains(v as usize) by {
                    if v == hi {
                        assert(order@[order@.len() - 1] == hi);
                    } else {
                        assert(before.contains(v as usize));
                        let k = choose|k: int| 0 <= k < before.len() && before[k] == v as usize;
                        assert(order@[k] == v as usize);
                    }
                }
            }
        }
    }
    assert forall|k1: int, k2: int|
        0 <= k1 < count && 0 <= k2 < count && k1 != k2 implies #[trigger] order@[k1]
        != #[trigger] order@[k2] by {
        if k1 < k2 {
            assert(drawn_before(order@[k1] as int, order@[k2] as int, p));
        } else {
            assert(drawn_before(order@[k2] as int, order@[k1] as int, p));
        }
    }
    order
}


/// `a - b`, or 0 when `b > a`.
pub open spec fn sat_sub(a: int, b: int) -> int {
    if a >= b {
        a - b
    } else {
        0
    }
}

/// The smaller of two integers.
pub open spec fn min_of(a: int, b: int) -> int {
    if a <= b {
        a
    } else {
        b
    }
}

/// Side of the visible window (and of its overflow cap).
#[derive(Debug, Clone, Copy, PartialEq, Eq, Structural)]
pub enum Side {
    Left,
    Right,
}

/// The window start centring item `focal` among `count` of `n` items.
pub open spec fn centred_start(n: int, count: int, focal: int) -> int {
    min_of(sat_sub(focal, count / 2), sat_sub(n, count))
}

/// The window start after panning `start` by `step` items toward `side`.
pub open spec fn paged_start(start: int, n: int, count: int, side: Side, step: int) -> int {
    match side {
        Side::Left => sat_sub(start, step),
        Side::Right => min_of(start + step, sat_sub(n, count)),
    }
}

/// Window start that centres item `focal` among `count` visible items out
/// of `n`, without running past the last full window.
pub fn centre_start(n: usize, count: usize, focal: usize) -> (r: usize)
    ensures
        r == centred_start(n as int, count as int, focal as int),
{
    let a = if focal >= count / 2 { focal - count / 2 } else { 0 };
    let b = if n >= count { n - count } else { 0 };
    if a <= b { a } else { b }
}

/// The window start to draw with: the paged `window_start` while the user
/// drives the row (hover or keyboard focus), else the one centring the
/// active item.
pub fn effective_start(driving: bool, window_start: usize, n: usize, count: usize, active: usize) -> (r: usize)
    ensures
        r == (if driving {
            min_of(window_start as int, sat_sub(n as int, count as int))
        } else {
            let a = if n == 0 {
                0
            } else {
                min_of(active as int, n - 1)
            };
            min_of(sat_sub(a, count as int / 2), sat_sub(n as int, count as int))
        }),
{
    if driving {
        let b = if n >= count { n - count } else { 0 };
        if window_start <= b { window_start } else { b }
    } else {
        centre_start(n, count, active_clamped(active, n))
    }
}

/// The visible window of `count` items out of `n` starting near
/// `window_start`: its actual start and how many items are hidden on the
/// left and on the right.
pub fn window_span(n: usize, count: usize, window_start: usize) -> (r: (usize, usize, usize))
    requires
        count <= n,
    ensures
        r.0 == min_of(window_start as int, n - count),
        r.1 == r.0,
        r.2 == n - r.0 - count,
        r.1 + count + r.2 == n,
{
    let start = if window_start <= n - count { window_start } else { n - count };
    (start, start, n - start - count)
}

/// Pan the window start by `step` items toward `side`, staying in range.
pub fn page(start: usize, n: usize, count: usize, side: Side, step: usize) -> (r: usize)
    ensures
        r == paged_start(start as int, n as int, count as int, side, step as int),
{
    match side {
        Side::Left => if start >= step { start - step } else { 0 },
        Side::Right => {
            let max_start = if n >= count { n - count } else { 0 };
            if start >= max_start || step >= max_start - start { max_start } else { start + step }
        },
    }
}

/// Move the window start just enough that item `idx` is visible.
pub fn reveal_item(start: usize, n: usize, count: usize, idx: usize) -> (r: usize)
    ensures
        r == revealed_start(start as int, n as int, count as int, idx as int),
{
    let max_start = if n >= count { n - count } else { 0 };
    if idx < start {
        if idx <= max_start { idx } else { max_start }
    } else if idx - start >= count {
        if count == 0 {
            if idx < max_start { idx + 1 } else { max_start }
        } else {
            let a = idx - (count - 1);
            if a <= max_start { a } else { max_start }
        }
    } else {
        if start <= max_start { start } else { max_start }
    }
}

/// Keys that move the keyboard focus along a row.
#[derive(Debug, Clone, Copy, PartialEq, Eq, Structural)]
pub enum NavKey {
    Left,
    Right,
    Home,
    End,
}

/// The keyboard focal item after a navigation key, over `n > 0` items.
pub fn move_focal(focal: usize, n: usize, key: NavKey) -> (r: usize)
    requires
        n > 0,
    ensures
        r == (match key {
            NavKey::Left => sat_sub(focal as int, 1),
            NavKey::Right => min_of(focal + 1, n - 1),
            NavKey::Home => 0,
            NavKey::End => n - 1,
        }),
{
    match key {
        NavKey::Left => if focal > 0 { focal - 1 } else { 0 },
        NavKey::Right => if focal < n - 1 { focal + 1 } else { n - 1 },
        NavKey::Home => 0,
        NavKey::End => n - 1,
    }
}


/// In a draw order, an item inside the range that is the pivot comes last,
/// so it is drawn on top of the others.
pub proof fn lemma_pivot_drawn_last(order: Seq<usize>, start: int, count: int, pivot: int)
    requires
        count > 0,
        0 <= start,
        start + count <= usize::MAX,
        start <= pivot < start + count,
        order.len() == count,
        forall|k: int| 0 <= k < count ==> start <= #[trigger] order[k] < start + count,
        forall|k1: int, k2: int|
            0 <= k1 < k2 < count ==> drawn_before(
                #[trigger] order[k1] as int,
                #[trigger] order[k2] as int,
                pivot,
            ),
        forall|v: int| start <= v < start + count ==> #[trigger] order.contains(v as usize),
    ensures
        order[count - 1] == pivot,
{
    if order[count - 1] != pivot {
        assert(order.contains(pivot as usize));
        let pos = choose|k: int| 0 <= k < order.len() && order[k] == pivot as usize;
        assert(pos < count - 1);
        assert(drawn_before(order[pos] as int, order[count - 1] as int, pivot));
        assert(order[pos] as int == pivot);
    }
}

/// Revealing an item puts it inside the visible window, which stays within
/// the row.
pub proof fn lemma_reveal_shows_item(start: int, n: int, count: int, idx: int)
    requires
        0 <= start,
        1 <= count <= n,
        0 <= idx < n,
    ensures
        0 <= revealed_start(start, n, count, idx) <= n - count,
        revealed_start(start, n, count, idx) <= idx < revealed_start(start, n, count, idx) + count,
{
}

/// Centring on an item keeps the window within the row and shows the item.
pub proof fn lemma_centre_shows_item(n: int, count: int, focal: int)
    requires
        1 <= count <= n,
        0 <= focal < n,
    ensures
        0 <= centred_start(n, count, focal) <= n - count,
        centred_start(n, count, focal) <= focal < centred_start(n, count, focal) + count,
{
}

/// Paging never moves the window start past the last full window.
pub proof fn lemma_page_in_bounds(start: int, n: int, count: int, side: Side, step: int)
    requires
        0 <= count <= n,
        0 <= start <= n - count,
        0 <= step,
    ensures
        0 <= paged_start(start, n, count, side, step) <= n - count,
{
}


/// Interaction state of a windowed fisheye row: hover, keyboard focus,
/// the paged window start and the keyboard focal item. The row's geometry
/// (how many items fit, what lies under the cursor) is measured by the
/// caller and handed in as `n` items, `count` visible ones, a cap side or
/// an item index.
#[derive(Debug, Clone, Copy, PartialEq, Eq, Structural)]
pub struct RowWindow {
    pub is_inside: bool,
    pub is_focused: bool,
    pub last_focused: bool,
    pub window_start: usize,
    pub keyboard_focal: usize,
    /// Whether a dwell over a cap is being timed.
    pub paging: bool,
}

/// Keys a focused windowed row reacts to.
#[derive(Debug, Clone, Copy, PartialEq, Eq, Structural)]
pub enum RowKey {
    Left,
    Right,
    Home,
    End,
    /// Enter or Space.
    Activate,
    Other,
}

/// Outcome of a key press on a windowed row.
#[derive(Debug, Clone, Copy, PartialEq, Eq, Structural)]
pub enum RowKeyOutcome {
    /// The keyboard focal item moved (redraw, capture).
    Moved,
    /// Item selected.
    Select(usize),
    /// Nothing to do.
    Ignored,
}

/// Outcome of a click on a windowed row.
#[derive(Debug, Clone, Copy, PartialEq, Eq, Structural)]
pub enum RowClick {
    /// A cap was clicked: the window jumped a whole window toward it.
    Paged,
    /// An item was clicked.
    Select(usize),
    /// Nothing was hit.
    Nothing,
}

/// The window start that centres the active item (clamped to the items).
pub open spec fn rest_start(n: int, count: int, active: int) -> int {
    let a = if n == 0 {
        0
    } else {
        min_of(active, n - 1)
    };
    min_of(sat_sub(a, count / 2), sat_sub(n, count))
}

impl RowWindow {
    /// Not hovered, not focused, window at the first item.
    pub fn new() -> (w: Self)
        ensures
            w == (RowWindow {
                is_inside: false,
                is_focused: false,
                last_focused: false,
                window_start: 0,
                keyboard_focal: 0,
                paging: false,
            }),
    {
        RowWindow {
            is_inside: false,
            is_focused: false,
            last_focused: false,
            window_start: 0,
            keyboard_focal: 0,
            paging: false,
        }
    }

    /// The row is being driven by hover or keyboard, so the paged window is
    /// shown rather than the one centring the active item.
    pub open spec fn driving(&self) -> bool {
        self.is_inside || self.is_focused
    }

    /// Notice a change of keyboard focus: gaining it puts the keyboard focal
    /// on the active item and centres the window there; losing it while not
    /// hovered recentres on the active item. Returns whether anything
    /// changed (a redraw is due).
    pub fn sync_focus(&mut self, n: usize, count: usize, active: usize) -> (changed: bool)
        ensures
            changed == (old(self).is_focused != old(self).last_focused),
            !changed ==> *final(self) == *old(self),
            changed ==> {
                &&& final(self).last_focused == old(self).is_focused
                &&& final(self).is_focused == old(self).is_focused
                &&& final(self).is_inside == old(self).is_inside
                &&& final(self).paging == old(self).paging
                &&& if old(self).is_focused {
                    &&& final(self).keyboard_focal == (if n == 0 {
                        0
                    } else {
                        min_of(active as int, n - 1)
                    })
                    &&& final(self).window_start == rest_start(n as int, count as int, active as int)
                } else {
                    &&& final(self).keyboard_focal == old(self).keyboard_focal
                    &&& final(self).window_start == (if !old(self).is_inside {
                        rest_start(n as int, count as int, active as int)
                    } else {
                        old(self).window_start as int
                    })
                }
            },
    {
        if self.is_focused == self.last_focused {
            return false;
        }
        self.last_focused = self.is_focused;
        if self.is_focused {
            self.keyboard_focal = active_clamped(active, n);
            self.window_start = centre_start(n, count, self.keyboard_focal);
        } else if !self.is_inside {
            self.window_start = centre_start(n, count, active_clamped(active, n));
        }
        true
    }

    /// The cursor left the row: stop hovering and dwelling, and recentre on
    /// the active item unless the keyboard drives the row. Returns whether
    /// the row was hovered (a redraw is due).
    pub fn leave(&mut self, n: usize, count: usize, active: usize) -> (was_inside: bool)
        ensures
            was_inside == old(self).is_inside,
            !was_inside ==> *final(self) == *old(self),
            was_inside ==> *final(self) == (RowWindow {
                is_inside: false,
                paging: false,
                window_start: if old(self).is_focused {
                    old(self).window_start
                } else {
                    rest_start(n as int, count as int, active as int) as usize
                },
                ..*old(self)
            }),
    {
        if !self.is_inside {
            return false;
        }
        self.is_inside = false;
        self.paging = false;
        if !self.is_focused {
            self.window_start = centre_start(n, count, active_clamped(active, n));
        }
        true
    }

    /// The cursor moved over the row. Hover that begins picks up from the
    /// window centred on the active item, so paging continues without a jump.
    pub fn hover(&mut self, n: usize, count: usize, active: usize)
        ensures
            *final(self) == (RowWindow {
                is_inside: true,
                paging: false,
                window_start: if old(self).is_inside {
                    old(self).window_start
                } else {
                    rest_start(n as int, count as int, active as int) as usize
                },
                ..*old(self)
            }),
    {
        if !self.is_inside {
            self.window_start = centre_start(n, count, active_clamped(active, n));
        }
        self.is_inside = true;
        self.paging = false;
    }

    /// A click at a point of the row over which lies cap `cap` (if any) or
    /// item `hit` (if any). A cap pages a whole window toward its side.
    pub fn click(&mut self, n: usize, count: usize, cap: Option<Side>, hit: Option<usize>) -> (r: RowClick)
        ensures
            match cap {
                Some(side) => r == RowClick::Paged && *final(self) == (RowWindow {
                    window_start: (match side {
                        Side::Left => sat_sub(old(self).window_start as int, count as int),
                        Side::Right => min_of(
                            old(self).window_start + count,
                            sat_sub(n as int, count as int),
                        ),
                    }) as usize,
                    ..*old(self)
                }),
                None => *final(self) == *old(self) && r == (match hit {
                    Some(i) => RowClick::Select(i),
                    None => RowClick::Nothing,
                }),
            },
    {
        match cap {
            Some(side) => {
                self.window_start = page(self.window_start, n, count, side, count);
                RowClick::Paged
            },
            None => match hit {
                Some(i) => RowClick::Select(i),
                None => RowClick::Nothing,
            },
        }
    }

    /// A wheel notch while hovered pans the window by one item: scrolling
    /// up (positive) toward the left, down toward the right. Returns whether
    /// it panned (redraw, capture).
    pub fn wheel(&mut self, n: usize, count: usize, positive: bool) -> (panned: bool)
        ensures
            panned == old(self).is_inside,
            !panned ==> *final(self) == *old(self),
            panned ==> *final(self) == (RowWindow {
                window_start: (if positive {
                    sat_sub(old(self).window_start as int, 1)
                } else {
                    min_of(old(self).window_start + 1, sat_sub(n as int, count as int))
                }) as usize,
                ..*old(self)
            }),
    {
        if !self.is_inside {
            return false;
        }
        let side = if positive { Side::Left } else { Side::Right };
        self.window_start = page(self.window_start, n, count, side, 1);
        true
    }

    /// A key press while focused: arrows, Home and End move the keyboard
    /// focal item and scroll it into view; Enter or Space select it.
    pub fn key(&mut self, n: usize, count: usize, key: RowKey) -> (r: RowKeyOutcome)
        ensures
            row_key_effect(*old(self), n, count, key, *final(self), r),
    {
        if !self.is_focused || n == 0 {
            return RowKeyOutcome::Ignored;
        }
        let nav = match key {
            RowKey::Left => NavKey::Left,
            RowKey::Right => NavKey::Right,
            RowKey::Home => NavKey::Home,
            RowKey::End => NavKey::End,
            RowKey::Activate => {
                let i = if self.keyboard_focal < n - 1 { self.keyboard_focal } else { n - 1 };
                return RowKeyOutcome::Select(i);
            },
            RowKey::Other => {
                return RowKeyOutcome::Ignored;
            },
        };
        self.keyboard_focal = move_focal(self.keyboard_focal, n, nav);
        self.window_start = reveal_item(self.window_start, n, count, self.keyboard_focal);
        RowKeyOutcome::Moved
    }

    /// A redraw while hovered. Dwelling over cap `cap` pans the window one
    /// item toward it each time `interval_due` says the paging interval has
    /// passed since the dwell was timed; the first redraw over a cap only
    /// starts the timing. Returns whether to restart the dwell clock.
    pub fn dwell(&mut self, n: usize, count: usize, cap: Option<Side>, interval_due: bool) -> (restart_clock: bool)
        ensures
            !old(self).is_inside ==> *final(self) == *old(self) && !restart_clock,
            old(self).is_inside ==> match cap {
                None => *final(self) == (RowWindow { paging: false, ..*old(self) })
                    && !restart_clock,
                Some(side) => if !old(self).paging {
                    *final(self) == (RowWindow { paging: true, ..*old(self) }) && restart_clock
                } else if interval_due {
                    restart_clock && *final(self) == (RowWindow {
                        window_start: (match side {
                            Side::Left => sat_sub(old(self).window_start as int, 1),
                            Side::Right => min_of(
                                old(self).window_start + 1,
                                sat_sub(n as int, count as int),
                            ),
                        }) as usize,
                        ..*old(self)
                    })
                } else {
                    *final(self) == *old(self) && !restart_clock
                },
            },
    {
        if !self.is_inside {
            return false;
        }
        match cap {
            None => {
                self.paging = false;
                false
            },
            Some(side) => {
                if !self.paging {
                    self.paging = true;
                    true
                } else if interval_due {
                    self.window_start = page(self.window_start, n, count, side, 1);
                    true
                } else {
                    false
                }
            },
        }
    }
}

/// The keyboard focal item a navigation key leads to from `focal`.
pub open spec fn nav_target(focal: int, n: int, key: RowKey) -> int {
    match key {
        RowKey::Left => sat_sub(focal, 1),
        RowKey::Right => min_of(focal + 1, n - 1),
        RowKey::Home => 0,
        _ => n - 1,
    }
}

/// The window start after revealing item `idx` from window start `start`.
pub open spec fn revealed_start(start: int, n: int, count: int, idx: int) -> int {
    if idx < start {
        min_of(idx, sat_sub(n, count))
    } else if idx >= start + count {
        min_of(sat_sub(idx + 1, count), sat_sub(n, count))
    } else {
        min_of(start, sat_sub(n, count))
    }
}

/// The exact effect of [`RowWindow::key`] from `w` to `f` with outcome `r`.
pub open spec fn row_key_effect(w: RowWindow, n: usize, count: usize, key: RowKey, f: RowWindow, r: RowKeyOutcome) -> bool {
    if !w.is_focused || n == 0 {
        f == w && r == RowKeyOutcome::Ignored
    } else {
        match key {
            RowKey::Activate => f == w && r == RowKeyOutcome::Select(
                min_of(w.keyboard_focal as int, n - 1) as usize,
            ),
            RowKey::Other => f == w && r == RowKeyOutcome::Ignored,
            _ => {
                let target = nav_target(w.keyboard_focal as int, n as int, key);
                &&& r == RowKeyOutcome::Moved
                &&& f == (RowWindow {
                    keyboard_focal: target as usize,
                    window_start: revealed_start(
                        w.window_start as int,
                        n as int,
                        count as int,
                        target,
                    ) as usize,
                    ..w
                })
            },
        }
    }
}

/// After a navigation key on a focused row, the keyboard focal item lies
/// inside the visible window, and the window inside the row.
pub proof fn lemma_key_keeps_focal_visible(w: RowWindow, n: usize, count: usize, key: RowKey, f: RowWindow, r: RowKeyOutcome)
    requires
        1 <= count <= n,
        w.keyboard_focal < n,
        row_key_effect(w, n, count, key, f, r),
        r == RowKeyOutcome::Moved,
    ensures
        f.window_start <= f.keyboard_focal < f.window_start + count,
        f.window_start + count <= n,
{
}


/// How the keys move the keyboard focal item of a focused row of `n > 0`
/// items: Right moves it one item toward the end and Left one item toward
/// the start, each stopping at the last or first item; Home goes to the
/// first item and End to the last. Activate and other keys leave it.
pub proof fn lemma_key_moves_focal(w: RowWindow, n: usize, count: usize, key: RowKey, f: RowWindow, r: RowKeyOutcome)
    requires
        w.is_focused,
        n > 0,
        w.keyboard_focal < n,
        row_key_effect(w, n, count, key, f, r),
    ensures
        key == RowKey::Right ==> f.keyboard_focal == (if w.keyboard_focal + 1 < n {
            w.keyboard_focal + 1
        } else {
            w.keyboard_focal as int
        }),
        key == RowKey::Left ==> f.keyboard_focal == (if w.keyboard_focal > 0 {
            w.keyboard_focal - 1
        } else {
            0
        }),
        key == RowKey::Home ==> f.keyboard_focal == 0,
        key == RowKey::End ==> f.keyboard_focal == n - 1,
        key == RowKey::Activate || key == RowKey::Other ==> f.keyboard_focal == w.keyboard_focal,
        f.keyboard_focal < n,
{
}


/// Left undoes Right, and Right undoes Left, on the keyboard focal item of
/// a focused row, unless the first key stopped at an end of the row.
pub proof fn lemma_arrow_keys_undo(w: RowWindow, n: usize, count: usize, k1: RowKey, f: RowWindow, r1: RowKeyOutcome, k2: RowKey, g: RowWindow, r2: RowKeyOutcome)
    requires
        w.is_focused,
        n > 0,
        w.keyboard_focal < n,
        (k1 == RowKey::Right && k2 == RowKey::Left && w.keyboard_focal + 1 < n) || (k1
            == RowKey::Left && k2 == RowKey::Right && w.keyboard_focal > 0),
        row_key_effect(w, n, count, k1, f, r1),
        row_key_effect(f, n, count, k2, g, r2),
    ensures
        g.keyboard_focal == w.keyboard_focal,
        f.keyboard_focal != w.keyboard_focal,
{
}


/// The selection a wheel notch asks for in a row of `n > 0` items: one step
/// toward the start (`toward_start`) or the end from `active`, clamped to
/// the items.
pub fn wheel_selection(active: usize, n: usize, toward_start: bool) -> (r: usize)
    requires
        n > 0,
    ensures
        r == (if toward_start {
            if active == 0 {
                0
            } else {
                min_of(active - 1, n - 1)
            }
        } else {
            min_of(active + 1, n - 1)
        }),
{
    if toward_start {
        if active == 0 {
            0
        } else if active - 1 < n - 1 {
            active - 1
        } else {
            n - 1
        }
    } else if active < n - 1 {
        active + 1
    } else {
        n - 1
    }
}

} // verus!
