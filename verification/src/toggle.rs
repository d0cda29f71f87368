//! Items and selection of a segmented toggle: at least two segments, each
//! with an optional icon name and an optional label, one of them selected.
use vstd::prelude::*;

verus! {

/// The segments of a toggle and the selected one.
#[derive(Debug)]
pub struct Segments<'a> {
    icons: Vec<Option<&'a str>>,
    labels: Vec<Option<String>>,
    selected: usize,
}

impl<'a> Segments<'a> {
    /// Icon names, one per segment.
    pub closed spec fn icon_names(&self) -> Seq<Option<&'a str>> {
        self.icons@
    }

    /// Label texts, one per segment.
    pub closed spec fn label_texts(&self) -> Seq<Option<Seq<char>>> {
        Seq::new(
            self.labels@.len(),
            |i: int|
                match self.labels@[i] {
                    Some(s) => Some(s@),
                    None => None,
                },
        )
    }

    /// Index of the selected segment.
    pub closed spec fn selected_index(&self) -> nat {
        self.selected as nat
    }

    /// At least two segments, as many labels as icons, a valid selection.
    pub open spec fn wf(&self) -> bool {
        &&& self.icon_names().len() >= 2
        &&& self.label_texts().len() == self.icon_names().len()
        &&& self.selected_index() < self.icon_names().len()
    }

    fn new(icons: Vec<Option<&'a str>>, labels: Vec<Option<String>>, selected: usize) -> (s: Self)
        requires
            icons@.len() >= 2,
            labels@.len() == icons@.len(),
        ensures
            s.wf(),
            s.icon_names() == icons@,
            s.labels == labels,
            s.selected_index() == (if selected < icons@.len() {
                selected as int
            } else {
                icons@.len() - 1
            }),
    {
        let n = icons.len();
        let sel = if selected < n - 1 { selected } else { n - 1 };
        Segments { icons, labels, selected: sel }
    }

    /// One segment per icon; the selection is clamped to the last segment.
    pub fn with_icons(icons: &[&'a str], selected: usize) -> (s: Self)
        requires
            icons@.len() >= 2,
        ensures
            s.wf(),
            s.icon_names().len() == icons@.len(),
            forall|i: int| 0 <= i < icons@.len() ==> #[trigger] s.icon_names()[i] == Some(icons@[i]),
            forall|i: int| 0 <= i < icons@.len() ==> #[trigger] s.label_texts()[i] is None,
            s.selected_index() == (if selected < icons@.len() {
                selected as int
            } else {
                icons@.len() - 1
            }),
    {
        let mut v: Vec<Option<&'a str>> = Vec::new();
        let mut labels: Vec<Option<String>> = Vec::new();
        let mut i: usize = 0;
        while i < icons.len()
            invariant
                i <= icons@.len(),
                v@.len() == i,
                labels@.len() == i,
                forall|j: int| 0 <= j < i ==> #[trigger] v@[j] == Some(icons@[j]),
                forall|j: int| 0 <= j < i ==> #[trigger] labels@[j] is None,
            decreases icons.len() - i,
        {
            v.push(Some(icons[i]));
            labels.push(None);
            i = i + 1;
        }
        Self::new(v, labels, selected)
    }

    /// One segment per entry, some without an icon.
    pub fn with_optional_icons(icons: &[Option<&'a str>], selected: usize) -> (s: Self)
        requires
            icons@.len() >= 2,
        ensures
            s.wf(),
            s.icon_names() == icons@,
            forall|i: int| 0 <= i < icons@.len() ==> #[trigger] s.label_texts()[i] is None,
            s.selected_index() == (if selected < icons@.len() {
                selected as int
            } else {
                icons@.len() - 1
            }),
    {
        let mut v: Vec<Option<&'a str>> = Vec::new();
        let mut labels: Vec<Option<String>> = Vec::new();
        let mut i: usize = 0;
        while i < icons.len()
            invariant
                i <= icons@.len(),
                v@ == icons@.take(i as int),
                labels@.len() == i,
                forall|j: int| 0 <= j < i ==> #[trigger] labels@[j] is None,
            decreases icons.len() - i,
        {
            v.push(icons[i]);
            labels.push(None);
            i = i + 1;
            assert(v@ =~= icons@.take(i as int));
        }
        assert(icons@.take(icons.len() as int) =~= icons@);
        Self::new(v, labels, selected)
    }

    /// `count` segments with neither icon nor label.
    pub fn plain(count: usize, selected: usize) -> (s: Self)
        requires
            count >= 2,
        ensures
            s.wf(),
            s.icon_names().len() == count,
            forall|i: int| 0 <= i < count ==> #[trigger] s.icon_names()[i] is None,
            forall|i: int| 0 <= i < count ==> #[trigger] s.label_texts()[i] is None,
            s.selected_index() == (if selected < count {
                selected as int
            } else {
                count - 1
            }),
    {
        let mut v: Vec<Option<&'a str>> = Vec::new();
        let mut labels: Vec<Option<String>> = Vec::new();
        let mut i: usize = 0;
        while i < count
            invariant
                i <= count,
                v@.len() == i,
                labels@.len() == i,
                forall|j: int| 0 <= j < i ==> #[trigger] v@[j] is None,
                forall|j: int| 0 <= j < i ==> #[trigger] labels@[j] is None,
            decreases count - i,
        {
            v.push(None);
            labels.push(None);
            i = i + 1;
        }
        Self::new(v, labels, selected)
    }

    /// One text-labelled segment per label.
    pub fn with_labels(labels: &[&str], selected: usize) -> (s: Self)
        requires
            labels@.len() >= 2,
        ensures
            s.wf(),
            s.icon_names().len() == labels@.len(),
            forall|i: int| 0 <= i < labels@.len() ==> #[trigger] s.icon_names()[i] is None,
            forall|i: int|
                0 <= i < labels@.len() ==> #[trigger] s.label_texts()[i] == Some(labels@[i]@),
            s.selected_index() == (if selected < labels@.len() {
                selected as int
            } else {
                labels@.len() - 1
            }),
    {
        let mut v: Vec<Option<&'a str>> = Vec::new();
        let mut ls: Vec<Option<String>> = Vec::new();
        let mut i: usize = 0;
        while i < labels.len()
            invariant
                i <= labels@.len(),
                v@.len() == i,
                ls@.len() == i,
                forall|j: int| 0 <= j < i ==> #[trigger] v@[j] is None,
                forall|j: int|
                    0 <= j < i ==> (#[trigger] ls@[j] matches Some(t) && t@ == labels@[j]@),
            decreases labels.len() - i,
        {
            v.push(None);
            ls.push(Some(labels[i].to_owned()));
            i = i + 1;
        }
        let s = Self::new(v, ls, selected);
        assert forall|i: int| 0 <= i < labels@.len() implies #[trigger] s.label_texts()[i] == Some(
            labels@[i]@,
        ) by {
            assert(s.labels@[i] matches Some(t) && t@ == labels@[i]@);
        }
        s
    }

    /// Number of segments.
    pub fn count(&self) -> (n: usize)
        ensures
            n == self.icon_names().len(),
    {
        self.icons.len()
    }

    /// The selected segment.
    pub fn selected(&self) -> (i: usize)
        ensures
            i == self.selected_index(),
    {
        self.selected
    }

    /// Icon name of segment `i`.
    pub fn icon(&self, i: usize) -> (r: Option<&'a str>)
        requires
            i < self.icon_names().len(),
        ensures
            r == self.icon_names()[i as int],
    {
        self.icons[i]
    }

    /// Label of segment `i`.
    pub fn label(&self, i: usize) -> (r: Option<&String>)
        requires
            self.wf(),
            i < self.icon_names().len(),
        ensures
            match r {
                Some(t) => self.label_texts()[i as int] == Some(t@),
                None => self.label_texts()[i as int] is None,
            },
    {
        match &self.labels[i] {
            Some(t) => Some(t),
            None => None,
        }
    }

    /// Whether clicking segment `i` selects something new.
    pub fn selects_new(&self, i: usize) -> (r: bool)
        ensures
            r == (i != self.selected_index()),
    {
        i != self.selected
    }
}

/// For a two-segment toggle: whether segment `index` is the second one.
pub fn is_second(index: usize) -> (r: bool)
    ensures
        r == (index != 0),
{
    index != 0
}

/// The segment a two-segment toggle selects for a boolean state.
pub fn pair_index(is_b_selected: bool) -> (r: usize)
    ensures
        r == (if is_b_selected {
            1usize
        } else {
            0
        }),
{
    if is_b_selected { 1 } else { 0 }
}

} // verus!
