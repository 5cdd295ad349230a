//! Temporary list map: where items were seen in the scrollable list.
//!
//! `row_base` is the global row of the first visible row (0 at the start);
//! every classified slot records `item_id → (global row, col)`. After a page
//! turn the map re-aligns `row_base` from slots that show the same item in the
//! same column (the most frequent candidate wins); without such landmarks it
//! splices the previous and current local row ranges. Identities come from
//! each frame's classification; rows are only temporary coordinates.
use vstd::prelude::*;
use crate::loadout_sync::direct_select::click_plan::ClassView;
use crate::loadout_sync::list_map::ScrollDirection;
use crate::loadout_sync::reference_vision::{ItemKind, ObservedSlot, ObservedView};

verus! {

/// Where an item sits in the map.
#[derive(Debug, Clone, Copy, PartialEq, Eq, Structural)]
pub struct GridPosition {
    /// Global row (relative to the first window of the map).
    pub row: i32,
    pub col: u32,
}

/// Navigation advice.
#[derive(Debug, Clone, Copy, PartialEq, Eq, Structural)]
pub enum NavigationHint {
    /// The target is outside the visible window: turn pages this way.
    Scroll(ScrollDirection),
    /// The target is on the window edge: move a little this way.
    Recenter(ScrollDirection),
    /// The target should be visible.
    ExpectedVisible,
}

impl NavigationHint {
    /// The direction of the advice, if it has one.
    pub fn direction(self) -> (r: Option<ScrollDirection>)
        ensures
            r == match self {
                NavigationHint::Scroll(d) => Some(d),
                NavigationHint::Recenter(d) => Some(d),
                NavigationHint::ExpectedVisible => None::<ScrollDirection>,
            },
    {
        match self {
            NavigationHint::Scroll(d) => Some(d),
            NavigationHint::Recenter(d) => Some(d),
            NavigationHint::ExpectedVisible => None,
        }
    }
}

/// The temporary list map.
#[derive(Debug, Clone)]
pub struct ListMap {
    row_base: i32,
    items: Vec<(String, GridPosition)>,
}

/// Plain view of the map: `row_base` and the `(id, position)` entries.
pub struct ListMapView {
    pub row_base: i32,
    pub entries: Seq<(Seq<char>, GridPosition)>,
}

impl View for ListMap {
    type V = ListMapView;

    closed spec fn view(&self) -> ListMapView {
        ListMapView {
            row_base: self.row_base,
            entries: self.items@.map_values(|p: (String, GridPosition)| (p.0@, p.1)),
        }
    }
}

/// Position recorded for `id` (first entry with that id).
pub open spec fn lookup(entries: Seq<(Seq<char>, GridPosition)>, id: Seq<char>) -> Option<
    GridPosition,
>
    decreases entries.len(),
{
    if entries.len() == 0 {
        None
    } else if entries[0].0 == id {
        Some(entries[0].1)
    } else {
        lookup(entries.drop_first(), id)
    }
}

/// Index of the first entry with `id`.
pub open spec fn index_of(entries: Seq<(Seq<char>, GridPosition)>, id: Seq<char>) -> Option<int>
    decreases entries.len(),
{
    if entries.len() == 0 {
        None
    } else if entries[0].0 == id {
        Some(0)
    } else {
        match index_of(entries.drop_first(), id) {
            Some(i) => Some(i + 1),
            None => None,
        }
    }
}

/// Entries after recording `id` at `pos` (replace, or append when new).
pub open spec fn insert_entry(
    entries: Seq<(Seq<char>, GridPosition)>,
    id: Seq<char>,
    pos: GridPosition,
) -> Seq<(Seq<char>, GridPosition)> {
    match index_of(entries, id) {
        Some(i) => entries.update(i, (id, pos)),
        None => entries.push((id, pos)),
    }
}

/// No id occurs twice.
pub open spec fn distinct_ids(entries: Seq<(Seq<char>, GridPosition)>) -> bool {
    forall|i: int, j: int| 0 <= i < j < entries.len() ==> entries[i].0 != entries[j].0
}

/// The local row of a slot as the map counts it (`row as i32`).
pub open spec fn local_row(s: ObservedView) -> int {
    (s.row as i32) as int
}

/// The slot shows an item of `kind` (selectable for it and classified).
pub open spec fn classified_for(s: ObservedView, kind: ItemKind) -> bool {
    s.kind.selectable_for(kind) && s.classification is Some
}

/// Entries after recording the classified slots of the first `n` page slots,
/// with the given `row_base`.
pub open spec fn recorded(
    entries: Seq<(Seq<char>, GridPosition)>,
    row_base: i32,
    page: Seq<ObservedView>,
    kind: ItemKind,
    n: int,
) -> Seq<(Seq<char>, GridPosition)>
    decreases n,
{
    if n <= 0 {
        entries
    } else {
        let prev = recorded(entries, row_base, page, kind, n - 1);
        let s = page[n - 1];
        if classified_for(s, kind) {
            insert_entry(
                prev,
                s.classification->0.item_id,
                GridPosition { row: (row_base + local_row(s)) as i32, col: s.col },
            )
        } else {
            prev
        }
    }
}

/// Recording the page cannot overflow the row arithmetic.
pub open spec fn record_fits(row_base: i32, page: Seq<ObservedView>, kind: ItemKind) -> bool {
    forall|j: int|
        0 <= j < page.len() && classified_for(#[trigger] page[j], kind) ==> i32::MIN <= row_base
            + local_row(page[j]) <= i32::MAX
}

/// The landmark candidate of a slot: `mapped.row - local row` when the slot's
/// item is in the map in the same column.
pub open spec fn candidate_of(
    entries: Seq<(Seq<char>, GridPosition)>,
    s: ObservedView,
    kind: ItemKind,
) -> Option<int> {
    if classified_for(s, kind) {
        match lookup(entries, s.classification->0.item_id) {
            Some(m) => if m.col == s.col {
                Some(m.row - local_row(s))
            } else {
                None
            },
            None => None,
        }
    } else {
        None
    }
}

/// Candidate `row_base` values of the first `n` page slots.
pub open spec fn candidates(
    entries: Seq<(Seq<char>, GridPosition)>,
    page: Seq<ObservedView>,
    kind: ItemKind,
    n: int,
) -> Seq<i32>
    decreases n,
{
    if n <= 0 {
        Seq::empty()
    } else {
        let prev = candidates(entries, page, kind, n - 1);
        match candidate_of(entries, page[n - 1], kind) {
            Some(c) => prev.push(c as i32),
            None => prev,
        }
    }
}

/// No landmark candidate overflows.
pub open spec fn candidates_fit(
    entries: Seq<(Seq<char>, GridPosition)>,
    page: Seq<ObservedView>,
    kind: ItemKind,
) -> bool {
    forall|j: int|
        0 <= j < page.len() && (#[trigger] candidate_of(entries, page[j], kind)) is Some
            ==> i32::MIN <= candidate_of(entries, page[j], kind)->0 <= i32::MAX
}

/// How often `v` occurs in the first `n` values.
pub open spec fn count_in(s: Seq<i32>, v: i32, n: int) -> nat
    decreases n,
{
    if n <= 0 {
        0
    } else {
        count_in(s, v, n - 1) + if s[n - 1] == v {
            1nat
        } else {
            0nat
        }
    }
}

/// `(count, value)` of `a` is at most that of `b`.
pub open spec fn mode_le(s: Seq<i32>, a: i32, b: i32) -> bool {
    count_in(s, a, s.len() as int) < count_in(s, b, s.len() as int) || (count_in(
        s,
        a,
        s.len() as int,
    ) == count_in(s, b, s.len() as int) && a <= b)
}

/// The most frequent value among the first `n` (ties: the larger value).
pub open spec fn dominant_prefix(s: Seq<i32>, n: int) -> Option<i32>
    decreases n,
{
    if n <= 0 {
        None
    } else {
        let prev = dominant_prefix(s, n - 1);
        if prev is None || mode_le(s, prev->0, s[n - 1]) {
            Some(s[n - 1])
        } else {
            prev
        }
    }
}

/// The most frequent value (ties: the larger value); `None` when empty.
pub open spec fn dominant(s: Seq<i32>) -> Option<i32> {
    dominant_prefix(s, s.len() as int)
}

/// Local `(min, max)` row over the first `n` page slots selectable for `kind`.
pub open spec fn row_range(page: Seq<ObservedView>, kind: ItemKind, n: int) -> Option<(int, int)>
    decreases n,
{
    if n <= 0 {
        None
    } else {
        let prev = row_range(page, kind, n - 1);
        let s = page[n - 1];
        if s.kind.selectable_for(kind) {
            let r = local_row(s);
            match prev {
                Some((lo, hi)) => Some(
                    (if r < lo {
                        r
                    } else {
                        lo
                    }, if r > hi {
                        r
                    } else {
                        hi
                    }),
                ),
                None => Some((r, r)),
            }
        } else {
            prev
        }
    }
}

/// The navigation advice for `id`.
pub open spec fn hint_spec(
    m: ListMapView,
    id: Seq<char>,
    page: Seq<ObservedView>,
    kind: ItemKind,
) -> NavigationHint {
    match lookup(m.entries, id) {
        None => NavigationHint::Scroll(ScrollDirection::Down),
        Some(target) => match row_range(page, kind, page.len() as int) {
            None => NavigationHint::ExpectedVisible,
            Some((lo, hi)) => {
                let vmin = m.row_base + lo;
                let vmax = m.row_base + hi;
                if target.row < vmin {
                    NavigationHint::Scroll(ScrollDirection::Up)
                } else if target.row > vmax {
                    NavigationHint::Scroll(ScrollDirection::Down)
                } else if lo != hi && target.row == vmin {
                    NavigationHint::Recenter(ScrollDirection::Up)
                } else if lo != hi && target.row == vmax {
                    NavigationHint::Recenter(ScrollDirection::Down)
                } else {
                    NavigationHint::ExpectedVisible
                }
            },
        },
    }
}

/// Views of a page.
pub open spec fn page_views(page: Seq<ObservedSlot>) -> Seq<ObservedView> {
    page.map_values(|s: ObservedSlot| s@)
}

// ─── lemmas ───

proof fn lemma_index_of_spec(entries: Seq<(Seq<char>, GridPosition)>, id: Seq<char>)
    ensures
        match index_of(entries, id) {
            Some(i) => 0 <= i < entries.len() && entries[i].0 == id && lookup(entries, id) == Some(
                entries[i].1,
            ) && forall|k: int| 0 <= k < i ==> entries[k].0 != id,
            None => lookup(entries, id) is None && forall|k: int|
                0 <= k < entries.len() ==> entries[k].0 != id,
        },
    decreases entries.len(),
{
    if entries.len() > 0 && entries[0].0 != id {
        let t = entries.drop_first();
        lemma_index_of_spec(t, id);
        assert forall|k: int| 1 <= k < entries.len() implies entries[k] == t[k - 1] by {}
    }
}

proof fn lemma_index_of_unique(entries: Seq<(Seq<char>, GridPosition)>, id: Seq<char>, i: int)
    requires
        0 <= i < entries.len(),
        entries[i].0 == id,
        forall|k: int| 0 <= k < i ==> entries[k].0 != id,
    ensures
        index_of(entries, id) == Some(i),
{
    lemma_index_of_spec(entries, id);
    match index_of(entries, id) {
        Some(j) => {
            if j < i {
                assert(entries[j].0 != id);
            }
            if i < j {
                assert(entries[i].0 != id);
            }
        },
        None => {
            assert(entries[i].0 != id);
        },
    }
}

/// Looking up after recording: the recorded id gives the new position, other
/// ids are unchanged.
pub proof fn lemma_lookup_insert(
    entries: Seq<(Seq<char>, GridPosition)>,
    id: Seq<char>,
    pos: GridPosition,
    q: Seq<char>,
)
    ensures
        lookup(insert_entry(entries, id, pos), q) == if q == id {
            Some(pos)
        } else {
            lookup(entries, q)
        },
        distinct_ids(entries) ==> distinct_ids(insert_entry(entries, id, pos)),
{
    lemma_index_of_spec(entries, id);
    lemma_index_of_spec(entries, q);
    let e2 = insert_entry(entries, id, pos);
    lemma_index_of_spec(e2, q);
    match index_of(entries, id) {
        Some(i) => {
            if q == id {
                lemma_index_of_unique(e2, q, i);
            } else {
                match index_of(entries, q) {
                    Some(j) => {
                        assert forall|k: int| 0 <= k < j implies e2[k].0 != q by {}
                        lemma_index_of_unique(e2, q, j);
                    },
                    None => {
                        assert forall|k: int| 0 <= k < e2.len() implies e2[k].0 != q by {}
                        match index_of(e2, q) {
                            Some(j) => {},
                            None => {},
                        }
                    },
                }
            }
        },
        None => {
            if q == id {
                assert forall|k: int| 0 <= k < entries.len() implies e2[k].0 != q by {}
                lemma_index_of_unique(e2, q, entries.len() as int);
            } else {
                match index_of(entries, q) {
                    Some(j) => {
                        assert forall|k: int| 0 <= k < j implies e2[k].0 != q by {}
                        lemma_index_of_unique(e2, q, j);
                    },
                    None => {
                        assert forall|k: int| 0 <= k < e2.len() implies e2[k].0 != q by {}
                    },
                }
            }
        },
    }
}

proof fn lemma_count_step(s: Seq<i32>, v: i32, n: int)
    requires
        0 <= n,
    ensures
        count_in(s, v, n + 1) == count_in(s, v, n) + if s[n] == v {
            1nat
        } else {
            0nat
        },
{
}

proof fn lemma_dominant_is_max(s: Seq<i32>, n: int)
    requires
        0 <= n <= s.len(),
    ensures
        n == 0 <==> dominant_prefix(s, n) is None,
        dominant_prefix(s, n) matches Some(v) ==> (exists|i: int| 0 <= i < n && s[i] == v)
            && forall|i: int| 0 <= i < n ==> mode_le(s, s[i], v),
    decreases n,
{
    if n > 0 {
        lemma_dominant_is_max(s, n - 1);
        let v = dominant_prefix(s, n)->0;
        if dominant_prefix(s, n - 1) is None || mode_le(s, dominant_prefix(s, n - 1)->0, s[n - 1]) {
            assert(v == s[n - 1]);
            assert(s[n - 1] == v);
        } else {
            let w = dominant_prefix(s, n - 1)->0;
            let i0 = choose|i: int| 0 <= i < n - 1 && s[i] == w;
            assert(0 <= i0 < n && s[i0] == v);
        }
    }
}

// ─── exec ───

/// The most frequent value; ties go to the larger value, so the answer is
/// deterministic. `None` for no values.
pub fn dominant_value(values: &[i32]) -> (r: Option<i32>)
    ensures
        r == dominant(values@),
        r is None <==> values@.len() == 0,
        r matches Some(v) ==> (exists|i: int| 0 <= i < values@.len() && values@[i] == v) && forall|
            i: int,
        |
            0 <= i < values@.len() ==> mode_le(values@, values@[i], v),
{
    let n = values.len();
    let mut best: Option<(i32, usize)> = None;
    let mut k: usize = 0;
    while k < n
        invariant
            n == values@.len(),
            k <= n,
            match best {
                Some((v, c)) => dominant_prefix(values@, k as int) == Some(v) && c == count_in(
                    values@,
                    v,
                    n as int,
                ),
                None => dominant_prefix(values@, k as int) is None,
            },
        decreases n - k,
    {
        let v = values[k];
        let mut c: usize = 0;
        let mut j: usize = 0;
        while j < n
            invariant
                n == values@.len(),
                j <= n,
                c == count_in(values@, v, j as int),
                c <= j,
            decreases n - j,
        {
            proof {
                lemma_count_step(values@, v, j as int);
            }
            if values[j] == v {
                c = c + 1;
            }
            j = j + 1;
        }
        let take = match best {
            None => true,
            Some((bv, bc)) => bc < c || (bc == c && bv <= v),
        };
        if take {
            best = Some((v, c));
        }
        k = k + 1;
    }
    proof {
        lemma_dominant_is_max(values@, n as int);
    }
    match best {
        Some((v, _)) => Some(v),
        None => None,
    }
}

impl ListMap {
    /// A map with `row_base` 0 and nothing recorded.
    fn empty() -> (r: ListMap)
        ensures
            r@.row_base == 0,
            r@.entries == Seq::<(Seq<char>, GridPosition)>::empty(),
    {
        let r = ListMap { row_base: 0, items: Vec::new() };
        assert(r@.entries =~= Seq::<(Seq<char>, GridPosition)>::empty());
        r
    }

    /// Builds the map from the first window (`row_base` 0).
    pub fn new(page: &[ObservedSlot], item_kind: ItemKind) -> (r: ListMap)
        ensures
            r@.row_base == 0,
            r@.entries == recorded(
                Seq::empty(),
                0,
                page_views(page@),
                item_kind,
                page@.len() as int,
            ),
            distinct_ids(r@.entries),
    {
        let mut map = ListMap::empty();
        proof {
            assert forall|j: int|
                0 <= j < page@.len() && classified_for(
                    #[trigger] page_views(page@)[j],
                    item_kind,
                ) implies i32::MIN <= 0 + local_row(page_views(page@)[j]) <= i32::MAX by {}
        }
        map.record_current(page, item_kind);
        map
    }

    /// The current `row_base`.
    pub fn row_base(&self) -> (r: i32)
        ensures
            r == self@.row_base,
    {
        self.row_base
    }

    /// Number of recorded entries.
    pub fn len(&self) -> (r: usize)
        ensures
            r == self@.entries.len(),
    {
        self.items.len()
    }

    /// Whether nothing has been recorded.
    pub fn is_empty(&self) -> (r: bool)
        ensures
            r == (self@.entries.len() == 0),
    {
        self.items.len() == 0
    }

    /// Index of the entry for `id`.
    fn find(&self, id: &str) -> (r: Option<usize>)
        ensures
            match r {
                Some(i) => index_of(self@.entries, id@) == Some(i as int),
                None => index_of(self@.entries, id@) is None,
            },
    {
        let ghost e = self@.entries;
        let mut i: usize = 0;
        while i < self.items.len()
            invariant
                i <= self.items@.len(),
                e == self@.entries,
                e.len() == self.items@.len(),
                forall|k: int| 0 <= k < i ==> e[k].0 != id@,
            decreases self.items@.len() - i,
        {
            proof {
                assert(e[i as int] == (self.items@[i as int].0@, self.items@[i as int].1));
            }
            if crate::text::str_eq(self.items[i].0.as_str(), id) {
                proof {
                    lemma_index_of_unique(e, id@, i as int);
                }
                return Some(i);
            }
            i = i + 1;
        }
        proof {
            lemma_index_of_spec(e, id@);
            match index_of(e, id@) {
                Some(j) => {
                    assert(e[j].0 != id@);
                },
                None => {},
            }
        }
        None
    }

    /// The recorded position of `item_id`.
    pub fn get(&self, item_id: &str) -> (r: Option<GridPosition>)
        ensures
            r == lookup(self@.entries, item_id@),
    {
        proof {
            lemma_index_of_spec(self@.entries, item_id@);
        }
        match self.find(item_id) {
            Some(i) => {
                proof {
                    assert(self@.entries[i as int] == (
                        self.items@[i as int].0@,
                        self.items@[i as int].1,
                    ));
                }
                Some(self.items[i].1)
            },
            None => None,
        }
    }

    /// Records `item_id` at `pos` (replacing an earlier position).
    pub fn insert_position(&mut self, item_id: &str, pos: GridPosition)
        ensures
            final(self)@.row_base == old(self)@.row_base,
            final(self)@.entries == insert_entry(old(self)@.entries, item_id@, pos),
    {
        let ghost e = self@.entries;
        proof {
            lemma_index_of_spec(e, item_id@);
        }
        match self.find(item_id) {
            Some(i) => {
                self.items.set(i, (String::from_str(item_id), pos));
                assert(self@.entries =~= e.update(i as int, (item_id@, pos)));
            },
            None => {
                self.items.push((String::from_str(item_id), pos));
                assert(self@.entries =~= e.push((item_id@, pos)));
            },
        }
    }

    /// Records every classified slot of the page selectable for `item_kind` at
    /// `row_base + local row`.
    pub fn record_current(&mut self, page: &[ObservedSlot], item_kind: ItemKind)
        requires
            record_fits(old(self)@.row_base, page_views(page@), item_kind),
        ensures
            final(self)@.row_base == old(self)@.row_base,
            final(self)@.entries == recorded(
                old(self)@.entries,
                old(self)@.row_base,
                page_views(page@),
                item_kind,
                page@.len() as int,
            ),
            distinct_ids(old(self)@.entries) ==> distinct_ids(final(self)@.entries),
    {
        let ghost pv = page_views(page@);
        let ghost e0 = self@.entries;
        let mut j: usize = 0;
        while j < page.len()
            invariant
                j <= page@.len(),
                pv == page_views(page@),
                self@.row_base == old(self)@.row_base,
                e0 == old(self)@.entries,
                record_fits(self@.row_base, pv, item_kind),
                self@.entries == recorded(e0, self@.row_base, pv, item_kind, j as int),
                distinct_ids(e0) ==> distinct_ids(self@.entries),
            decreases page@.len() - j,
        {
            let slot = &page[j];
            proof {
                assert(pv[j as int] == slot@);
            }
            if slot.kind.is_selectable_item_for(item_kind) {
                match &slot.classification {
                    Some(c) => {
                        proof {
                            assert(classified_for(pv[j as int], item_kind));
                        }
                        let row: i32 = self.row_base + (slot.row as i32);
                        let pos = GridPosition { row, col: slot.col };
                        proof {
                            lemma_lookup_insert(self@.entries, c.item_id@, pos, c.item_id@);
                        }
                        self.insert_position(c.item_id.as_str(), pos);
                    },
                    None => {},
                }
            }
            j = j + 1;
        }
    }

    /// Re-aligns `row_base` from landmarks (same id, same column); the most
    /// frequent candidate wins. Without any landmark nothing changes and
    /// `false` is returned.
    pub fn relocalize(&mut self, page: &[ObservedSlot], item_kind: ItemKind) -> (r: bool)
        requires
            candidates_fit(old(self)@.entries, page_views(page@), item_kind),
            candidates(old(self)@.entries, page_views(page@), item_kind, page@.len() as int).len()
                > 0 ==> record_fits(
                dominant(
                    candidates(old(self)@.entries, page_views(page@), item_kind, page@.len() as int),
                )->0,
                page_views(page@),
                item_kind,
            ),
        ensures
            ({
                let c = candidates(
                    old(self)@.entries,
                    page_views(page@),
                    item_kind,
                    page@.len() as int,
                );
                &&& r == (c.len() > 0)
                &&& !r ==> final(self)@ == old(self)@
                &&& r ==> final(self)@.row_base == dominant(c)->0 && final(self)@.entries
                    == recorded(
                    old(self)@.entries,
                    dominant(c)->0,
                    page_views(page@),
                    item_kind,
                    page@.len() as int,
                )
            }),
            distinct_ids(old(self)@.entries) ==> distinct_ids(final(self)@.entries),
    {
        let ghost pv = page_views(page@);
        let ghost e0 = self@.entries;
        let mut cands: Vec<i32> = Vec::new();
        let mut j: usize = 0;
        while j < page.len()
            invariant
                j <= page@.len(),
                pv == page_views(page@),
                e0 == self@.entries,
                self@ == old(self)@,
                candidates_fit(e0, pv, item_kind),
                cands@ == candidates(e0, pv, item_kind, j as int),
            decreases page@.len() - j,
        {
            let slot = &page[j];
            proof {
                assert(pv[j as int] == slot@);
            }
            if slot.kind.is_selectable_item_for(item_kind) {
                match &slot.classification {
                    Some(c) => {
                        match self.get(c.item_id.as_str()) {
                            Some(mapped) => {
                                if mapped.col == slot.col {
                                    proof {
                                        assert(candidate_of(e0, pv[j as int], item_kind) is Some);
                                    }
                                    cands.push(mapped.row - (slot.row as i32));
                                }
                            },
                            None => {},
                        }
                    },
                    None => {},
                }
            }
            j = j + 1;
        }
        match dominant_value(cands.as_slice()) {
            Some(row_base) => {
                self.row_base = row_base;
                self.record_current(page, item_kind);
                true
            },
            None => false,
        }
    }

    /// Advances the map after a page turn: re-align from landmarks, else
    /// splice the local row ranges (down: the new first row follows the old
    /// last row; up: the new last row precedes the old first row). When a page
    /// has no slot of the kind nothing changes.
    pub fn advance(
        &mut self,
        previous: &[ObservedSlot],
        current: &[ObservedSlot],
        item_kind: ItemKind,
        direction: ScrollDirection,
    )
        requires
            advance_fits(old(self)@, page_views(previous@), page_views(current@), item_kind, direction),
        ensures
            final(self)@ == advance_spec(
                old(self)@,
                page_views(previous@),
                page_views(current@),
                item_kind,
                direction,
            ),
            distinct_ids(old(self)@.entries) ==> distinct_ids(final(self)@.entries),
    {
        let ghost old_v = self@;
        if self.relocalize(current, item_kind) {
            return;
        }
        let (pmin, pmax) = match local_row_range(previous, item_kind) {
            Some(r) => r,
            None => {
                return;
            },
        };
        let (cmin, cmax) = match local_row_range(current, item_kind) {
            Some(r) => r,
            None => {
                return;
            },
        };
        self.row_base = match direction {
            ScrollDirection::Down => self.row_base + pmax + 1 - cmin,
            ScrollDirection::Up => self.row_base + pmin - 1 - cmax,
        };
        self.record_current(current, item_kind);
    }

    /// Default advice for an unseen target: down (stratagem lists are in
    /// category order; callers treat it as unknown and cap page turns).
    pub fn unknown_target_hint() -> (r: NavigationHint)
        ensures
            r == NavigationHint::Scroll(ScrollDirection::Down),
    {
        NavigationHint::Scroll(ScrollDirection::Down)
    }

    /// Which way the target `item_id` lies from the visible window.
    pub fn navigation_hint(&self, item_id: &str, page: &[ObservedSlot], item_kind: ItemKind) -> (r:
        NavigationHint)
        requires
            hint_fits(self@, page_views(page@), item_kind),
        ensures
            r == hint_spec(self@, item_id@, page_views(page@), item_kind),
    {
        let target = match self.get(item_id) {
            Some(t) => t,
            None => {
                return Self::unknown_target_hint();
            },
        };
        let (local_min, local_max) = match local_row_range(page, item_kind) {
            Some(r) => r,
            None => {
                return NavigationHint::ExpectedVisible;
            },
        };
        let visible_min = self.row_base + local_min;
        let visible_max = self.row_base + local_max;
        if target.row < visible_min {
            NavigationHint::Scroll(ScrollDirection::Up)
        } else if target.row > visible_max {
            NavigationHint::Scroll(ScrollDirection::Down)
        } else if local_min != local_max && target.row == visible_min {
            NavigationHint::Recenter(ScrollDirection::Up)
        } else if local_min != local_max && target.row == visible_max {
            NavigationHint::Recenter(ScrollDirection::Down)
        } else {
            NavigationHint::ExpectedVisible
        }
    }
}

/// The visible window's rows can be computed.
pub open spec fn hint_fits(m: ListMapView, page: Seq<ObservedView>, kind: ItemKind) -> bool {
    row_range(page, kind, page.len() as int) matches Some((lo, hi)) ==> i32::MIN <= m.row_base + lo
        <= i32::MAX && i32::MIN <= m.row_base + hi <= i32::MAX
}

/// The map after `advance`.
pub open spec fn advance_spec(
    m: ListMapView,
    previous: Seq<ObservedView>,
    current: Seq<ObservedView>,
    kind: ItemKind,
    direction: ScrollDirection,
) -> ListMapView {
    let c = candidates(m.entries, current, kind, current.len() as int);
    if c.len() > 0 {
        let rb = dominant(c)->0;
        ListMapView {
            row_base: rb,
            entries: recorded(m.entries, rb, current, kind, current.len() as int),
        }
    } else {
        match (
            row_range(previous, kind, previous.len() as int),
            row_range(current, kind, current.len() as int),
        ) {
            (Some((pmin, pmax)), Some((cmin, cmax))) => {
                let rb = spliced_base(m.row_base as int, pmin, pmax, cmin, cmax, direction);
                ListMapView {
                    row_base: rb as i32,
                    entries: recorded(m.entries, rb as i32, current, kind, current.len() as int),
                }
            },
            _ => m,
        }
    }
}

/// The spliced `row_base` without landmarks.
pub open spec fn spliced_base(
    row_base: int,
    pmin: int,
    pmax: int,
    cmin: int,
    cmax: int,
    direction: ScrollDirection,
) -> int {
    match direction {
        ScrollDirection::Down => row_base + pmax + 1 - cmin,
        ScrollDirection::Up => row_base + pmin - 1 - cmax,
    }
}

/// `advance` cannot overflow its row arithmetic.
pub open spec fn advance_fits(
    m: ListMapView,
    previous: Seq<ObservedView>,
    current: Seq<ObservedView>,
    kind: ItemKind,
    direction: ScrollDirection,
) -> bool {
    let c = candidates(m.entries, current, kind, current.len() as int);
    &&& candidates_fit(m.entries, current, kind)
    &&& c.len() > 0 ==> record_fits(dominant(c)->0, current, kind)
    &&& c.len() == 0 ==> match (
        row_range(previous, kind, previous.len() as int),
        row_range(current, kind, current.len() as int),
    ) {
        (Some((pmin, pmax)), Some((cmin, cmax))) => {
            let rb = m.row_base as int;
            (match direction {
                ScrollDirection::Down => i32::MIN <= rb + pmax <= i32::MAX && i32::MIN <= rb + pmax
                    + 1 <= i32::MAX && i32::MIN <= rb + pmax + 1 - cmin <= i32::MAX,
                ScrollDirection::Up => i32::MIN <= rb + pmin <= i32::MAX && i32::MIN <= rb + pmin
                    - 1 <= i32::MAX && i32::MIN <= rb + pmin - 1 - cmax <= i32::MAX,
            }) && record_fits(
                spliced_base(rb, pmin, pmax, cmin, cmax, direction) as i32,
                current,
                kind,
            )
        },
        _ => true,
    }
}

/// Local `(min, max)` row of the page's slots selectable for `item_kind`.
pub fn local_row_range(page: &[ObservedSlot], item_kind: ItemKind) -> (r: Option<(i32, i32)>)
    ensures
        match r {
            Some((lo, hi)) => row_range(page_views(page@), item_kind, page@.len() as int) == Some(
                (lo as int, hi as int),
            ),
            None => row_range(page_views(page@), item_kind, page@.len() as int) is None,
        },
{
    let ghost pv = page_views(page@);
    let mut range: Option<(i32, i32)> = None;
    let mut j: usize = 0;
    while j < page.len()
        invariant
            j <= page@.len(),
            pv == page_views(page@),
            match range {
                Some((lo, hi)) => row_range(pv, item_kind, j as int) == Some((lo as int, hi as int)),
                None => row_range(pv, item_kind, j as int) is None,
            },
        decreases page@.len() - j,
    {
        let slot = &page[j];
        proof {
            assert(pv[j as int] == slot@);
        }
        if slot.kind.is_selectable_item_for(item_kind) {
            let row = slot.row as i32;
            range = match range {
                Some((lo, hi)) => Some(
                    (if row < lo {
                        row
                    } else {
                        lo
                    }, if row > hi {
                        row
                    } else {
                        hi
                    }),
                ),
                None => Some((row, row)),
            };
        }
        j = j + 1;
    }
    range
}

} // verus!
