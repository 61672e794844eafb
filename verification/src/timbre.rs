//! The patch: a master envelope over an ordered list of oscillators, and the
//! edits a control surface makes to that list.
//!
//! A control surface shows one row per wave. In one pass over the rows it may
//! report, for each row, a request to move the wave up, to move it down, or
//! to remove it. The removals are applied first; the moves are then applied
//! in the order in which they were reported, each between two positions of
//! the list that the removals left.

use vstd::prelude::*;
use crate::curve::Curve;
use crate::wave::{default_wave, Wave, WaveView, HALF};

verus! {

/// The mathematical content of a timbre.
pub struct TimbreView {
    /// The points of the master envelope.
    pub amp: Seq<u32>,
    /// The waves, in order.
    pub waves: Seq<WaveView>,
}

/// A complete patch. The waves are summed in order and the sum is scaled by
/// the master envelope `amp`.
#[derive(Clone, Debug, PartialEq, Eq)]
pub struct Timbre {
    /// The master envelope.
    pub amp: Curve,
    /// The waves, in order.
    pub waves: Vec<Wave>,
}

impl View for Timbre {
    type V = TimbreView;

    open spec fn view(&self) -> TimbreView {
        TimbreView { amp: self.amp@, waves: self.waves@.map_values(|w: Wave| w@) }
    }
}

/// What one pass of the control surface reported for one row.
#[derive(Clone, Copy, Debug, PartialEq, Eq)]
pub struct RowClicks {
    /// Move this wave one place towards the front.
    pub up: bool,
    /// Move this wave one place towards the back.
    pub down: bool,
    /// Remove this wave.
    pub remove: bool,
}

/// `items` with the elements at `a` and `b` exchanged.
pub open spec fn exchanged<A>(items: Seq<A>, a: int, b: int) -> Seq<A> {
    items.update(a, items[b]).update(b, items[a])
}

/// How many of the first `r` rows are not removed.
pub open spec fn kept_before(clicks: Seq<RowClicks>, r: int) -> int
    decreases r,
{
    if r <= 0 {
        0
    } else {
        kept_before(clicks, r - 1) + if clicks[r - 1].remove {
            0int
        } else {
            1int
        }
    }
}

/// The elements of `items` among the first `r` whose row is not removed, in
/// their order.
pub open spec fn retained<A>(items: Seq<A>, clicks: Seq<RowClicks>, r: int) -> Seq<A>
    decreases r,
{
    if r <= 0 {
        Seq::empty()
    } else if clicks[r - 1].remove {
        retained(items, clicks, r - 1)
    } else {
        retained(items, clicks, r - 1).push(items[r - 1])
    }
}

/// The moves that one row asks for. `at` is the position the row's wave has
/// once the rows before it are settled, `rows` the number of rows shown. A
/// move up is dropped at the front, a move down at the last row.
pub open spec fn row_swaps(c: RowClicks, at: int, rows: int) -> Seq<(usize, usize)> {
    let up: Seq<(usize, usize)> = if c.up && at != 0 {
        seq![(at as usize, (at - 1) as usize)]
    } else {
        Seq::empty()
    };
    let down: Seq<(usize, usize)> = if c.down && at != rows - 1 {
        seq![(at as usize, (at + 1) as usize)]
    } else {
        Seq::empty()
    };
    up + down
}

/// The moves that the first `r` rows ask for, in the order of the rows.
pub open spec fn planned_swaps(clicks: Seq<RowClicks>, r: int) -> Seq<(usize, usize)>
    decreases r,
{
    if r <= 0 {
        Seq::empty()
    } else {
        planned_swaps(clicks, r - 1) + row_swaps(
            clicks[r - 1],
            kept_before(clicks, r - 1),
            clicks.len() as int,
        )
    }
}

/// Whether every move in `swaps` stays inside a list of `n` elements.
pub open spec fn swaps_in_bounds(swaps: Seq<(usize, usize)>, n: int) -> bool {
    forall|j: int| 0 <= j < swaps.len() ==> (#[trigger] swaps[j]).0 < n && swaps[j].1 < n
}

/// `items` after the moves in `swaps`, applied first to last.
pub open spec fn swapped<A>(items: Seq<A>, swaps: Seq<(usize, usize)>) -> Seq<A>
    decreases swaps.len(),
{
    if swaps.len() == 0 {
        items
    } else {
        let before = swapped(items, swaps.drop_last());
        exchanged(before, swaps.last().0 as int, swaps.last().1 as int)
    }
}

/// Whether one pass of clicks can be applied to a list of `n` elements: one
/// row per element, and every move inside the list that the removals leave.
pub open spec fn clicks_apply(clicks: Seq<RowClicks>, n: int) -> bool {
    &&& clicks.len() == n
    &&& swaps_in_bounds(planned_swaps(clicks, n), kept_before(clicks, n))
}

/// `items` after one pass of clicks: removals first, then the moves.
pub open spec fn edited<A>(items: Seq<A>, clicks: Seq<RowClicks>) -> Seq<A> {
    swapped(
        retained(items, clicks, items.len() as int),
        planned_swaps(clicks, items.len() as int),
    )
}

impl RowClicks {
    /// A row on which nothing was clicked.
    pub fn none() -> (c: RowClicks)
        ensures
            !c.up && !c.down && !c.remove,
    {
        RowClicks { up: false, down: false, remove: false }
    }
}

/// Plans the moves of one pass: for each row in order, the moves it asks
/// for, between positions counted among the rows that are kept.
pub fn plan_swaps(clicks: &Vec<RowClicks>) -> (swaps: Vec<(usize, usize)>)
    ensures
        swaps@ == planned_swaps(clicks@, clicks@.len() as int),
{
    let rows: usize = clicks.len();
    let mut swaps: Vec<(usize, usize)> = Vec::new();
    let mut r: usize = 0;
    let mut at: usize = 0;
    while r < rows
        invariant
            rows == clicks@.len(),
            at <= r <= rows,
            at == kept_before(clicks@, r as int),
            swaps@ == planned_swaps(clicks@, r as int),
        decreases rows - r,
    {
        let c: RowClicks = clicks[r];
        if c.up && at != 0 {
            swaps.push((at, at - 1));
        }
        if c.down && at != rows - 1 {
            swaps.push((at, at + 1));
        }
        if !c.remove {
            at += 1;
        }
        r += 1;
    }
    swaps
}

/// Counts the rows that are not removed.
pub fn count_kept(clicks: &Vec<RowClicks>) -> (kept: usize)
    ensures
        kept == kept_before(clicks@, clicks@.len() as int),
{
    let rows: usize = clicks.len();
    let mut r: usize = 0;
    let mut kept: usize = 0;
    while r < rows
        invariant
            rows == clicks@.len(),
            kept <= r <= rows,
            kept == kept_before(clicks@, r as int),
        decreases rows - r,
    {
        if !clicks[r].remove {
            kept += 1;
        }
        r += 1;
    }
    kept
}

/// Tests whether every move in `swaps` stays inside a list of `n` elements.
pub fn swaps_fit(swaps: &Vec<(usize, usize)>, n: usize) -> (fit: bool)
    ensures
        fit == swaps_in_bounds(swaps@, n as int),
{
    let count: usize = swaps.len();
    let mut j: usize = 0;
    while j < count
        invariant
            count == swaps@.len(),
            j <= count,
            forall|i: int| 0 <= i < j ==> (#[trigger] swaps@[i]).0 < n && swaps@[i].1 < n,
        decreases count - j,
    {
        let (a, b) = swaps[j];
        if a >= n || b >= n {
            return false;
        }
        j += 1;
    }
    true
}

impl Timbre {
    /// The content of the patch a session starts with.
    pub open spec fn new_view() -> TimbreView {
        TimbreView { amp: seq![HALF], waves: Seq::empty() }
    }

    /// The patch a session starts with: no waves, master level one half.
    pub fn new() -> (timbre: Timbre)
        ensures
            timbre@ == Timbre::new_view(),
            timbre.waves@.len() == 0,
    {
        let timbre = Timbre { amp: Curve::constant(HALF), waves: Vec::new() };
        assert(timbre@.waves =~= Seq::empty());
        timbre
    }

    /// Appends a wave with the default settings.
    pub fn add_wave(&mut self)
        ensures
            final(self).amp == old(self).amp,
            final(self).waves@.len() == old(self).waves@.len() + 1,
            final(self).waves@.drop_last() == old(self).waves@,
            final(self).waves@.last()@ == default_wave(),
            final(self)@.waves == old(self)@.waves.push(default_wave()),
    {
        self.waves.push(Wave::new());
    }

    /// Exchanges the waves at positions `a` and `b`.
    pub fn swap_waves(&mut self, a: usize, b: usize)
        requires
            a < old(self).waves@.len(),
            b < old(self).waves@.len(),
        ensures
            final(self).amp == old(self).amp,
            final(self).waves@ == exchanged(old(self).waves@, a as int, b as int),
    {
        if a != b {
            let (lo, hi) = if a < b {
                (a, b)
            } else {
                (b, a)
            };
            let upper: Wave = self.waves.remove(hi);
            let lower: Wave = self.waves.remove(lo);
            self.waves.insert(lo, upper);
            self.waves.insert(hi, lower);
        }
    }

    /// Applies `swaps` first to last.
    pub fn apply_swaps(&mut self, swaps: &Vec<(usize, usize)>)
        requires
            swaps_in_bounds(swaps@, old(self).waves@.len() as int),
        ensures
            final(self).amp == old(self).amp,
            final(self).waves@ == swapped(old(self).waves@, swaps@),
    {
        let n: usize = swaps.len();
        let mut j: usize = 0;
        while j < n
            invariant
                n == swaps@.len(),
                j <= n,
                self.amp == old(self).amp,
                self.waves@.len() == old(self).waves@.len(),
                swaps_in_bounds(swaps@, old(self).waves@.len() as int),
                self.waves@ == swapped(old(self).waves@, swaps@.take(j as int)),
            decreases n - j,
        {
            let (a, b) = swaps[j];
            self.swap_waves(a, b);
            assert(swaps@.take(j + 1).drop_last() =~= swaps@.take(j as int));
            j += 1;
        }
        assert(swaps@.take(n as int) =~= swaps@);
    }

    /// Keeps the waves whose row is not removed, in their order.
    pub fn retain_waves(&mut self, clicks: &Vec<RowClicks>)
        requires
            clicks@.len() == old(self).waves@.len(),
        ensures
            final(self).amp == old(self).amp,
            final(self).waves@ == retained(
                old(self).waves@,
                clicks@,
                old(self).waves@.len() as int,
            ),
    {
        let n: usize = clicks.len();
        let mut r: usize = 0;
        let mut at: usize = 0;
        while r < n
            invariant
                n == clicks@.len(),
                n == old(self).waves@.len(),
                at <= r <= n,
                self.amp == old(self).amp,
                self.waves@ == retained(old(self).waves@, clicks@, r as int) + old(
                    self,
                ).waves@.subrange(r as int, n as int),
                retained(old(self).waves@, clicks@, r as int).len() == at,
            decreases n - r,
        {
            if clicks[r].remove {
                self.waves.remove(at);
            } else {
                at += 1;
            }
            r += 1;
        }
    }
    /// Applies one pass of clicks: removes the waves whose row says so, then
    /// makes the moves.
    pub fn apply_clicks(&mut self, clicks: &Vec<RowClicks>)
        requires
            clicks_apply(clicks@, old(self).waves@.len() as int),
        ensures
            final(self).amp == old(self).amp,
            final(self).waves@ == edited(old(self).waves@, clicks@),
    {
        let swaps: Vec<(usize, usize)> = plan_swaps(clicks);
        self.retain_waves(clicks);
        proof {
            lemma_retained_len(old(self).waves@, clicks@, clicks@.len() as int);
        }
        self.apply_swaps(&swaps);
    }

    /// Applies one pass of clicks where it can be applied, and says whether
    /// it did. Where it cannot, the timbre is left as it is.
    pub fn try_apply_clicks(&mut self, clicks: &Vec<RowClicks>) -> (applied: bool)
        ensures
            applied == clicks_apply(clicks@, old(self).waves@.len() as int),
            applied ==> final(self).amp == old(self).amp && final(self).waves@ == edited(
                old(self).waves@,
                clicks@,
            ),
            !applied ==> *final(self) == *old(self),
    {
        if clicks.len() != self.waves.len() {
            return false;
        }
        let swaps: Vec<(usize, usize)> = plan_swaps(clicks);
        let kept: usize = count_kept(clicks);
        if !swaps_fit(&swaps, kept) {
            return false;
        }
        self.apply_clicks(clicks);
        true
    }
}

/// As many elements are retained as rows are kept.
pub proof fn lemma_retained_len<A>(items: Seq<A>, clicks: Seq<RowClicks>, r: int)
    ensures
        retained(items, clicks, r).len() == kept_before(clicks, r),
    decreases r,
{
    if r > 0 {
        lemma_retained_len(items, clicks, r - 1);
    }
}

/// A row on which nothing was clicked.
pub open spec fn quiet(c: RowClicks) -> bool {
    !c.up && !c.down && !c.remove
}

/// Whether every row but row `r` is quiet.
pub open spec fn only_row(clicks: Seq<RowClicks>, r: int) -> bool {
    &&& 0 <= r < clicks.len()
    &&& forall|i: int| 0 <= i < clicks.len() && i != r ==> quiet(#[trigger] clicks[i])
}

/// While every row is quiet nothing is removed and no move is planned.
proof fn lemma_quiet_rows<A>(items: Seq<A>, clicks: Seq<RowClicks>, r: int)
    requires
        clicks.len() == items.len(),
        0 <= r <= items.len(),
        forall|i: int| 0 <= i < r ==> quiet(#[trigger] clicks[i]),
    ensures
        kept_before(clicks, r) == r,
        retained(items, clicks, r) == items.take(r),
        planned_swaps(clicks, r) == Seq::<(usize, usize)>::empty(),
    decreases r,
{
    if r > 0 {
        lemma_quiet_rows(items, clicks, r - 1);
        assert(quiet(clicks[r - 1]));
    }
}

/// With clicks on row `at` alone, the rows up to `r` (past `at`) lose at most
/// that row's wave, and the plan holds that row's moves and no others.
proof fn lemma_one_row<A>(items: Seq<A>, clicks: Seq<RowClicks>, at: int, r: int)
    requires
        clicks.len() == items.len(),
        only_row(clicks, at),
        at < r <= items.len(),
    ensures
        kept_before(clicks, r) == if clicks[at].remove {
            r - 1
        } else {
            r
        },
        retained(items, clicks, r) == if clicks[at].remove {
            items.take(r).remove(at)
        } else {
            items.take(r)
        },
        planned_swaps(clicks, r) == row_swaps(clicks[at], at, clicks.len() as int),
    decreases r,
{
    if r == at + 1 {
        lemma_quiet_rows(items, clicks, at);
    } else {
        lemma_one_row(items, clicks, at, r - 1);
        assert(quiet(clicks[r - 1]));
    }
}

/// A single planned move exchanges its two positions.
proof fn lemma_swapped_one<A>(items: Seq<A>, a: usize, b: usize)
    ensures
        swapped(items, seq![(a, b)]) == exchanged(items, a as int, b as int),
        swapped(items, Seq::<(usize, usize)>::empty()) == items,
{
    let one = seq![(a, b)];
    assert(swapped(items, one.drop_last()) == items);
}

/// A pass without clicks changes nothing, and can always be applied.
pub proof fn lemma_no_clicks<A>(items: Seq<A>, clicks: Seq<RowClicks>)
    requires
        clicks.len() == items.len(),
        forall|i: int| 0 <= i < clicks.len() ==> quiet(#[trigger] clicks[i]),
    ensures
        clicks_apply(clicks, items.len() as int),
        edited(items, clicks) == items,
{
    lemma_quiet_rows(items, clicks, items.len() as int);
}

/// Removing one wave, with no other click in the pass, takes that wave out
/// and keeps the others in their order.
pub proof fn lemma_remove_one<A>(items: Seq<A>, clicks: Seq<RowClicks>, at: int)
    requires
        clicks.len() == items.len(),
        only_row(clicks, at),
        clicks[at].remove,
        !clicks[at].up,
        !clicks[at].down,
    ensures
        clicks_apply(clicks, items.len() as int),
        edited(items, clicks) == items.remove(at),
{
    lemma_one_row(items, clicks, at, items.len() as int);
}

/// Removing the only wave leaves no wave, whatever else was clicked on its
/// row.
pub proof fn lemma_remove_only_wave<A>(items: Seq<A>, clicks: Seq<RowClicks>)
    requires
        items.len() == 1,
        clicks.len() == 1,
        clicks[0].remove,
    ensures
        clicks_apply(clicks, 1),
        edited(items, clicks) == Seq::<A>::empty(),
{
    lemma_one_row(items, clicks, 0, 1);
}

/// One click on "up", with no other click in the pass, exchanges the wave
/// with the one before it; on the first row it does nothing.
pub proof fn lemma_move_up<A>(items: Seq<A>, clicks: Seq<RowClicks>, at: int)
    requires
        clicks.len() == items.len(),
        items.len() <= usize::MAX,
        only_row(clicks, at),
        clicks[at].up,
        !clicks[at].down,
        !clicks[at].remove,
    ensures
        clicks_apply(clicks, items.len() as int),
        at > 0 ==> edited(items, clicks) == exchanged(items, at, at - 1),
        at == 0 ==> edited(items, clicks) == items,
{
    lemma_one_row(items, clicks, at, items.len() as int);
    assert(items.take(items.len() as int) =~= items);
    if at > 0 {
        lemma_swapped_one(items, at as usize, (at - 1) as usize);
    }
}

/// One click on "down", with no other click in the pass, exchanges the wave
/// with the one after it; on the last row it does nothing.
pub proof fn lemma_move_down<A>(items: Seq<A>, clicks: Seq<RowClicks>, at: int)
    requires
        clicks.len() == items.len(),
        items.len() <= usize::MAX,
        only_row(clicks, at),
        clicks[at].down,
        !clicks[at].up,
        !clicks[at].remove,
    ensures
        clicks_apply(clicks, items.len() as int),
        at < items.len() - 1 ==> edited(items, clicks) == exchanged(items, at, at + 1),
        at == items.len() - 1 ==> edited(items, clicks) == items,
{
    lemma_one_row(items, clicks, at, items.len() as int);
    assert(items.take(items.len() as int) =~= items);
    if at < items.len() - 1 {
        lemma_swapped_one(items, at as usize, (at + 1) as usize);
    }
}

/// A pass of clicks neither adds a wave nor invents one: the list gets no
/// longer, and where nothing is removed it keeps its length.
pub proof fn lemma_edited_len<A>(items: Seq<A>, clicks: Seq<RowClicks>)
    requires
        clicks_apply(clicks, items.len() as int),
    ensures
        edited(items, clicks).len() == kept_before(clicks, items.len() as int),
        edited(items, clicks).len() <= items.len(),
{
    let n = items.len() as int;
    lemma_retained_len(items, clicks, n);
    lemma_kept_bound(clicks, n);
    lemma_swapped_len(retained(items, clicks, n), planned_swaps(clicks, n));
}

/// At most `r` of the first `r` rows are kept.
pub proof fn lemma_kept_bound(clicks: Seq<RowClicks>, r: int)
    requires
        0 <= r,
    ensures
        0 <= kept_before(clicks, r) <= r,
    decreases r,
{
    if r > 0 {
        lemma_kept_bound(clicks, r - 1);
    }
}

/// Moves inside the list keep its length.
pub proof fn lemma_swapped_len<A>(items: Seq<A>, swaps: Seq<(usize, usize)>)
    requires
        swaps_in_bounds(swaps, items.len() as int),
    ensures
        swapped(items, swaps).len() == items.len(),
    decreases swaps.len(),
{
    if swaps.len() > 0 {
        lemma_swapped_len(items, swaps.drop_last());
    }
}

/// Exchanging two elements only reorders the list.
pub proof fn lemma_exchanged_reorders<A>(items: Seq<A>, a: int, b: int)
    requires
        0 <= a < items.len(),
        0 <= b < items.len(),
    ensures
        exchanged(items, a, b).len() == items.len(),
        exchanged(items, a, b).to_multiset() == items.to_multiset(),
{
    broadcast use vstd::multiset::group_multiset_axioms;

    let half = items.update(a, items[b]);
    vstd::seq_lib::to_multiset_update(items, a, items[b]);
    vstd::seq_lib::to_multiset_update(half, b, items[a]);
    vstd::seq_lib::to_multiset_contains(items, items[a]);
    let m = items.to_multiset();
    let m1 = m.insert(items[b]);
    let m2 = m1.remove(items[a]);
    let m3 = m2.insert(items[a]);
    let m4 = m3.remove(items[b]);
    assert(m4 =~= m);
}

/// Moves inside the list only reorder it: the same waves are there, each as
/// often as before.
pub proof fn lemma_moves_only_reorder<A>(items: Seq<A>, swaps: Seq<(usize, usize)>)
    requires
        swaps_in_bounds(swaps, items.len() as int),
    ensures
        swapped(items, swaps).to_multiset() == items.to_multiset(),
    decreases swaps.len(),
{
    if swaps.len() > 0 {
        let earlier = swaps.drop_last();
        lemma_moves_only_reorder(items, earlier);
        lemma_swapped_len(items, earlier);
        lemma_exchanged_reorders(
            swapped(items, earlier),
            swaps.last().0 as int,
            swaps.last().1 as int,
        );
    }
}

/// Removals only remove: what is retained of the first `r` rows was among
/// them, no more often than before.
pub proof fn lemma_removals_only_remove<A>(items: Seq<A>, clicks: Seq<RowClicks>, r: int)
    requires
        0 <= r <= items.len(),
    ensures
        retained(items, clicks, r).to_multiset().subset_of(items.take(r).to_multiset()),
    decreases r,
{
    if r > 0 {
        lemma_removals_only_remove(items, clicks, r - 1);
        let before = retained(items, clicks, r - 1);
        assert(items.take(r - 1).push(items[r - 1]) =~= items.take(r));
        vstd::seq_lib::to_multiset_build(items.take(r - 1), items[r - 1]);
        vstd::seq_lib::to_multiset_build(before, items[r - 1]);
    } else {
        assert(retained(items, clicks, r) =~= items.take(r));
    }
}

/// A pass of clicks invents no wave: every wave of the result was in the list
/// before, no more often than there.
pub proof fn lemma_edits_invent_nothing<A>(items: Seq<A>, clicks: Seq<RowClicks>)
    requires
        clicks_apply(clicks, items.len() as int),
    ensures
        edited(items, clicks).to_multiset().subset_of(items.to_multiset()),
{
    let n = items.len() as int;
    lemma_removals_only_remove(items, clicks, n);
    assert(items.take(n) =~= items);
    lemma_retained_len(items, clicks, n);
    lemma_moves_only_reorder(retained(items, clicks, n), planned_swaps(clicks, n));
}

} // verus!
