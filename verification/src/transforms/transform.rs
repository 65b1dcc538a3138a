//! Insertions into and deletions from a fragment, recorded first and
//! applied together.

use vstd::prelude::*;

use crate::event::lemma_views_push;
use crate::event::views;
use crate::event::EventView;
use crate::event::SgmlEvent;
use crate::fragment::SgmlFragment;

verus! {

/// A convenience helper to insert and remove events from a [`SgmlFragment`].
#[derive(Clone, Debug, Default)]
pub struct Transform {
    insertions: Vec<(usize, SgmlEvent)>,
    deletions: Vec<usize>,
}

/// The mathematical value of a [`Transform`]: the insertions, each with
/// its position, and the positions of the deletions, in the order in
/// which they were recorded.
pub struct TransformView {
    pub insertions: Seq<(int, EventView)>,
    pub deletions: Seq<int>,
}

/// The insertions as values.
pub open spec fn insertion_views(insertions: Seq<(usize, SgmlEvent)>) -> Seq<(int, EventView)> {
    Seq::new(insertions.len(), |i: int| (insertions[i].0 as int, insertions[i].1@))
}

impl View for Transform {
    type V = TransformView;

    closed spec fn view(&self) -> TransformView {
        TransformView {
            insertions: insertion_views(self.insertions@),
            deletions: Seq::new(self.deletions@.len(), |i: int| self.deletions@[i] as int),
        }
    }
}

/// The events that were recorded for insertion at the position `index`,
/// in the order in which they were recorded.
pub open spec fn inserted_at(insertions: Seq<(int, EventView)>, index: int) -> Seq<EventView>
    decreases insertions.len(),
{
    if insertions.len() == 0 {
        Seq::empty()
    } else {
        inserted_at(insertions.drop_last(), index) + (if insertions.last().0 == index {
            seq![insertions.last().1]
        } else {
            Seq::empty()
        })
    }
}

/// What the transform makes of the first `n` events: before each event
/// stand the events inserted at its position, and the events whose
/// position was recorded for deletion are left out.
pub open spec fn applied_until(events: Seq<EventView>, t: TransformView, n: int) -> Seq<EventView>
    decreases n,
{
    if n <= 0 {
        Seq::empty()
    } else {
        applied_until(events, t, n - 1) + inserted_at(t.insertions, n - 1) + (if t.deletions.contains(
            n - 1,
        ) {
            Seq::empty()
        } else {
            seq![events[n - 1]]
        })
    }
}

/// The events inserted at the positions from `from` up to and without
/// `to`, by position and, at one position, in the order in which they
/// were recorded.
pub open spec fn inserted_between(insertions: Seq<(int, EventView)>, from: int, to: int) -> Seq<
    EventView,
>
    decreases to - from,
{
    if to <= from {
        Seq::empty()
    } else {
        inserted_between(insertions, from, to - 1) + inserted_at(insertions, to - 1)
    }
}

/// A position after those of all the insertions.
pub open spec fn positions_end(insertions: Seq<(int, EventView)>) -> int
    decreases insertions.len(),
{
    if insertions.len() == 0 {
        0
    } else {
        let rest = positions_end(insertions.drop_last());
        if insertions.last().0 >= rest {
            insertions.last().0 + 1
        } else {
            rest
        }
    }
}

/// What the transform makes of the events: positions refer to the events
/// as given. Before each event stand the events inserted at its
/// position, in the order in which they were recorded; an event whose
/// position was recorded for deletion is left out; and the events
/// inserted at the end or after it follow, ordered by position.
pub open spec fn applied(events: Seq<EventView>, t: TransformView) -> Seq<EventView> {
    applied_until(events, t, events.len() as int) + inserted_between(
        t.insertions,
        events.len() as int,
        positions_end(t.insertions),
    )
}

/// No event is inserted at a position at which none was recorded.
pub proof fn lemma_inserted_at_none(insertions: Seq<(int, EventView)>, index: int)
    requires
        forall|k: int| 0 <= k < insertions.len() ==> (#[trigger] insertions[k]).0 != index,
    ensures
        inserted_at(insertions, index) == Seq::<EventView>::empty(),
    decreases insertions.len(),
{
    if insertions.len() > 0 {
        lemma_inserted_at_none(insertions.drop_last(), index);
    }
}

/// Every insertion has a position before `positions_end`.
pub proof fn lemma_positions_end(insertions: Seq<(int, EventView)>)
    ensures
        forall|k: int| 0 <= k < insertions.len() ==> (#[trigger] insertions[k]).0 < positions_end(
            insertions,
        ),
    decreases insertions.len(),
{
    if insertions.len() > 0 {
        lemma_positions_end(insertions.drop_last());
        assert forall|k: int| 0 <= k < insertions.len() implies (#[trigger] insertions[k]).0
            < positions_end(insertions) by {
            if k < insertions.len() - 1 {
                assert(insertions.drop_last()[k] == insertions[k]);
            }
        }
    }
}

/// No event is inserted at a position after those of all insertions.
pub proof fn lemma_inserted_at_after_end(insertions: Seq<(int, EventView)>, index: int)
    requires
        index >= positions_end(insertions),
    ensures
        inserted_at(insertions, index) == Seq::<EventView>::empty(),
{
    lemma_positions_end(insertions);
    lemma_inserted_at_none(insertions, index);
}

/// An event is inserted at each position that was recorded.
pub proof fn lemma_inserted_at_some(insertions: Seq<(int, EventView)>, k: int)
    requires
        0 <= k < insertions.len(),
    ensures
        inserted_at(insertions, insertions[k].0).len() > 0,
    decreases insertions.len(),
{
    if k < insertions.len() - 1 {
        lemma_inserted_at_some(insertions.drop_last(), k);
        assert(insertions.drop_last()[k] == insertions[k]);
    }
}

/// A transform without insertions and deletions keeps the first events
/// as they are.
pub proof fn lemma_applied_until_nothing(events: Seq<EventView>, t: TransformView, n: int)
    requires
        t.insertions.len() == 0,
        t.deletions.len() == 0,
        0 <= n <= events.len(),
    ensures
        applied_until(events, t, n) == events.take(n),
    decreases n,
{
    if n > 0 {
        lemma_applied_until_nothing(events, t, n - 1);
        assert(events.take(n) == events.take(n - 1).push(events[n - 1]));
        assert(!t.deletions.contains(n - 1));
        assert(inserted_at(t.insertions, n - 1) == Seq::<EventView>::empty());
        assert(events.take(n - 1) + Seq::<EventView>::empty() + seq![events[n - 1]]
            == events.take(n - 1).push(events[n - 1]));
    } else {
        assert(events.take(0) == Seq::<EventView>::empty());
    }
}

/// A transform without insertions and deletions changes nothing.
pub proof fn lemma_applied_nothing(events: Seq<EventView>, t: TransformView)
    requires
        t.insertions.len() == 0,
        t.deletions.len() == 0,
    ensures
        applied(events, t) == events,
{
    lemma_applied_until_nothing(events, t, events.len() as int);
    assert(events.take(events.len() as int) == events);
    assert(positions_end(t.insertions) == 0);
    assert(inserted_between(t.insertions, events.len() as int, 0) == Seq::<EventView>::empty());
    assert(events + Seq::<EventView>::empty() == events);
}

/// Where no event is inserted at the positions from `from` up to and
/// without `to`, the events inserted before `to` are those inserted
/// before `from`.
pub proof fn lemma_inserted_between_empty(
    insertions: Seq<(int, EventView)>,
    start: int,
    from: int,
    to: int,
)
    requires
        start <= from,
        forall|p: int| from <= p < to ==> inserted_at(insertions, p) == Seq::<EventView>::empty(),
    ensures
        from <= to ==> inserted_between(insertions, start, to) == inserted_between(
            insertions,
            start,
            from,
        ),
    decreases to - from,
{
    if from < to {
        lemma_inserted_between_empty(insertions, start, from, to - 1);
        assert(inserted_between(insertions, start, to - 1) + Seq::<EventView>::empty()
            == inserted_between(insertions, start, to - 1));
    }
}

/// Where no event is inserted at or after the earlier of the positions
/// `x` and `y`, the events inserted before `x` are those inserted before
/// `y`.
pub proof fn lemma_inserted_between_tail(
    insertions: Seq<(int, EventView)>,
    start: int,
    x: int,
    y: int,
)
    requires
        start <= x,
        start <= y,
        forall|p: int| (p >= x || p >= y) ==> inserted_at(insertions, p) == Seq::<EventView>::empty(),
    ensures
        inserted_between(insertions, start, x) == inserted_between(insertions, start, y),
{
    if x <= y {
        lemma_inserted_between_empty(insertions, start, x, y);
    } else {
        lemma_inserted_between_empty(insertions, start, y, x);
    }
}

/// Two lists of insertions that insert the same events at each position
/// from `from` on insert the same events between `from` and `to`.
pub proof fn lemma_inserted_between_same(
    a: Seq<(int, EventView)>,
    b: Seq<(int, EventView)>,
    from: int,
    to: int,
)
    requires
        forall|p: int| from <= p ==> inserted_at(a, p) == #[trigger] inserted_at(b, p),
    ensures
        inserted_between(a, from, to) == inserted_between(b, from, to),
    decreases to - from,
{
    if from < to {
        lemma_inserted_between_same(a, b, from, to - 1);
    }
}

/// The insertions at or after the position `from`, taken by themselves,
/// give the same events after `from` as all the insertions.
pub proof fn lemma_late_insertions(
    late: Seq<(int, EventView)>,
    all: Seq<(int, EventView)>,
    from: int,
)
    requires
        forall|p: int| from <= p ==> inserted_at(late, p) == #[trigger] inserted_at(all, p),
        forall|j: int| 0 <= j < late.len() ==> (#[trigger] late[j]).0 >= from,
    ensures
        inserted_between(late, from, positions_end(late)) == inserted_between(
            all,
            from,
            positions_end(all),
        ),
{
    let x = positions_end(late);
    let y = positions_end(all);
    assert forall|p: int| p >= from && (p >= x || p >= y) implies inserted_at(all, p) == Seq::<
        EventView,
    >::empty() by {
        if p >= y {
            lemma_inserted_at_after_end(all, p);
        } else {
            lemma_inserted_at_after_end(late, p);
        }
    }
    if late.len() == 0 {
        assert forall|p: int| from <= p implies inserted_at(all, p) == Seq::<EventView>::empty() by {
            assert(inserted_at(late, p) == Seq::<EventView>::empty());
        }
        assert(inserted_between(late, from, x) == Seq::<EventView>::empty()) by {
            if x > from {
                lemma_inserted_between_empty(late, from, from, x);
            }
        }
        if y > from {
            lemma_inserted_between_empty(all, from, from, y);
        }
    } else {
        lemma_positions_end(late);
        assert(late[0].0 < x);
        lemma_inserted_at_some(late, 0);
        assert(inserted_at(all, late[0].0).len() > 0);
        if y <= late[0].0 {
            lemma_inserted_at_after_end(all, late[0].0);
        }
        lemma_inserted_between_same(late, all, from, x);
        assert forall|p: int| (p >= x || p >= y) implies inserted_at(all, p) == Seq::<
            EventView,
        >::empty() by {}
        lemma_inserted_between_tail(all, from, x, y);
    }
}

impl Transform {
    /// Creates a new empty `Transform`.
    pub fn new() -> (t: Transform)
        ensures
            t@.insertions == Seq::<(int, EventView)>::empty(),
            t@.deletions == Seq::<int>::empty(),
    {
        let t = Transform { insertions: Vec::new(), deletions: Vec::new() };
        assert(t@.insertions =~= Seq::<(int, EventView)>::empty());
        assert(t@.deletions =~= Seq::<int>::empty());
        t
    }

    /// Returns `true` if no operations were recorded.
    pub fn is_empty(&self) -> (r: bool)
        ensures
            r == (self@.insertions.len() == 0 && self@.deletions.len() == 0),
    {
        self.insertions.len() == 0 && self.deletions.len() == 0
    }

    /// Removes the event at the given position.
    ///
    /// The position is always relative to the original list --- you should not
    /// adjust indices to acommodate other insertions or removals.
    ///
    /// Removing the same `index` multiple times is a no-op, since indices are not readjusted.
    pub fn remove_at(&mut self, index: usize)
        ensures
            final(self)@.insertions == old(self)@.insertions,
            final(self)@.deletions == old(self)@.deletions.push(index as int),
    {
        self.deletions.push(index);
        assert(self@.deletions =~= old(self)@.deletions.push(index as int));
    }

    /// Inserts an event at the given position.
    ///
    /// The position is always relative to the original list --- you should not
    /// adjust indices to acommodate other insertions or removals.
    ///
    /// Inserting multiple events at the same `index` will place them in the order they were passed.
    pub fn insert_at(&mut self, index: usize, event: SgmlEvent)
        ensures
            final(self)@.insertions == old(self)@.insertions.push((index as int, event@)),
            final(self)@.deletions == old(self)@.deletions,
    {
        self.insertions.push((index, event));
        assert(self@.insertions =~= old(self)@.insertions.push((index as int, event@)));
    }

    /// Tests whether the position `index` was recorded for deletion.
    fn deletes(&self, index: usize) -> (r: bool)
        ensures
            r == self@.deletions.contains(index as int),
    {
        let mut k: usize = 0;
        while k < self.deletions.len()
            invariant
                k <= self.deletions@.len(),
                forall|j: int| 0 <= j < k ==> self@.deletions[j] != index,
            decreases self.deletions@.len() - k,
        {
            if self.deletions[k] == index {
                assert(self@.deletions[k as int] == index as int);
                return true;
            }
            k += 1;
        }
        false
    }

    /// Applies the recorded changes to the given fragment.
    pub fn apply(self, fragment: SgmlFragment) -> (r: SgmlFragment)
        ensures
            r@ == applied(fragment@, self@),
    {
        if self.is_empty() {
            proof {
                lemma_applied_nothing(fragment@, self@);
            }
            return fragment;
        }
        let len = fragment.events.len();
        let ghost t = self@;
        let ghost events = fragment@;

        // the events to insert, sorted by position: one slot for each
        // position before the end, and the rest
        let mut slots: Vec<Vec<SgmlEvent>> = Vec::new();
        let mut i: usize = 0;
        while i < len
            invariant
                i <= len,
                slots@.len() == i,
                forall|p: int| 0 <= p < i ==> (#[trigger] slots@[p])@.len() == 0,
            decreases len - i,
        {
            slots.push(Vec::new());
            i += 1;
        }
        let mut late: Vec<(usize, SgmlEvent)> = Vec::new();
        let mut k: usize = 0;
        proof {
            assert(t.insertions.take(0) == Seq::<(int, EventView)>::empty());
            assert forall|p: int| 0 <= p < len implies views(#[trigger] slots@[p]@) == inserted_at(
                t.insertions.take(0),
                p,
            ) by {
                assert(views(slots@[p]@) =~= Seq::<EventView>::empty());
            }
            assert(insertion_views(late@) =~= Seq::<(int, EventView)>::empty());
        }
        while k < self.insertions.len()
            invariant
                k <= self.insertions@.len(),
                t == self@,
                slots@.len() == len,
                forall|p: int|
                    0 <= p < len ==> views(#[trigger] slots@[p]@) == inserted_at(
                        t.insertions.take(k as int),
                        p,
                    ),
                forall|p: int|
                    len <= p ==> inserted_at(insertion_views(late@), p) == #[trigger] inserted_at(
                        t.insertions.take(k as int),
                        p,
                    ),
                forall|j: int| 0 <= j < late@.len() ==> (#[trigger] late@[j]).0 >= len,
            decreases self.insertions@.len() - k,
        {
            let position = self.insertions[k].0;
            let event = self.insertions[k].1.duplicate();
            let ghost before = t.insertions.take(k as int);
            let ghost after = t.insertions.take(k + 1);
            proof {
                assert(after.drop_last() == before);
                assert(after.last() == (position as int, event@));
            }
            if position < len {
                let ghost old_slots = slots@;
                slots[position].push(event);
                proof {
                    assert forall|p: int| 0 <= p < len implies views(#[trigger] slots@[p]@)
                        == inserted_at(after, p) by {
                        if p == position {
                            lemma_views_push(old_slots[p]@, event);
                            assert(views(old_slots[p]@).push(event@) == views(old_slots[p]@)
                                + seq![event@]);
                        } else {
                            assert(slots@[p] == old_slots[p]);
                            assert(inserted_at(before, p) + Seq::<EventView>::empty()
                                == inserted_at(before, p));
                        }
                    }
                    assert forall|p: int| len <= p implies inserted_at(
                        insertion_views(late@),
                        p,
                    ) == #[trigger] inserted_at(after, p) by {
                        assert(inserted_at(before, p) + Seq::<EventView>::empty() == inserted_at(
                            before,
                            p,
                        ));
                    }
                }
            } else {
                let ghost old_late = insertion_views(late@);
                late.push((position, event));
                proof {
                    let new_late = insertion_views(late@);
                    assert(new_late.drop_last() == old_late);
                    assert(new_late.last() == (position as int, event@));
                    assert forall|p: int| 0 <= p < len implies views(#[trigger] slots@[p]@)
                        == inserted_at(after, p) by {
                        assert(inserted_at(before, p) + Seq::<EventView>::empty() == inserted_at(
                            before,
                            p,
                        ));
                    }
                    assert forall|p: int| len <= p implies inserted_at(new_late, p)
                        == #[trigger] inserted_at(after, p) by {
                        assert(inserted_at(old_late, p) == inserted_at(before, p));
                    }
                }
            }
            k += 1;
        }
        assert(t.insertions.take(self.insertions@.len() as int) == t.insertions);

        let mut result: Vec<SgmlEvent> = Vec::new();
        let mut i: usize = 0;
        assert(views(result@) =~= applied_until(events, t, 0));
        while i < len
            invariant
                i <= len,
                len == fragment.events@.len(),
                events == fragment@,
                t == self@,
                slots@.len() == len,
                forall|p: int|
                    0 <= p < len ==> views(#[trigger] slots@[p]@) == inserted_at(t.insertions, p),
                views(result@) == applied_until(events, t, i as int),
            decreases len - i,
        {
            let slot = &slots[i];
            let ghost start = views(result@);
            let mut j: usize = 0;
            assert(views(slot@).take(0) == Seq::<EventView>::empty());
            while j < slot.len()
                invariant
                    j <= slot@.len(),
                    views(result@) == start + views(slot@).take(j as int),
                decreases slot@.len() - j,
            {
                let event = slot[j].duplicate();
                proof {
                    lemma_views_push(result@, event);
                    assert(views(slot@).take(j + 1) == views(slot@).take(j as int).push(event@));
                }
                result.push(event);
                j += 1;
            }
            assert(views(slot@).take(slot@.len() as int) == views(slot@));
            if !self.deletes(i) {
                let event = fragment.events[i].duplicate();
                proof {
                    lemma_views_push(result@, event);
                    assert(views(result@).push(event@) == views(result@) + seq![events[i as int]]);
                }
                result.push(event);
            } else {
                assert(views(result@) + Seq::<EventView>::empty() == views(result@));
            }
            i += 1;
        }
        // Insert remaining events at the end
        self.append_late(&late, len, &mut result);
        proof {
            lemma_late_insertions(insertion_views(late@), t.insertions, len as int);
        }
        SgmlFragment { events: result }
    }

    /// Appends to `result` the events of `late`, which are to be inserted
    /// at the positions from `len` on, ordered by position.
    fn append_late(&self, late: &Vec<(usize, SgmlEvent)>, len: usize, result: &mut Vec<SgmlEvent>)
        requires
            forall|j: int| 0 <= j < late@.len() ==> (#[trigger] late@[j]).0 >= len,
        ensures
            views(final(result)@) == views(old(result)@) + inserted_between(
                insertion_views(late@),
                len as int,
                positions_end(insertion_views(late@)),
            ),
    {
        let ghost entries = insertion_views(late@);
        if late.len() == 0 {
            proof {
                assert(positions_end(entries) == 0);
                assert(inserted_between(entries, len as int, 0) == Seq::<EventView>::empty());
                assert(views(result@) + Seq::<EventView>::empty() == views(result@));
            }
            return ;
        }
        let mut lower: usize = len;
        proof {
            lemma_positions_end(entries);
            assert(inserted_between(entries, len as int, len as int) == Seq::<EventView>::empty());
            assert(views(result@) + Seq::<EventView>::empty() == views(result@));
        }
        loop
            invariant
                late@.len() > 0,
                entries == insertion_views(late@),
                len <= lower,
                forall|j: int| 0 <= j < late@.len() ==> (#[trigger] late@[j]).0 >= len,
                views(result@) == views(old(result)@) + inserted_between(
                    entries,
                    len as int,
                    lower as int,
                ),
            decreases usize::MAX - lower,
        {
            // the least position at or after `lower`
            let mut found: Option<usize> = None;
            let mut k: usize = 0;
            while k < late.len()
                invariant
                    k <= late@.len(),
                    entries == insertion_views(late@),
                    match found {
                        Some(p) => lower <= p && (exists|j: int|
                            0 <= j < k && (#[trigger] late@[j]).0 == p) && forall|j: int|
                            0 <= j < k && (#[trigger] late@[j]).0 >= lower ==> late@[j].0 >= p,
                        None => forall|j: int| 0 <= j < k ==> (#[trigger] late@[j]).0 < lower,
                    },
                decreases late@.len() - k,
            {
                let p = late[k].0;
                if p >= lower {
                    match found {
                        Some(q) => {
                            if p < q {
                                found = Some(p);
                            }
                        },
                        None => {
                            found = Some(p);
                        },
                    }
                }
                k += 1;
            }
            let position = match found {
                None => {
                    proof {
                        // nothing is left: all positions lie before `lower`
                        lemma_positions_end(entries);
                        assert(entries[0].0 >= len);
                        assert forall|p: int| (p >= lower || p >= positions_end(
                            entries,
                        )) implies inserted_at(entries, p) == Seq::<EventView>::empty() by {
                            if p >= lower {
                                assert forall|j: int| 0 <= j < entries.len() implies (
                                #[trigger] entries[j]).0 != p by {
                                    assert(late@[j].0 < lower);
                                }
                                lemma_inserted_at_none(entries, p);
                            } else {
                                lemma_inserted_at_after_end(entries, p);
                            }
                        }
                        lemma_inserted_between_tail(
                            entries,
                            len as int,
                            lower as int,
                            positions_end(entries),
                        );
                    }
                    return ;
                },
                Some(p) => p,
            };
            proof {
                // no insertion between `lower` and `position`
                assert forall|p: int| lower <= p < position implies inserted_at(entries, p)
                    == Seq::<EventView>::empty() by {
                    assert forall|j: int| 0 <= j < entries.len() implies (#[trigger] entries[j]).0
                        != p by {
                        if late@[j].0 >= lower {
                        }
                    }
                    lemma_inserted_at_none(entries, p);
                }
                lemma_inserted_between_empty(entries, len as int, lower as int, position as int);
            }
            let ghost start = views(result@);
            let mut k: usize = 0;
            assert(entries.take(0) == Seq::<(int, EventView)>::empty());
            assert(start + Seq::<EventView>::empty() == start);
            while k < late.len()
                invariant
                    k <= late@.len(),
                    entries == insertion_views(late@),
                    views(result@) == start + inserted_at(entries.take(k as int), position as int),
                decreases late@.len() - k,
            {
                proof {
                    assert(entries.take(k + 1).drop_last() == entries.take(k as int));
                    assert(entries.take(k + 1).last() == entries[k as int]);
                }
                if late[k].0 == position {
                    let event = late[k].1.duplicate();
                    proof {
                        lemma_views_push(result@, event);
                        let a = inserted_at(entries.take(k as int), position as int);
                        assert((start + a).push(event@) == start + (a + seq![event@]));
                    }
                    result.push(event);
                } else {
                    proof {
                        let a = inserted_at(entries.take(k as int), position as int);
                        assert(a + Seq::<EventView>::empty() == a);
                    }
                }
                k += 1;
            }
            proof {
                assert(entries.take(late@.len() as int) == entries);
                let a = inserted_between(entries, len as int, position as int);
                let b = inserted_at(entries, position as int);
                assert(views(old(result)@) + a + b == views(old(result)@) + (a + b));
            }
            if position == usize::MAX {
                proof {
                    lemma_positions_end(entries);
                    assert(entries[0].0 >= len);
                    assert forall|p: int| (p >= position + 1 || p >= positions_end(
                        entries,
                    )) implies inserted_at(entries, p) == Seq::<EventView>::empty() by {
                        if p >= position + 1 {
                            lemma_inserted_at_none(entries, p);
                        } else {
                            lemma_inserted_at_after_end(entries, p);
                        }
                    }
                    lemma_inserted_between_tail(
                        entries,
                        len as int,
                        position + 1,
                        positions_end(entries),
                    );
                }
                return ;
            }
            lower = position + 1;
        }
    }
}

} // verus!
