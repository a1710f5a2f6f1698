//! Insertion-ordered tables keyed by identifiers, and bounded logs of retired identifiers.
use crate::ids::{lists, Uuid};
use vstd::prelude::*;

verus! {

/// An entry of `entries` is filed under `id`.
pub open spec fn holds<V>(entries: Seq<(Uuid, V)>, id: Uuid) -> bool {
    exists|i: int| 0 <= i < entries.len() && (#[trigger] entries[i]).0 == id
}

/// The position of the entry filed under `id`.
pub open spec fn index_of<V>(entries: Seq<(Uuid, V)>, id: Uuid) -> int {
    choose|i: int| 0 <= i < entries.len() && (#[trigger] entries[i]).0 == id
}

/// What is filed under `id`.
pub open spec fn filed<V>(entries: Seq<(Uuid, V)>, id: Uuid) -> V {
    entries[index_of(entries, id)].1
}

/// `entries` with `value` in place of what is filed under `id`.
pub open spec fn refiled<V>(entries: Seq<(Uuid, V)>, id: Uuid, value: V) -> Seq<(Uuid, V)> {
    entries.update(index_of(entries, id), (id, value))
}

/// `entries` without the one filed under `id`.
pub open spec fn without<V>(entries: Seq<(Uuid, V)>, id: Uuid) -> Seq<(Uuid, V)> {
    if holds(entries, id) {
        entries.remove(index_of(entries, id))
    } else {
        entries
    }
}

/// No identifier is filed twice.
pub open spec fn distinct<V>(entries: Seq<(Uuid, V)>) -> bool {
    forall|i: int, j: int|
        0 <= i < j < entries.len() ==> (#[trigger] entries[i]).0 != (#[trigger] entries[j]).0
}

/// The identifiers in the order in which they were filed.
pub open spec fn keys<V>(entries: Seq<(Uuid, V)>) -> Seq<Uuid> {
    entries.map_values(|entry: (Uuid, V)| entry.0)
}

/// The first entry from `from` on whose value meets `wanted`; the number of entries where there
/// is none.
pub open spec fn first_where<V>(
    entries: Seq<(Uuid, V)>,
    wanted: spec_fn(V) -> bool,
    from: nat,
) -> nat
    decreases entries.len() - from,
{
    if from >= entries.len() {
        entries.len()
    } else if wanted(entries[from as int].1) {
        from
    } else {
        first_where(entries, wanted, from + 1)
    }
}

/// The first entry that meets `wanted` is found by looking at each entry in turn.
pub proof fn first_where_is<V>(
    entries: Seq<(Uuid, V)>,
    wanted: spec_fn(V) -> bool,
    from: nat,
    at: nat,
)
    requires
        from <= at <= entries.len(),
        at < entries.len() ==> wanted(entries[at as int].1),
        forall|i: int| from <= i < at ==> !wanted((#[trigger] entries[i]).1),
    ensures
        first_where(entries, wanted, from) == at,
    decreases at - from,
{
    if from < at {
        first_where_is(entries, wanted, from + 1, at);
    }
}

/// The first entry that meets `wanted` meets it, and those before do not.
pub proof fn first_where_meets<V>(
    entries: Seq<(Uuid, V)>,
    wanted: spec_fn(V) -> bool,
    from: nat,
)
    requires
        from <= entries.len(),
    ensures
        from <= first_where(entries, wanted, from) <= entries.len(),
        first_where(entries, wanted, from) < entries.len() ==> wanted(
            entries[first_where(entries, wanted, from) as int].1,
        ),
        forall|i: int|
            from <= i < first_where(entries, wanted, from) ==> !wanted((#[trigger] entries[i]).1),
    decreases entries.len() - from,
{
    if from < entries.len() && !wanted(entries[from as int].1) {
        first_where_meets(entries, wanted, from + 1);
    }
}

/// The entry at `i` is the one that its identifier names.
pub proof fn index_is<V>(entries: Seq<(Uuid, V)>, i: int)
    requires
        distinct(entries),
        0 <= i < entries.len(),
    ensures
        holds(entries, entries[i].0),
        index_of(entries, entries[i].0) == i,
{
    let id = entries[i].0;
    let found = index_of(entries, id);
    assert(0 <= found < entries.len() && entries[found].0 == id);
}

/// Removing an entry keeps the others, in order, and keeps identifiers apart.
pub proof fn without_keeps_others<V>(entries: Seq<(Uuid, V)>, id: Uuid)
    requires
        distinct(entries),
    ensures
        distinct(without(entries, id)),
        !holds(without(entries, id), id),
        forall|other: Uuid|
            other != id ==> #[trigger] holds(without(entries, id), other) == holds(entries, other),
        forall|other: Uuid|
            other != id && holds(entries, other) ==> #[trigger] filed(without(entries, id), other)
                == filed(entries, other),
        without(entries, id).len() == entries.len() - (if holds(entries, id) {
            1int
        } else {
            0int
        }),
{
    let rest = without(entries, id);
    if holds(entries, id) {
        let at = index_of(entries, id);
        assert forall|i: int| 0 <= i < rest.len() implies #[trigger] rest[i] == entries[if i < at {
            i
        } else {
            i + 1
        }] by {}
        assert(distinct(rest));
        assert forall|other: Uuid| other != id implies #[trigger] holds(rest, other) == holds(
            entries,
            other,
        ) by {
            if holds(entries, other) {
                let k = index_of(entries, other);
                assert(rest[if k < at {
                    k
                } else {
                    k - 1
                }] == entries[k]);
            }
        }
        assert forall|other: Uuid| other != id && holds(entries, other) implies #[trigger] filed(
            rest,
            other,
        ) == filed(entries, other) by {
            let k = index_of(entries, other);
            let r = if k < at {
                k
            } else {
                k - 1
            };
            assert(rest[r] == entries[k]);
            index_is(rest, r);
        }
    }
}

/// Refiling one entry leaves every identifier where it was.
pub proof fn refiled_keeps_others<V>(entries: Seq<(Uuid, V)>, id: Uuid, value: V)
    requires
        distinct(entries),
        holds(entries, id),
    ensures
        distinct(refiled(entries, id, value)),
        filed(refiled(entries, id, value), id) == value,
        forall|other: Uuid| #[trigger]
            holds(refiled(entries, id, value), other) == holds(entries, other),
        forall|other: Uuid|
            other != id && holds(entries, other) ==> #[trigger] filed(
                refiled(entries, id, value),
                other,
            ) == filed(entries, other),
        refiled(entries, id, value).len() == entries.len(),
{
    let at = index_of(entries, id);
    let next = refiled(entries, id, value);
    assert forall|i: int| 0 <= i < next.len() implies (#[trigger] next[i]).0 == entries[i].0 by {}
    assert(distinct(next));
    assert(next[at] == (id, value));
    index_is(next, at);
    assert forall|other: Uuid| #[trigger] holds(next, other) == holds(entries, other) by {
        if holds(entries, other) {
            assert(next[index_of(entries, other)].0 == other);
        }
        if holds(next, other) {
            assert(entries[index_of(next, other)].0 == other);
        }
    }
    assert forall|other: Uuid| other != id && holds(entries, other) implies #[trigger] filed(
        next,
        other,
    ) == filed(entries, other) by {
        let k = index_of(entries, other);
        assert(next[k] == entries[k]);
        index_is(next, k);
    }
}

/// A table whose entries stay in the order in which they were filed.
pub struct Ledger<V> {
    pub entries: Vec<(Uuid, V)>,
}

impl<V> Ledger<V> {
    /// An empty table.
    pub fn new() -> (ledger: Self)
        ensures
            ledger.entries@ == Seq::<(Uuid, V)>::empty(),
    {
        Ledger { entries: Vec::new() }
    }

    /// The number of entries.
    pub fn len(&self) -> (len: usize)
        ensures
            len == self.entries@.len(),
    {
        self.entries.len()
    }

    /// `true` exactly when the table has no entry.
    pub fn is_empty(&self) -> (empty: bool)
        ensures
            empty == (self.entries@.len() == 0),
    {
        self.entries.len() == 0
    }

    /// Where the entry filed under `id` stands.
    pub fn position(&self, id: Uuid) -> (at: Option<usize>)
        requires
            distinct(self.entries@),
        ensures
            at is Some == holds(self.entries@, id),
            at is Some ==> at->0 < self.entries@.len() && at->0 == index_of(self.entries@, id)
                && self.entries@[at->0 as int].0 == id,
    {
        let mut i: usize = 0;
        while i < self.entries.len()
            invariant
                i <= self.entries@.len(),
                distinct(self.entries@),
                forall|k: int| 0 <= k < i ==> (#[trigger] self.entries@[k]).0 != id,
            decreases self.entries@.len() - i,
        {
            if self.entries[i].0 == id {
                proof {
                    index_is(self.entries@, i as int);
                }
                return Some(i);
            }
            i += 1;
        }
        None
    }

    /// `true` exactly when an entry is filed under `id`.
    pub fn contains_key(&self, id: Uuid) -> (found: bool)
        requires
            distinct(self.entries@),
        ensures
            found == holds(self.entries@, id),
    {
        self.position(id).is_some()
    }

    /// What is filed under `id`.
    pub fn get(&self, id: Uuid) -> (found: Option<&V>)
        requires
            distinct(self.entries@),
        ensures
            found is Some == holds(self.entries@, id),
            found is Some ==> *found->0 == filed(self.entries@, id),
    {
        match self.position(id) {
            Some(i) => Some(&self.entries[i].1),
            None => None,
        }
    }

    /// Files `value` under an identifier that the table does not hold yet.
    pub fn push(&mut self, id: Uuid, value: V)
        requires
            distinct(old(self).entries@),
            !holds(old(self).entries@, id),
        ensures
            final(self).entries@ == old(self).entries@.push((id, value)),
            distinct(final(self).entries@),
    {
        self.entries.push((id, value));
    }

    /// Removes what is filed under `id`.
    pub fn remove(&mut self, id: Uuid)
        requires
            distinct(old(self).entries@),
        ensures
            final(self).entries@ == without(old(self).entries@, id),
            distinct(final(self).entries@),
    {
        proof {
            without_keeps_others(self.entries@, id);
        }
        if let Some(i) = self.position(id) {
            let _removed = self.entries.remove(i);
        }
    }

    /// The identifiers in the order in which they were filed.
    pub fn ids(&self) -> (ids: Vec<Uuid>)
        ensures
            ids@ == keys(self.entries@),
    {
        let mut ids: Vec<Uuid> = Vec::new();
        let mut i: usize = 0;
        while i < self.entries.len()
            invariant
                i <= self.entries@.len(),
                ids@ == keys(self.entries@).take(i as int),
            decreases self.entries@.len() - i,
        {
            ids.push(self.entries[i].0);
            assert(ids@ =~= keys(self.entries@).take(i as int + 1));
            i += 1;
        }
        assert(ids@ =~= keys(self.entries@));
        ids
    }
}

/// `keys` lists exactly the identifiers that are held.
pub proof fn keys_are_held<V>(entries: Seq<(Uuid, V)>, id: Uuid)
    ensures
        keys(entries).contains(id) == holds(entries, id),
{
    if holds(entries, id) {
        assert(keys(entries)[index_of(entries, id)] == id);
    }
    if keys(entries).contains(id) {
        let at = choose|i: int| 0 <= i < keys(entries).len() && keys(entries)[i] == id;
        assert(entries[at].0 == id);
    }
}

/// `log` with `id` noted at its end, unless it is noted already, and cut to the newest `limit`.
pub open spec fn noted(log: Seq<Uuid>, id: Uuid, limit: int) -> Seq<Uuid> {
    let longer = if log.contains(id) {
        log
    } else {
        log.push(id)
    };
    if longer.len() > limit {
        longer.subrange(longer.len() - limit, longer.len() as int)
    } else {
        longer
    }
}

/// Notes `id` in a log of retired identifiers, forgetting the oldest beyond `limit`.
pub fn note_retired(log: &mut Vec<Uuid>, id: Uuid, limit: usize)
    requires
        old(log)@.no_duplicates(),
    ensures
        final(log)@ == noted(old(log)@, id, limit as int),
        final(log)@.no_duplicates(),
        final(log)@.len() <= limit,
        forall|other: Uuid| #[trigger]
            final(log)@.contains(other) ==> other == id || old(log)@.contains(other),
        limit > 0 && old(log)@.len() <= limit ==> final(log)@.contains(id),
{
    let ghost before = log@;
    if !lists(log, id) {
        log.push(id);
        assert(log@[log@.len() - 1] == id);
    }
    let ghost longer = log@;
    assert(longer == before || longer == before.push(id));
    assert(longer.no_duplicates());
    assert(longer.contains(id));
    while log.len() > limit
        invariant
            longer.no_duplicates(),
            log@.len() <= longer.len(),
            log@ == longer.subrange(longer.len() - log@.len(), longer.len() as int),
            log@.len() >= limit || log@ == longer,
            longer == before || longer == before.push(id),
        decreases log@.len(),
    {
        let ghost held = log@;
        let _expired: Uuid = log.remove(0);
        assert(log@ =~= longer.subrange(longer.len() - log@.len(), longer.len() as int));
    }
    proof {
        assert forall|other: Uuid| #[trigger] log@.contains(other) implies other == id
            || before.contains(other) by {
            let at = choose|i: int| 0 <= i < log@.len() && log@[i] == other;
            let from = at + longer.len() - log@.len();
            assert(longer[from] == other);
            if from < before.len() {
                assert(before[from] == other);
            }
        }
        assert(log@ =~= noted(before, id, limit as int));
        if limit > 0 && before.len() <= limit {
            if before.contains(id) {
                assert(log@ =~= before);
            } else {
                assert(log@[log@.len() - 1] == id);
            }
        }
    }
}

/// `log` with each of `ids` noted in turn.
pub open spec fn noted_all(log: Seq<Uuid>, ids: Seq<Uuid>, limit: int) -> Seq<Uuid>
    decreases ids.len(),
{
    if ids.len() == 0 {
        log
    } else {
        noted(noted_all(log, ids.drop_last(), limit), ids.last(), limit)
    }
}

/// The entries whose value is not `dropped`, in order.
pub open spec fn retained<V>(entries: Seq<(Uuid, V)>, dropped: spec_fn(V) -> bool) -> Seq<
    (Uuid, V),
>
    decreases entries.len(),
{
    if entries.len() == 0 {
        Seq::empty()
    } else if dropped(entries.last().1) {
        retained(entries.drop_last(), dropped)
    } else {
        retained(entries.drop_last(), dropped).push(entries.last())
    }
}

/// The identifiers whose value is `dropped`, in order.
pub open spec fn dropped_ids<V>(entries: Seq<(Uuid, V)>, dropped: spec_fn(V) -> bool) -> Seq<Uuid>
    decreases entries.len(),
{
    if entries.len() == 0 {
        Seq::empty()
    } else if dropped(entries.last().1) {
        dropped_ids(entries.drop_last(), dropped).push(entries.last().0)
    } else {
        dropped_ids(entries.drop_last(), dropped)
    }
}

/// What is retained was there before, and what was there and is not dropped is retained.
pub proof fn retained_are<V>(entries: Seq<(Uuid, V)>, dropped: spec_fn(V) -> bool)
    ensures
        retained(entries, dropped).len() <= entries.len(),
        forall|i: int|
            0 <= i < retained(entries, dropped).len() ==> entries.contains(
                #[trigger] retained(entries, dropped)[i],
            ) && !dropped(retained(entries, dropped)[i].1),
        forall|i: int|
            0 <= i < entries.len() && !dropped((#[trigger] entries[i]).1) ==> retained(
                entries,
                dropped,
            ).contains(entries[i]),
        distinct(entries) ==> distinct(retained(entries, dropped)),
    decreases entries.len(),
{
    if entries.len() > 0 {
        let earlier = entries.drop_last();
        let kept = retained(earlier, dropped);
        let now = retained(entries, dropped);
        let last = entries.len() - 1;
        retained_are(earlier, dropped);
        assert forall|i: int| 0 <= i < now.len() implies entries.contains(#[trigger] now[i])
            && !dropped(now[i].1) by {
            if i < kept.len() {
                assert(now[i] == kept[i]);
                let k = choose|k: int| 0 <= k < earlier.len() && earlier[k] == kept[i];
                assert(entries[k] == kept[i]);
            } else {
                assert(entries[last] == now[i]);
            }
        }
        assert forall|i: int| 0 <= i < entries.len() && !dropped(
            (#[trigger] entries[i]).1,
        ) implies now.contains(entries[i]) by {
            if i < last {
                assert(earlier[i] == entries[i]);
                let k = choose|k: int| 0 <= k < kept.len() && kept[k] == earlier[i];
                assert(now[k] == entries[i]);
            } else {
                assert(now[now.len() - 1] == entries[i]);
            }
        }
        if distinct(entries) {
            assert forall|i: int, j: int| 0 <= i < j < earlier.len() implies (
            #[trigger] earlier[i]).0 != (#[trigger] earlier[j]).0 by {
                assert(entries[i].0 != entries[j].0);
            }
            assert(distinct(kept));
            assert forall|i: int, j: int| 0 <= i < j < now.len() implies (#[trigger] now[i]).0 != (
            #[trigger] now[j]).0 by {
                if j < kept.len() {
                    assert(kept[i].0 != kept[j].0);
                } else {
                    assert(now[i] == kept[i]);
                    let k = choose|k: int| 0 <= k < earlier.len() && earlier[k] == kept[i];
                    assert(entries[k].0 != entries[last].0);
                }
            }
        }
    }
}

/// What is dropped was there before, each under an identifier of its own, and is not retained.
pub proof fn dropped_are<V>(entries: Seq<(Uuid, V)>, dropped: spec_fn(V) -> bool)
    requires
        distinct(entries),
    ensures
        dropped_ids(entries, dropped).len() <= entries.len(),
        dropped_ids(entries, dropped).no_duplicates(),
        forall|id: Uuid| #[trigger]
            dropped_ids(entries, dropped).contains(id) ==> holds(entries, id) && !holds(
                retained(entries, dropped),
                id,
            ) && dropped(filed(entries, id)),
        forall|id: Uuid|
            holds(entries, id) && dropped(filed(entries, id)) ==> #[trigger] dropped_ids(
                entries,
                dropped,
            ).contains(id),
    decreases entries.len(),
{
    if entries.len() > 0 {
        let earlier = entries.drop_last();
        let last = entries.len() - 1;
        let ids = dropped_ids(earlier, dropped);
        let now = dropped_ids(entries, dropped);
        let left = retained(entries, dropped);
        assert forall|i: int, j: int| 0 <= i < j < earlier.len() implies (
        #[trigger] earlier[i]).0 != (#[trigger] earlier[j]).0 by {
            assert(entries[i].0 != entries[j].0);
        }
        dropped_are(earlier, dropped);
        retained_are(entries, dropped);
        index_is(entries, last);
        assert(!holds(earlier, entries[last].0)) by {
            if holds(earlier, entries[last].0) {
                let at = index_of(earlier, entries[last].0);
                assert(entries[at].0 != entries[last].0);
            }
        }
        assert forall|id: Uuid| holds(earlier, id) implies #[trigger] holds(entries, id) && filed(
            entries,
            id,
        ) == filed(earlier, id) by {
            let at = index_of(earlier, id);
            assert(entries[at] == earlier[at]);
            index_is(entries, at);
        }
        if dropped(entries[last].1) {
            assert(now =~= ids.push(entries[last].0));
            assert(now[ids.len() as int] == entries[last].0);
            assert(!ids.contains(entries[last].0));
            assert forall|i: int, j: int| 0 <= i < now.len() && 0 <= j < now.len() && i
                != j implies now[i] != now[j] by {
                if i < ids.len() {
                    assert(ids[i] == now[i]);
                }
                if j < ids.len() {
                    assert(ids[j] == now[j]);
                }
            }
        }
        assert forall|id: Uuid| #[trigger] now.contains(id) implies holds(entries, id) && !holds(
            left,
            id,
        ) && dropped(filed(entries, id)) by {
            let at = choose|k: int| 0 <= k < now.len() && now[k] == id;
            if at < ids.len() {
                assert(ids[at] == id);
                assert(ids.contains(id));
            }
            if holds(left, id) {
                let kept = index_of(left, id);
                assert(entries.contains(left[kept]));
                let from = choose|k: int| 0 <= k < entries.len() && entries[k] == left[kept];
                index_is(entries, from);
            }
        }
        assert forall|id: Uuid| holds(entries, id) && dropped(
            filed(entries, id),
        ) implies #[trigger] now.contains(id) by {
            let at = index_of(entries, id);
            if at < last {
                assert(earlier[at] == entries[at]);
                index_is(earlier, at);
                assert(ids.contains(id));
                let k = choose|k: int| 0 <= k < ids.len() && ids[k] == id;
                assert(now[k] == id);
            }
        }
    }
}

/// Noting identifiers that are not noted yet appends them, and keeps the newest `limit`.
pub proof fn noted_all_are(log: Seq<Uuid>, ids: Seq<Uuid>, limit: int)
    requires
        log.len() <= limit,
        ids.no_duplicates(),
        forall|id: Uuid| #[trigger] ids.contains(id) ==> !log.contains(id),
    ensures
        ({
            let all = log + ids;
            noted_all(log, ids, limit) == if all.len() > limit {
                all.subrange(all.len() - limit, all.len() as int)
            } else {
                all
            }
        }),
    decreases ids.len(),
{
    let all = log + ids;
    if ids.len() == 0 {
        assert(all =~= log);
    } else {
        let earlier = ids.drop_last();
        assert forall|id: Uuid| #[trigger] earlier.contains(id) implies !log.contains(id) by {
            let k = choose|k: int| 0 <= k < earlier.len() && earlier[k] == id;
            assert(ids[k] == id);
            assert(ids.contains(id));
        }
        noted_all_are(log, earlier, limit);
        let before = noted_all(log, earlier, limit);
        let id = ids.last();
        assert(ids.contains(id));
        assert(!before.contains(id)) by {
            if before.contains(id) {
                let k = choose|k: int| 0 <= k < before.len() && before[k] == id;
                let at = k + (log + earlier).len() - before.len();
                assert((log + earlier)[at] == id);
                if at < log.len() {
                    assert(log[at] == id);
                } else {
                    assert(ids[at - log.len()] == id);
                }
            }
        }
        assert(noted_all(log, ids, limit) =~= if all.len() > limit {
            all.subrange(all.len() - limit, all.len() as int)
        } else {
            all
        });
    }
}

/// Tables with the same identifiers in the same places hold the same identifiers.
pub proof fn same_places<V>(before: Seq<(Uuid, V)>, after: Seq<(Uuid, V)>)
    requires
        before.len() == after.len(),
        forall|i: int| 0 <= i < before.len() ==> (#[trigger] after[i]).0 == before[i].0,
    ensures
        distinct(before) ==> distinct(after),
        forall|id: Uuid| #[trigger] holds(after, id) == holds(before, id),
        forall|id: Uuid|
            distinct(before) && holds(before, id) ==> #[trigger] index_of(after, id) == index_of(
                before,
                id,
            ),
{
    if distinct(before) {
        assert forall|i: int, j: int| 0 <= i < j < after.len() implies (#[trigger] after[i]).0 != (
        #[trigger] after[j]).0 by {
            assert(before[i].0 != before[j].0);
        }
    }
    assert forall|id: Uuid| #[trigger] holds(after, id) == holds(before, id) by {
        if holds(before, id) {
            assert(after[index_of(before, id)].0 == id);
        }
        if holds(after, id) {
            assert(before[index_of(after, id)].0 == id);
        }
    }
    assert forall|id: Uuid| distinct(before) && holds(before, id) implies #[trigger] index_of(
        after,
        id,
    ) == index_of(before, id) by {
        let i = index_of(before, id);
        assert(after[i].0 == id);
        index_is(after, i);
    }
}

} // verus!
