//! A small table from chatter names to values, kept in insertion order,
//! with at most one row per name.

use vstd::prelude::*;

verus! {

/// The rows `rows` hold each name at most once.
pub open spec fn distinct_names<V>(rows: Seq<(Seq<char>, V)>) -> bool {
    forall|i: int, j: int|
        0 <= i < rows.len() && 0 <= j < rows.len() && i != j ==> #[trigger] rows[i].0 != #[trigger] rows[j].0
}

/// Some row of `rows` holds the name `k`.
pub open spec fn has_name<V>(rows: Seq<(Seq<char>, V)>, k: Seq<char>) -> bool {
    exists|i: int| 0 <= i < rows.len() && #[trigger] rows[i].0 == k
}

/// The map that the rows describe.
pub open spec fn rows_map<V>(rows: Seq<(Seq<char>, V)>) -> Map<Seq<char>, V> {
    Map::new(
        |k: Seq<char>| has_name(rows, k),
        |k: Seq<char>| rows[choose|i: int| 0 <= i < rows.len() && #[trigger] rows[i].0 == k].1,
    )
}

/// In distinct rows, the row that holds a name gives its value in the map.
pub proof fn lemma_rows_map_at<V>(rows: Seq<(Seq<char>, V)>, i: int)
    requires
        distinct_names(rows),
        0 <= i < rows.len(),
    ensures
        rows_map(rows).contains_key(rows[i].0),
        rows_map(rows)[rows[i].0] == rows[i].1,
{
    let k = rows[i].0;
    assert(has_name(rows, k));
    let j = choose|j: int| 0 <= j < rows.len() && #[trigger] rows[j].0 == k;
    assert(j == i);
}

/// Rows `rows` with row `i` given the value `v`.
pub open spec fn rows_update<V>(rows: Seq<(Seq<char>, V)>, k: Seq<char>, v: V) -> Seq<(Seq<char>, V)> {
    if has_name(rows, k) {
        rows.update(choose|i: int| 0 <= i < rows.len() && #[trigger] rows[i].0 == k, (k, v))
    } else {
        rows.push((k, v))
    }
}

/// A table from names to values of type `V`.
pub struct NameTable<V> {
    entries: Vec<(String, V)>,
}

impl<V> NameTable<V> {
    /// The rows, in table order, each name taken by its characters.
    pub closed spec fn rows(&self) -> Seq<(Seq<char>, V)> {
        rows_of(self.entries@)
    }

    #[verifier::type_invariant]
    closed spec fn names_are_distinct(self) -> bool {
        distinct_names(self.rows())
    }

    /// The table as a map from names to values.
    pub open spec fn map(&self) -> Map<Seq<char>, V> {
        rows_map(self.rows())
    }

}

impl<V: Copy> NameTable<V> {
    /// An empty table.
    pub fn new() -> (t: Self)
        ensures
            t.rows() == Seq::<(Seq<char>, V)>::empty(),
            distinct_names(t.rows()),
    {
        let t = NameTable { entries: Vec::new() };
        assert(t.rows() =~= Seq::<(Seq<char>, V)>::empty());
        t
    }

    /// Number of rows.
    pub fn len(&self) -> (n: usize)
        ensures
            n == self.rows().len(),
    {
        self.entries.len()
    }

    /// The value stored under `name`, if any.
    pub fn get(&self, name: &String) -> (r: Option<V>)
        ensures
            r == self.map().get(name@),
    {
        proof { use_type_invariant(self); }
        match Self::position(&self.entries, name) {
            Some(i) => {
                proof { lemma_rows_map_at(self.rows(), i as int); }
                Some(self.entries[i].1)
            },
            None => None,
        }
    }

    /// Stores `v` under `name`: an existing row keeps its place, a new name goes last.
    pub fn insert(&mut self, name: String, v: V)
        ensures
            final(self).rows() == rows_update(old(self).rows(), name@, v),
            final(self).map() == old(self).map().insert(name@, v),
            distinct_names(final(self).rows()),
    {
        proof { use_type_invariant(&*self); }
        let ghost old_rows = self.rows();
        let ghost k = name@;
        let mut entries: Vec<(String, V)> = Vec::new();
        std::mem::swap(&mut entries, &mut self.entries);
        assert(rows_of(entries@) == old_rows);
        match Self::position(&entries, &name) {
            Some(i) => {
                let ghost ci = choose|j: int| 0 <= j < old_rows.len() && #[trigger] old_rows[j].0 == k;
                assert(old_rows[i as int].0 == k);
                assert(ci == i);
                entries.set(i, (name, v));
                assert(rows_of(entries@) =~= old_rows.update(i as int, (k, v)));
            },
            None => {
                entries.push((name, v));
                assert(rows_of(entries@) =~= old_rows.push((k, v)));
            },
        }
        let ghost new_rows = rows_of(entries@);
        assert(new_rows == rows_update(old_rows, k, v));
        assert(distinct_names(new_rows)) by {
            assert forall|i: int, j: int|
                0 <= i < new_rows.len() && 0 <= j < new_rows.len() && i != j implies
                #[trigger] new_rows[i].0 != #[trigger] new_rows[j].0 by {
                if new_rows.len() > old_rows.len() {
                    if i < old_rows.len() && j < old_rows.len() {
                        assert(old_rows[i].0 != old_rows[j].0);
                    } else if i < old_rows.len() {
                        assert(old_rows[i].0 == new_rows[i].0);
                    } else {
                        assert(old_rows[j].0 == new_rows[j].0);
                    }
                } else {
                    assert(old_rows[i].0 != old_rows[j].0);
                }
            }
        }
        proof { lemma_rows_update_map(old_rows, k, v); }
        self.entries = entries;
    }

    /// Position of the entry for `name` among `entries`, if there is one.
    fn position(entries: &Vec<(String, V)>, name: &String) -> (r: Option<usize>)
        ensures
            match r {
                Some(i) => i < entries@.len() && rows_of(entries@)[i as int].0 == name@,
                None => !has_name(rows_of(entries@), name@),
            },
    {
        let mut i: usize = 0;
        while i < entries.len()
            invariant
                i <= entries@.len(),
                rows_of(entries@).len() == entries@.len(),
                forall|j: int| 0 <= j < i ==> #[trigger] rows_of(entries@)[j].0 != name@,
            decreases entries@.len() - i,
        {
            if entries[i].0 == *name {
                return Some(i);
            }
            i = i + 1;
        }
        None
    }
}

/// Rows of the stored entries, each name taken by its characters.
pub open spec fn rows_of<V>(es: Seq<(String, V)>) -> Seq<(Seq<char>, V)> {
    es.map_values(|e: (String, V)| (e.0@, e.1))
}

/// Updating distinct rows updates their map.
pub proof fn lemma_rows_update_map<V>(rows: Seq<(Seq<char>, V)>, k: Seq<char>, v: V)
    requires
        distinct_names(rows),
        distinct_names(rows_update(rows, k, v)),
    ensures
        rows_map(rows_update(rows, k, v)) == rows_map(rows).insert(k, v),
{
    let new_rows = rows_update(rows, k, v);
    let ci = choose|j: int| 0 <= j < rows.len() && #[trigger] rows[j].0 == k;
    assert forall|key: Seq<char>| #[trigger] has_name(new_rows, key) == (has_name(rows, key) || key == k) by {
        if has_name(rows, key) {
            let j = choose|j: int| 0 <= j < rows.len() && #[trigger] rows[j].0 == key;
            assert(new_rows[j].0 == key);
        }
        if key == k {
            if has_name(rows, k) {
                assert(new_rows[ci].0 == k);
            } else {
                assert(new_rows[rows.len() as int].0 == k);
            }
        }
        if has_name(new_rows, key) && key != k {
            let j = choose|j: int| 0 <= j < new_rows.len() && #[trigger] new_rows[j].0 == key;
            assert(rows[j].0 == key);
        }
    }
    assert forall|key: Seq<char>| #[trigger] has_name(new_rows, key) implies rows_map(new_rows)[key]
        == rows_map(rows).insert(k, v)[key] by {
        let j = choose|j: int| 0 <= j < new_rows.len() && #[trigger] new_rows[j].0 == key;
        lemma_rows_map_at(new_rows, j);
        if key != k {
            assert(rows[j].0 == key);
            lemma_rows_map_at(rows, j);
        }
    }
    assert(rows_map(new_rows) =~= rows_map(rows).insert(k, v));
}

/// The rows whose value satisfies `keep`, in their order.
pub open spec fn rows_where<V>(rows: Seq<(Seq<char>, V)>, keep: spec_fn(V) -> bool) -> Seq<(Seq<char>, V)>
    decreases rows.len(),
{
    if rows.len() == 0 {
        rows
    } else if keep(rows.last().1) {
        rows_where(rows.drop_last(), keep).push(rows.last())
    } else {
        rows_where(rows.drop_last(), keep)
    }
}

/// Every row of `rows_where(rows, keep)` is a row of `rows` whose value satisfies `keep`,
/// and every such row of `rows` is kept.
pub proof fn lemma_rows_where<V>(rows: Seq<(Seq<char>, V)>, keep: spec_fn(V) -> bool)
    ensures
        forall|i: int| 0 <= i < rows_where(rows, keep).len() ==>
            keep(#[trigger] rows_where(rows, keep)[i].1) && rows.contains(rows_where(rows, keep)[i]),
        forall|i: int| 0 <= i < rows.len() && keep(#[trigger] rows[i].1) ==> rows_where(rows, keep).contains(rows[i]),
    decreases rows.len(),
{
    if rows.len() > 0 {
        let init = rows.drop_last();
        lemma_rows_where(init, keep);
        let w = rows_where(rows, keep);
        let wi = rows_where(init, keep);
        assert forall|i: int| 0 <= i < w.len() implies keep(#[trigger] w[i].1) && rows.contains(w[i]) by {
            if i < wi.len() {
                assert(w[i] == wi[i]);
                assert(0 <= i < rows_where(init, keep).len());
                assert(keep(rows_where(init, keep)[i].1));
                assert(init.contains(wi[i]));
                let j = choose|j: int| 0 <= j < init.len() && #[trigger] init[j] == wi[i];
                assert(rows[j] == init[j]);
                assert(rows[j] == w[i]);
            } else {
                assert(rows[rows.len() - 1] == w[i]);
            }
        }
        assert forall|i: int| 0 <= i < rows.len() && keep(#[trigger] rows[i].1) implies w.contains(rows[i]) by {
            if i < init.len() {
                assert(init[i] == rows[i]);
                assert(keep(init[i].1));
                assert(wi.contains(init[i]));
                let j = choose|j: int| 0 <= j < wi.len() && #[trigger] wi[j] == init[i];
                assert(w[j] == wi[j]);
                assert(w[j] == rows[i]);
            } else {
                assert(w[w.len() - 1] == rows[i]);
            }
        }
    }
}

/// Keeping some of the rows keeps each name at most once.
pub proof fn lemma_rows_where_distinct<V>(rows: Seq<(Seq<char>, V)>, keep: spec_fn(V) -> bool)
    requires
        distinct_names(rows),
    ensures
        distinct_names(rows_where(rows, keep)),
    decreases rows.len(),
{
    if rows.len() > 0 {
        let init = rows.drop_last();
        assert(distinct_names(init)) by {
            assert forall|i: int, j: int| 0 <= i < init.len() && 0 <= j < init.len() && i != j
                implies #[trigger] init[i].0 != #[trigger] init[j].0 by {
                assert(init[i] == rows[i] && init[j] == rows[j]);
            }
        }
        lemma_rows_where_distinct(init, keep);
        let wi = rows_where(init, keep);
        if keep(rows.last().1) {
            lemma_rows_where(init, keep);
            let w = wi.push(rows.last());
            assert forall|i: int, j: int| 0 <= i < w.len() && 0 <= j < w.len() && i != j
                implies #[trigger] w[i].0 != #[trigger] w[j].0 by {
                if i < wi.len() && j < wi.len() {
                    assert(w[i] == wi[i] && w[j] == wi[j]);
                } else {
                    let m = if i < wi.len() { i } else { j };
                    assert(w[m] == wi[m]);
                    assert(keep(rows_where(init, keep)[m].1));
                    assert(init.contains(wi[m]));
                    let q = choose|q: int| 0 <= q < init.len() && init[q] == wi[m];
                    assert(rows[q] == init[q]);
                    assert(rows[rows.len() - 1] == rows.last());
                }
            }
        }
    }
}

/// Keeping the rows that satisfy `keep` a second time changes nothing.
pub proof fn lemma_rows_where_idempotent<V>(rows: Seq<(Seq<char>, V)>, keep: spec_fn(V) -> bool)
    ensures
        rows_where(rows_where(rows, keep), keep) == rows_where(rows, keep),
    decreases rows.len(),
{
    if rows.len() > 0 {
        lemma_rows_where_idempotent(rows.drop_last(), keep);
        let w = rows_where(rows.drop_last(), keep);
        if keep(rows.last().1) {
            assert(w.push(rows.last()).drop_last() == w);
        }
    }
}

/// Ban levels one hour later: every level drops by one, and names whose level reaches
/// zero leave the table.
pub open spec fn rows_decremented(rows: Seq<(Seq<char>, i32)>) -> Seq<(Seq<char>, i32)>
    decreases rows.len(),
{
    if rows.len() == 0 {
        rows
    } else if rows.last().1 - 1 > 0 {
        rows_decremented(rows.drop_last()).push((rows.last().0, (rows.last().1 - 1) as i32))
    } else {
        rows_decremented(rows.drop_last())
    }
}

/// All values of the rows are positive.
pub open spec fn all_positive(rows: Seq<(Seq<char>, i32)>) -> bool {
    forall|i: int| 0 <= i < rows.len() ==> #[trigger] rows[i].1 > 0
}

/// Recent enough: the value `ts` lies less than `window` before `now`.
pub open spec fn is_recent(ts: u64, now: u64, window: u64) -> bool {
    ts + window > now
}

/// The test of [`is_recent`] against `now` and `window`.
pub open spec fn recent_within(now: u64, window: u64) -> spec_fn(u64) -> bool {
    |ts: u64| is_recent(ts, now, window)
}

impl NameTable<i32> {
    /// Lowers every value by one and drops the rows that reach zero, keeping the order.
    pub fn decrement_all(&mut self)
        requires
            all_positive(old(self).rows()),
        ensures
            final(self).rows() == rows_decremented(old(self).rows()),
            all_positive(final(self).rows()),
            distinct_names(final(self).rows()),
    {
        proof { use_type_invariant(&*self); }
        let ghost old_rows = self.rows();
        let mut old_entries: Vec<(String, i32)> = Vec::new();
        std::mem::swap(&mut old_entries, &mut self.entries);
        assert(rows_of(old_entries@) == old_rows);
        let mut kept: Vec<(String, i32)> = Vec::new();
        let mut i: usize = 0;
        while i < old_entries.len()
            invariant
                i <= old_entries@.len(),
                rows_of(old_entries@) == old_rows,
                distinct_names(old_rows),
                all_positive(old_rows),
                rows_of(kept@) == rows_decremented(old_rows.take(i as int)),
                distinct_names(rows_of(kept@)),
                all_positive(rows_of(kept@)),
                forall|a: int, b: int| 0 <= a < rows_of(kept@).len() && i <= b < old_rows.len() ==> #[trigger] rows_of(kept@)[a].0 != #[trigger] old_rows[b].0,
            decreases old_entries@.len() - i,
        {
            let ghost prev = rows_of(kept@);
            assert(old_rows.take(i + 1).drop_last() == old_rows.take(i as int));
            let v = old_entries[i].1;
            if v > 1 {
                let name = old_entries[i].0.clone();
                kept.push((name, v - 1));
                let ghost now_rows = rows_of(kept@);
                assert(now_rows =~= prev.push((old_rows[i as int].0, (v - 1) as i32)));
                assert forall|a: int, c: int| 0 <= a < now_rows.len() && 0 <= c < now_rows.len() && a != c
                    implies #[trigger] now_rows[a].0 != #[trigger] now_rows[c].0 by {
                    if a < prev.len() && c < prev.len() {
                    } else if a < prev.len() {
                        assert(prev[a].0 != old_rows[i as int].0);
                    } else {
                        assert(prev[c].0 != old_rows[i as int].0);
                    }
                }
            }
            i = i + 1;
        }
        assert(old_rows.take(i as int) == old_rows);
        self.entries = kept;
    }
}

impl NameTable<u64> {
    /// Keeps only the rows whose value lies less than `window` before `now`, in order.
    pub fn retain_recent(&mut self, now: u64, window: u64)
        ensures
            final(self).rows() == rows_where(old(self).rows(), recent_within(now, window)),
            distinct_names(final(self).rows()),
    {
        proof { use_type_invariant(&*self); }
        let ghost old_rows = self.rows();
        let ghost keep = recent_within(now, window);
        let mut old_entries: Vec<(String, u64)> = Vec::new();
        std::mem::swap(&mut old_entries, &mut self.entries);
        assert(rows_of(old_entries@) == old_rows);
        let mut kept: Vec<(String, u64)> = Vec::new();
        let mut i: usize = 0;
        while i < old_entries.len()
            invariant
                i <= old_entries@.len(),
                rows_of(old_entries@) == old_rows,
                distinct_names(old_rows),
                keep == recent_within(now, window),
                rows_of(kept@) == rows_where(old_rows.take(i as int), keep),
                distinct_names(rows_of(kept@)),
                forall|a: int, b: int| 0 <= a < rows_of(kept@).len() && i <= b < old_rows.len() ==> #[trigger] rows_of(kept@)[a].0 != #[trigger] old_rows[b].0,
            decreases old_entries@.len() - i,
        {
            let ghost prev = rows_of(kept@);
            assert(old_rows.take(i + 1).drop_last() == old_rows.take(i as int));
            let ts = old_entries[i].1;
            if now < window || ts > now - window {
                let name = old_entries[i].0.clone();
                kept.push((name, ts));
                let ghost now_rows = rows_of(kept@);
                assert(now_rows =~= prev.push(old_rows[i as int]));
                assert forall|a: int, c: int| 0 <= a < now_rows.len() && 0 <= c < now_rows.len() && a != c
                    implies #[trigger] now_rows[a].0 != #[trigger] now_rows[c].0 by {
                    if a < prev.len() && c < prev.len() {
                    } else if a < prev.len() {
                        assert(prev[a].0 != old_rows[i as int].0);
                    } else {
                        assert(prev[c].0 != old_rows[i as int].0);
                    }
                }
            }
            i = i + 1;
        }
        assert(old_rows.take(i as int) == old_rows);
        self.entries = kept;
    }

    /// The names of the rows whose value lies less than `window` before `now`, in order.
    pub fn recent_names(&self, now: u64, window: u64) -> (names: Vec<String>)
        ensures
            names@.map_values(|n: String| n@)
                == rows_where(self.rows(), recent_within(now, window)).map_values(|r: (Seq<char>, u64)| r.0),
    {
        let ghost keep = recent_within(now, window);
        let mut names: Vec<String> = Vec::new();
        let mut i: usize = 0;
        while i < self.entries.len()
            invariant
                i <= self.entries@.len(),
                keep == recent_within(now, window),
                names@.map_values(|n: String| n@) == rows_where(self.rows().take(i as int), keep).map_values(|r: (Seq<char>, u64)| r.0),
            decreases self.entries@.len() - i,
        {
            assert(self.rows().take(i + 1).drop_last() == self.rows().take(i as int));
            let ts = self.entries[i].1;
            if now < window || ts > now - window {
                let ghost prev = names@;
                names.push(self.entries[i].0.clone());
                assert(names@.map_values(|n: String| n@) =~= prev.map_values(|n: String| n@).push(self.rows()[i as int].0));
                assert(rows_where(self.rows().take(i + 1), keep).map_values(|r: (Seq<char>, u64)| r.0)
                    =~= rows_where(self.rows().take(i as int), keep).map_values(|r: (Seq<char>, u64)| r.0).push(self.rows()[i as int].0));
            }
            i = i + 1;
        }
        assert(self.rows().take(i as int) == self.rows());
        names
    }
}

} // verus!
