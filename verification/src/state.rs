use vstd::prelude::*;

use crate::pool::Pool;
use crate::protocol::{opt_string_view, ListedPool, ListedPoolView};

verus! {

/// No two entries carry the same name.
pub open spec fn names_distinct(s: Seq<(String, Pool)>) -> bool {
    forall|i: int, j: int| 0 <= i < j < s.len() ==> #[trigger] s[i].0@ != #[trigger] s[j].0@
}

/// Some entry carries the name `k`.
pub open spec fn has_name(s: Seq<(String, Pool)>, k: Seq<char>) -> bool {
    exists|i: int| 0 <= i < s.len() && #[trigger] s[i].0@ == k
}

/// The map from names to pools that a list of entries stands for.
pub open spec fn entries_map(s: Seq<(String, Pool)>) -> Map<Seq<char>, Pool> {
    Map::new(
        |k: Seq<char>| has_name(s, k),
        |k: Seq<char>| s[choose|i: int| 0 <= i < s.len() && #[trigger] s[i].0@ == k].1,
    )
}

/// With distinct names, the map holds each entry's pool under its name.
pub proof fn lemma_entries_map_at(s: Seq<(String, Pool)>, i: int)
    requires
        names_distinct(s),
        0 <= i < s.len(),
    ensures
        entries_map(s).contains_key(s[i].0@),
        entries_map(s)[s[i].0@] == s[i].1,
{
    let k = s[i].0@;
    assert(has_name(s, k));
    let j = choose|j: int| 0 <= j < s.len() && #[trigger] s[j].0@ == k;
    if j < i {
        assert(s[j].0@ != s[i].0@);
    } else if i < j {
        assert(s[i].0@ != s[j].0@);
    }
}

/// Replacing the pool of entry `i`, name kept, replaces it in the map.
pub proof fn lemma_entries_map_update(s: Seq<(String, Pool)>, i: int, p: Pool)
    requires
        names_distinct(s),
        0 <= i < s.len(),
    ensures
        names_distinct(s.update(i, (s[i].0, p))),
        entries_map(s.update(i, (s[i].0, p))) == entries_map(s).insert(s[i].0@, p),
{
    let t = s.update(i, (s[i].0, p));
    let k = s[i].0@;
    assert forall|a: int, b: int| 0 <= a < b < t.len() implies #[trigger] t[a].0@
        != #[trigger] t[b].0@ by {
        assert(s[a].0@ != s[b].0@);
    }
    assert forall|key: Seq<char>|
        #![trigger entries_map(t).contains_key(key)]
        entries_map(t).contains_key(key) == entries_map(s).insert(k, p).contains_key(key) by {
        if has_name(t, key) {
            let j = choose|j: int| 0 <= j < t.len() && #[trigger] t[j].0@ == key;
            assert(s[j].0@ == key);
            assert(has_name(s, key));
        }
        if has_name(s, key) {
            let j = choose|j: int| 0 <= j < s.len() && #[trigger] s[j].0@ == key;
            assert(t[j].0@ == key);
            assert(has_name(t, key));
        }
        if key == k {
            assert(t[i].0@ == key);
            assert(has_name(t, key));
        }
    }
    assert forall|key: Seq<char>| #[trigger]
        entries_map(t).contains_key(key) implies entries_map(t)[key] == entries_map(s).insert(
        k,
        p,
    )[key] by {
        let j = choose|j: int| 0 <= j < t.len() && #[trigger] t[j].0@ == key;
        lemma_entries_map_at(t, j);
        if j != i {
            lemma_entries_map_at(s, j);
        }
    }
    assert(entries_map(t) =~= entries_map(s).insert(k, p));
}

/// Removing entry `i` removes its name from the map.
pub proof fn lemma_entries_map_remove(s: Seq<(String, Pool)>, i: int)
    requires
        names_distinct(s),
        0 <= i < s.len(),
    ensures
        names_distinct(s.remove(i)),
        entries_map(s.remove(i)) == entries_map(s).remove(s[i].0@),
{
    let t = s.remove(i);
    let k = s[i].0@;
    assert forall|a: int, b: int| 0 <= a < b < t.len() implies #[trigger] t[a].0@
        != #[trigger] t[b].0@ by {
        let a2 = if a < i { a } else { a + 1 };
        let b2 = if b < i { b } else { b + 1 };
        assert(t[a] == s[a2]);
        assert(t[b] == s[b2]);
        assert(s[a2].0@ != s[b2].0@);
    }
    assert forall|key: Seq<char>|
        #![trigger entries_map(t).contains_key(key)]
        entries_map(t).contains_key(key) == entries_map(s).remove(k).contains_key(key) by {
        if has_name(t, key) {
            let j = choose|j: int| 0 <= j < t.len() && #[trigger] t[j].0@ == key;
            let j2 = if j < i { j } else { j + 1 };
            assert(t[j] == s[j2]);
            assert(s[j2].0@ == key);
            assert(has_name(s, key));
            if key == k {
                assert(s[i].0@ == s[j2].0@);
                if j2 < i {
                    assert(s[j2].0@ != s[i].0@);
                } else {
                    assert(s[i].0@ != s[j2].0@);
                }
            }
        }
        if has_name(s, key) && key != k {
            let j = choose|j: int| 0 <= j < s.len() && #[trigger] s[j].0@ == key;
            assert(j != i);
            let j2 = if j < i { j } else { j - 1 };
            assert(t[j2] == s[j]);
            assert(t[j2].0@ == key);
            assert(has_name(t, key));
        }
    }
    assert forall|key: Seq<char>| #[trigger]
        entries_map(t).contains_key(key) implies entries_map(t)[key] == entries_map(s).remove(
        k,
    )[key] by {
        let j = choose|j: int| 0 <= j < t.len() && #[trigger] t[j].0@ == key;
        let j2 = if j < i { j } else { j + 1 };
        assert(t[j] == s[j2]);
        lemma_entries_map_at(t, j);
        lemma_entries_map_at(s, j2);
    }
    assert(entries_map(t) =~= entries_map(s).remove(k));
}

/// Whether a listing with the given type filter shows pool `p`.
pub open spec fn selected(filter: Option<Seq<char>>, p: Pool) -> bool {
    match filter {
        None => true,
        Some(ft) => p.kind_name() == ft,
    }
}

/// How a listing shows pool `p` named `name`.
pub open spec fn listed_view(name: Seq<char>, p: Pool) -> ListedPoolView {
    match p {
        Pool::Counter(c) => ListedPoolView::Counter {
            name,
            value: c.value,
            step: c.step,
            initial: c.initial,
        },
        Pool::Uuid(_) => ListedPoolView::Uuid { name },
    }
}

/// `items` shows each pool of `pools` that the filter selects, once, and
/// nothing else.
pub open spec fn lists_exactly(
    pools: Map<Seq<char>, Pool>,
    filter: Option<Seq<char>>,
    items: Seq<ListedPoolView>,
) -> bool {
    &&& forall|a: int, b: int|
        0 <= a < b < items.len() ==> #[trigger] items[a].name() != #[trigger] items[b].name()
    &&& forall|a: int|
        0 <= a < items.len() ==> {
            let n = #[trigger] items[a].name();
            &&& pools.contains_key(n)
            &&& selected(filter, pools[n])
            &&& items[a] == listed_view(n, pools[n])
        }
    &&& forall|n: Seq<char>|
        #[trigger] pools.contains_key(n) && selected(filter, pools[n]) ==> exists|a: int|
            0 <= a < items.len() && #[trigger] items[a].name() == n
}

/// The pools kept by the daemon, each under a name of its own.
pub struct AppState {
    pools: Vec<(String, Pool)>,
}

impl View for AppState {
    type V = Map<Seq<char>, Pool>;

    closed spec fn view(&self) -> Map<Seq<char>, Pool> {
        entries_map(self.pools@)
    }
}

impl Default for AppState {
    /// An empty state.
    fn default() -> (s: Self)
        ensures
            s.wf(),
            s@ == Map::<Seq<char>, Pool>::empty(),
    {
        AppState::new()
    }
}

impl AppState {
    /// Well-formedness: no name occurs twice.
    pub closed spec fn wf(&self) -> bool {
        names_distinct(self.pools@)
    }

    /// An empty state.
    pub fn new() -> (s: Self)
        ensures
            s.wf(),
            s@ == Map::<Seq<char>, Pool>::empty(),
    {
        let s = AppState { pools: Vec::new() };
        assert(s@ =~= Map::<Seq<char>, Pool>::empty());
        s
    }

    /// The entries, in the order in which they are stored; they stand for
    /// exactly the map `self@`.
    pub fn entries(&self) -> (r: &Vec<(String, Pool)>)
        requires
            self.wf(),
        ensures
            names_distinct(r@),
            entries_map(r@) == self@,
    {
        &self.pools
    }

    /// The index of the entry named `name`.
    fn find(&self, name: &String) -> (r: Option<usize>)
        requires
            self.wf(),
        ensures
            match r {
                Some(i) => {
                    &&& i < self.pools@.len()
                    &&& self.pools@[i as int].0@ == name@
                    &&& self@.contains_key(name@)
                    &&& self@[name@] == self.pools@[i as int].1
                },
                None => !self@.contains_key(name@),
            },
    {
        let n = self.pools.len();
        let mut i: usize = 0;
        while i < n
            invariant
                n == self.pools@.len(),
                i <= n,
                names_distinct(self.pools@),
                forall|j: int| 0 <= j < i ==> self.pools@[j].0@ != name@,
            decreases n - i,
        {
            if self.pools[i].0 == *name {
                proof {
                    lemma_entries_map_at(self.pools@, i as int);
                }
                return Some(i);
            }
            i = i + 1;
        }
        None
    }

    pub fn contains_key(&self, name: &String) -> (r: bool)
        requires
            self.wf(),
        ensures
            r == self@.contains_key(name@),
    {
        self.find(name).is_some()
    }

    pub fn get(&self, name: &String) -> (r: Option<&Pool>)
        requires
            self.wf(),
        ensures
            match r {
                Some(p) => self@.contains_key(name@) && *p == self@[name@],
                None => !self@.contains_key(name@),
            },
    {
        match self.find(name) {
            Some(i) => Some(&self.pools[i].1),
            None => None,
        }
    }

    /// Puts `pool` under `name`, replacing what was there.
    pub fn insert(&mut self, name: String, pool: Pool)
        requires
            old(self).wf(),
        ensures
            final(self).wf(),
            final(self)@ == old(self)@.insert(name@, pool),
    {
        let ghost k = name@;
        match self.find(&name) {
            Some(i) => {
                self.pools.set(i, (name, pool));
                proof {
                    let s = self.pools@;
                    let o = old(self).pools@;
                    assert(s == o.update(i as int, s[i as int]));
                    assert forall|a: int, b: int| 0 <= a < b < s.len() implies #[trigger] s[a].0@
                        != #[trigger] s[b].0@ by {
                        assert(o[a].0@ != o[b].0@);
                    }
                    assert forall|key: Seq<char>|
                        #![trigger entries_map(s).contains_key(key)]
                        entries_map(s).contains_key(key) == old(self)@.insert(k, pool).contains_key(key)
                        by {
                        if has_name(s, key) {
                            let j = choose|j: int| 0 <= j < s.len() && #[trigger] s[j].0@ == key;
                            if j != i {
                                assert(o[j].0@ == key);
                                assert(has_name(o, key));
                            }
                        }
                        if has_name(o, key) && key != k {
                            let j = choose|j: int| 0 <= j < o.len() && #[trigger] o[j].0@ == key;
                            assert(s[j].0@ == key);
                            assert(has_name(s, key));
                        }
                        if key == k {
                            assert(s[i as int].0@ == key);
                            assert(has_name(s, key));
                        }
                    }
                    assert forall|key: Seq<char>| #[trigger]
                        entries_map(s).contains_key(key) implies entries_map(s)[key]
                        == old(self)@.insert(k, pool)[key] by {
                        let j = choose|j: int| 0 <= j < s.len() && #[trigger] s[j].0@ == key;
                        lemma_entries_map_at(s, j);
                        if j != i {
                            lemma_entries_map_at(o, j);
                        }
                    }
                    assert(self@ =~= old(self)@.insert(k, pool));
                }
            },
            None => {
                self.pools.push((name, pool));
                proof {
                    let s = self.pools@;
                    let o = old(self).pools@;
                    assert(s == o.push(s[o.len() as int]));
                    assert forall|a: int, b: int| 0 <= a < b < s.len() implies #[trigger] s[a].0@
                        != #[trigger] s[b].0@ by {
                        if b == o.len() {
                            assert(!has_name(o, k));
                            assert(o[a].0@ != k);
                        } else {
                            assert(o[a].0@ != o[b].0@);
                        }
                    }
                    assert forall|key: Seq<char>|
                        #![trigger entries_map(s).contains_key(key)]
                        entries_map(s).contains_key(key) == old(self)@.insert(k, pool).contains_key(key)
                        by {
                        if has_name(s, key) {
                            let j = choose|j: int| 0 <= j < s.len() && #[trigger] s[j].0@ == key;
                            if j < o.len() {
                                assert(o[j].0@ == key);
                            }
                        }
                        if has_name(o, key) {
                            let j = choose|j: int| 0 <= j < o.len() && #[trigger] o[j].0@ == key;
                            assert(s[j].0@ == key);
                        }
                        if key == k {
                            assert(s[o.len() as int].0@ == key);
                        }
                    }
                    assert forall|key: Seq<char>| #[trigger]
                        entries_map(s).contains_key(key) implies entries_map(s)[key]
                        == old(self)@.insert(k, pool)[key] by {
                        let j = choose|j: int| 0 <= j < s.len() && #[trigger] s[j].0@ == key;
                        lemma_entries_map_at(s, j);
                        if j < o.len() {
                            lemma_entries_map_at(o, j);
                        }
                    }
                    assert(self@ =~= old(self)@.insert(k, pool));
                }
            },
        }
    }
    /// Takes the pool named `name` out of the state.
    pub fn remove(&mut self, name: &String) -> (r: Option<Pool>)
        requires
            old(self).wf(),
        ensures
            final(self).wf(),
            match r {
                Some(p) => {
                    &&& old(self)@.contains_key(name@)
                    &&& p == old(self)@[name@]
                    &&& final(self)@ == old(self)@.remove(name@)
                },
                None => {
                    &&& !old(self)@.contains_key(name@)
                    &&& final(self)@ == old(self)@
                },
            },
    {
        match self.find(name) {
            Some(i) => {
                proof {
                    lemma_entries_map_remove(self.pools@, i as int);
                }
                let (_, p) = self.pools.remove(i);
                Some(p)
            },
            None => None,
        }
    }

    /// The pool named `name`, to be changed in place.
    pub fn get_mut(&mut self, name: &String) -> (r: Option<&mut Pool>)
        requires
            old(self).wf(),
        ensures
            match r {
                Some(p) => {
                    &&& old(self)@.contains_key(name@)
                    &&& *p == old(self)@[name@]
                    &&& final(self).wf()
                    &&& final(self)@ == old(self)@.insert(name@, *final(p))
                },
                None => {
                    &&& !old(self)@.contains_key(name@)
                    &&& *final(self) == *old(self)
                },
            },
    {
        match self.find(name) {
            Some(i) => {
                let entry = &mut self.pools[i];
                let p = &mut entry.1;
                proof {
                    lemma_entries_map_update(old(self).pools@, i as int, *final(p));
                }
                Some(p)
            },
            None => None,
        }
    }
    /// The pools that `filter_type` selects (all of them where it is
    /// `None`), in storage order.
    pub fn listing(&self, filter_type: &Option<String>) -> (r: Vec<ListedPool>)
        requires
            self.wf(),
        ensures
            lists_exactly(self@, opt_string_view(*filter_type), r@.map_values(|x: ListedPool| x@)),
    {
        let ghost filter = opt_string_view(*filter_type);
        let ghost s = self.pools@;
        let mut out: Vec<ListedPool> = Vec::new();
        let ghost mut idx: Seq<int> = Seq::empty();
        let n = self.pools.len();
        let mut i: usize = 0;
        while i < n
            invariant
                n == s.len(),
                s == self.pools@,
                filter == opt_string_view(*filter_type),
                names_distinct(s),
                i <= n,
                out@.len() == idx.len(),
                forall|m: int| 0 <= m < idx.len() ==> 0 <= #[trigger] idx[m] < i,
                forall|m1: int, m2: int|
                    0 <= m1 < m2 < idx.len() ==> #[trigger] idx[m1] < #[trigger] idx[m2],
                forall|m: int|
                    0 <= m < idx.len() ==> {
                        &&& #[trigger] out@[m]@ == listed_view(s[idx[m]].0@, s[idx[m]].1)
                        &&& selected(filter, s[idx[m]].1)
                    },
                forall|j: int|
                    0 <= j < i && selected(filter, #[trigger] s[j].1) ==> exists|m: int|
                        0 <= m < idx.len() && idx[m] == j,
            decreases n - i,
        {
            let name = &self.pools[i].0;
            let pool = &self.pools[i].1;
            let keep = match filter_type {
                None => true,
                Some(ft) => *ft == pool.kind().to_owned(),
            };
            if keep {
                let item = match pool {
                    Pool::Counter(c) => ListedPool::Counter {
                        name: name.clone(),
                        value: c.value,
                        step: c.step,
                        initial: c.initial,
                    },
                    Pool::Uuid(_) => ListedPool::Uuid { name: name.clone() },
                };
                out.push(item);
                proof {
                    let old_idx = idx;
                    idx = idx.push(i as int);
                    assert(idx[idx.len() - 1] == i);
                    assert forall|j: int|
                        0 <= j < i + 1 && selected(filter, #[trigger] s[j].1) implies exists|m: int|
                        0 <= m < idx.len() && idx[m] == j by {
                        if j == i {
                            assert(idx[idx.len() - 1] == j);
                        } else {
                            let m = choose|m: int| 0 <= m < old_idx.len() && old_idx[m] == j;
                            assert(idx[m] == j);
                        }
                    }
                }
            }
            i = i + 1;
        }
        proof {
            let items = out@.map_values(|x: ListedPool| x@);
            let pools = self@;
            assert forall|a: int| 0 <= a < items.len() implies items[a] == listed_view(
                s[idx[a]].0@,
                s[idx[a]].1,
            ) && items[a].name() == s[idx[a]].0@ by {
                assert(items[a] == out@[a]@);
            }
            assert forall|a: int, b: int| 0 <= a < b < items.len() implies #[trigger] items[a].name()
                != #[trigger] items[b].name() by {
                assert(idx[a] < idx[b]);
                assert(s[idx[a]].0@ != s[idx[b]].0@);
            }
            assert forall|a: int| 0 <= a < items.len() implies {
                let nm = #[trigger] items[a].name();
                &&& pools.contains_key(nm)
                &&& selected(filter, pools[nm])
                &&& items[a] == listed_view(nm, pools[nm])
            } by {
                lemma_entries_map_at(s, idx[a]);
            }
            assert forall|nm: Seq<char>| #[trigger]
                pools.contains_key(nm) && selected(filter, pools[nm]) implies exists|a: int|
                0 <= a < items.len() && #[trigger] items[a].name() == nm by {
                let j = choose|j: int| 0 <= j < s.len() && #[trigger] s[j].0@ == nm;
                lemma_entries_map_at(s, j);
                assert(selected(filter, s[j].1));
                let m = choose|m: int| 0 <= m < idx.len() && idx[m] == j;
                assert(items[m].name() == nm);
            }
        }
        out
    }
}

} // verus!
