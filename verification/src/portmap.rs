//! The verbs-derived port map: device name to that device's port list.
//!
//! The map is kept as a sequence of entries with pairwise distinct names;
//! its abstraction is the finite map from name to port list views, so every
//! contract over it is independent of the order the entries were inserted in.

use vstd::prelude::*;

verus! {

use vstd::seq_lib::group_to_multiset_ensures;

use crate::types::{clone_ib_ports, IbPort, IbPortView};

/// The finite map described by an entry sequence; a later entry with the
/// same name overwrites an earlier one.
pub open spec fn map_of(entries: Seq<(Seq<char>, Seq<IbPortView>)>) -> Map<
    Seq<char>,
    Seq<IbPortView>,
>
    decreases entries.len(),
{
    if entries.len() == 0 {
        Map::empty()
    } else {
        map_of(entries.drop_last()).insert(entries.last().0, entries.last().1)
    }
}

/// No two entries share a name.
pub open spec fn names_distinct(entries: Seq<(Seq<char>, Seq<IbPortView>)>) -> bool {
    forall|i: int, j: int|
        0 <= i < j < entries.len() ==> (#[trigger] entries[i]).0 != (#[trigger] entries[j]).0
}

/// The port list a name is joined with: the mapped list when the name is
/// present, the empty list otherwise.
pub open spec fn ports_for_name(m: Map<Seq<char>, Seq<IbPortView>>, name: Seq<char>) -> Seq<
    IbPortView,
> {
    if m.contains_key(name) {
        m[name]
    } else {
        Seq::empty()
    }
}

proof fn lemma_map_of_contains(entries: Seq<(Seq<char>, Seq<IbPortView>)>, k: Seq<char>)
    ensures
        map_of(entries).contains_key(k) <==> (exists|i: int|
            0 <= i < entries.len() && (#[trigger] entries[i]).0 == k),
    decreases entries.len(),
{
    if entries.len() > 0 {
        lemma_map_of_contains(entries.drop_last(), k);
        if entries.last().0 == k {
            assert(entries[entries.len() - 1].0 == k);
        } else if map_of(entries).contains_key(k) {
            let i = choose|i: int|
                0 <= i < entries.drop_last().len() && (#[trigger] entries.drop_last()[i]).0 == k;
            assert(entries[i].0 == k);
        } else {
            assert forall|i: int| 0 <= i < entries.len() implies (#[trigger] entries[i]).0 != k by {
                if i < entries.len() - 1 {
                    assert(entries.drop_last()[i] == entries[i]);
                }
            }
        }
    }
}

proof fn lemma_distinct_prefix(entries: Seq<(Seq<char>, Seq<IbPortView>)>)
    requires
        entries.len() > 0,
        names_distinct(entries),
    ensures
        names_distinct(entries.drop_last()),
{
    assert forall|i: int, j: int| 0 <= i < j < entries.drop_last().len() implies (
    #[trigger] entries.drop_last()[i]).0 != (#[trigger] entries.drop_last()[j]).0 by {
        assert(entries.drop_last()[i] == entries[i]);
        assert(entries.drop_last()[j] == entries[j]);
    }
}

proof fn lemma_map_of_index(entries: Seq<(Seq<char>, Seq<IbPortView>)>, i: int)
    requires
        names_distinct(entries),
        0 <= i < entries.len(),
    ensures
        map_of(entries).contains_key(entries[i].0),
        map_of(entries)[entries[i].0] == entries[i].1,
    decreases entries.len(),
{
    if i == entries.len() - 1 {
    } else {
        lemma_distinct_prefix(entries);
        assert(entries.drop_last()[i] == entries[i]);
        lemma_map_of_index(entries.drop_last(), i);
        assert(entries[i].0 != entries.last().0);
    }
}

proof fn lemma_map_of_update(entries: Seq<(Seq<char>, Seq<IbPortView>)>, i: int, v: Seq<IbPortView>)
    requires
        names_distinct(entries),
        0 <= i < entries.len(),
    ensures
        map_of(entries.update(i, (entries[i].0, v))) == map_of(entries).insert(entries[i].0, v),
    decreases entries.len(),
{
    let k = entries[i].0;
    let e2 = entries.update(i, (k, v));
    if i == entries.len() - 1 {
        assert(e2.drop_last() =~= entries.drop_last());
        assert(e2.last() == (k, v));
        assert(map_of(e2) == map_of(entries.drop_last()).insert(k, v));
        assert(map_of(entries).insert(k, v) =~= map_of(entries.drop_last()).insert(k, v));
    } else {
        lemma_distinct_prefix(entries);
        assert(entries.drop_last()[i] == entries[i]);
        assert(e2.drop_last() =~= entries.drop_last().update(i, (k, v)));
        lemma_map_of_update(entries.drop_last(), i, v);
        assert(e2.last() == entries.last());
        assert(map_of(e2) == map_of(entries.drop_last()).insert(k, v).insert(
            entries.last().0,
            entries.last().1,
        ));
        assert(k != entries.last().0);
        assert(map_of(entries.drop_last()).insert(k, v).insert(entries.last().0, entries.last().1)
            =~= map_of(entries.drop_last()).insert(entries.last().0, entries.last().1).insert(
            k,
            v,
        ));
    }
}

proof fn lemma_map_of_push(entries: Seq<(Seq<char>, Seq<IbPortView>)>, k: Seq<char>, v: Seq<IbPortView>)
    ensures
        map_of(entries.push((k, v))) == map_of(entries).insert(k, v),
{
    assert(entries.push((k, v)).drop_last() =~= entries);
    assert(entries.push((k, v)).last() == (k, v));
}

/// Two entry sequences with distinct names and the same entries, in whatever
/// order, describe the same map. The snapshot a scan produces therefore does
/// not depend on the order the host listed the devices in.
pub proof fn lemma_map_of_permutation(
    e1: Seq<(Seq<char>, Seq<IbPortView>)>,
    e2: Seq<(Seq<char>, Seq<IbPortView>)>,
)
    requires
        names_distinct(e1),
        names_distinct(e2),
        e1.to_multiset() == e2.to_multiset(),
    ensures
        map_of(e1) == map_of(e2),
{
    broadcast use group_to_multiset_ensures;

    assert forall|k: Seq<char>| #[trigger]
        map_of(e1).contains_key(k) implies map_of(e2).contains_key(k) && map_of(e2)[k] == map_of(
        e1,
    )[k] by {
        lemma_map_of_contains(e1, k);
        let i = choose|i: int| 0 <= i < e1.len() && (#[trigger] e1[i]).0 == k;
        lemma_map_of_index(e1, i);
        assert(e1.contains(e1[i]));
        assert(e2.to_multiset().count(e1[i]) > 0);
        assert(e2.contains(e1[i]));
        let j = choose|j: int| 0 <= j < e2.len() && #[trigger] e2[j] == e1[i];
        lemma_map_of_index(e2, j);
    }
    assert forall|k: Seq<char>| #[trigger]
        map_of(e2).contains_key(k) implies map_of(e1).contains_key(k) by {
        lemma_map_of_contains(e2, k);
        let j = choose|j: int| 0 <= j < e2.len() && (#[trigger] e2[j]).0 == k;
        assert(e2.contains(e2[j]));
        assert(e1.to_multiset().count(e2[j]) > 0);
        assert(e1.contains(e2[j]));
        let i = choose|i: int| 0 <= i < e1.len() && #[trigger] e1[i] == e2[j];
        lemma_map_of_index(e1, i);
    }
    assert(map_of(e1) =~= map_of(e2));
}

/// Name-keyed collection of per-device port lists, as one verbs scan
/// produces it.
#[derive(Debug)]
pub struct PortMap {
    entries: Vec<(String, Vec<IbPort>)>,
}

impl View for PortMap {
    type V = Map<Seq<char>, Seq<IbPortView>>;

    closed spec fn view(&self) -> Map<Seq<char>, Seq<IbPortView>> {
        map_of(self.entries.deep_view())
    }
}

impl PortMap {
    /// The entry names never repeat; the map view is faithful to them.
    #[verifier::type_invariant]
    spec fn inv(&self) -> bool {
        names_distinct(self.entries.deep_view())
    }

    /// An empty port map.
    pub fn new() -> (r: Self)
        ensures
            r@ == Map::<Seq<char>, Seq<IbPortView>>::empty(),
    {
        let r = PortMap { entries: Vec::new() };
        proof {
            assert(r.entries.deep_view() =~= Seq::<(Seq<char>, Seq<IbPortView>)>::empty());
        }
        r
    }

    /// Index of the entry holding `name`, if any.
    fn find(&self, name: &String) -> (r: Option<usize>)
        ensures
            match r {
                Some(i) => i < self.entries.deep_view().len() && self.entries.deep_view()[
                    i as int
                ].0 == name@,
                None => forall|i: int|
                    0 <= i < self.entries.deep_view().len() ==> (#[trigger] self.entries.deep_view()[
                        i
                    ]).0 != name@,
            },
    {
        let n = self.entries.len();
        let mut i: usize = 0;
        while i < n
            invariant
                n == self.entries.deep_view().len(),
                i <= n,
                forall|j: int|
                    0 <= j < i ==> (#[trigger] self.entries.deep_view()[j]).0 != name@,
            decreases n - i,
        {
            if self.entries[i].0 == *name {
                return Some(i);
            }
            i += 1;
        }
        None
    }

    /// The port list recorded under `name`, if the name is present.
    pub fn get(&self, name: &String) -> (r: Option<&Vec<IbPort>>)
        ensures
            match r {
                Some(ps) => self@.contains_key(name@) && ps.deep_view() == self@[name@],
                None => !self@.contains_key(name@),
            },
    {
        proof {
            use_type_invariant(self);
        }
        match self.find(name) {
            Some(i) => {
                proof {
                    lemma_map_of_index(self.entries.deep_view(), i as int);
                }
                Some(&self.entries[i].1)
            },
            None => {
                proof {
                    lemma_map_of_contains(self.entries.deep_view(), name@);
                }
                None
            },
        }
    }

    /// The port list a device named `name` is joined with: the recorded list
    /// when the name is present, the empty list otherwise.
    pub fn ports_for(&self, name: &String) -> (r: Vec<IbPort>)
        ensures
            r.deep_view() == ports_for_name(self@, name@),
    {
        match self.get(name) {
            Some(ps) => {
                let r = clone_ib_ports(ps);
                proof {
                    assert(r.deep_view() =~= ps.deep_view());
                }
                r
            },
            None => Vec::new(),
        }
    }

    /// Record `ports` under `name`, replacing what the name held before.
    pub fn insert(&mut self, name: String, ports: Vec<IbPort>)
        ensures
            final(self)@ == old(self)@.insert(name@, ports.deep_view()),
    {
        proof {
            use_type_invariant(&*self);
        }
        let ghost e0 = self.entries.deep_view();
        match self.find(&name) {
            Some(i) => {
                let mut es: Vec<(String, Vec<IbPort>)> = Vec::new();
                core::mem::swap(&mut self.entries, &mut es);
                es[i].1 = ports;
                proof {
                    assert(es.deep_view() =~= e0.update(
                        i as int,
                        (e0[i as int].0, ports.deep_view()),
                    ));
                    lemma_map_of_update(e0, i as int, ports.deep_view());
                    assert forall|a: int, b: int|
                        0 <= a < b < es.deep_view().len() implies (#[trigger] es.deep_view()[
                        a
                    ]).0 != (#[trigger] es.deep_view()[b]).0 by {
                        assert(es.deep_view()[a].0 == e0[a].0);
                        assert(es.deep_view()[b].0 == e0[b].0);
                    }
                }
                core::mem::swap(&mut self.entries, &mut es);
            },
            None => {
                let mut es: Vec<(String, Vec<IbPort>)> = Vec::new();
                core::mem::swap(&mut self.entries, &mut es);
                es.push((name, ports));
                proof {
                    assert(es.deep_view() =~= e0.push((name@, ports.deep_view())));
                    assert forall|i: int, j: int|
                        0 <= i < j < es.deep_view().len() implies (#[trigger] es.deep_view()[
                        i
                    ]).0 != (#[trigger] es.deep_view()[j]).0 by {
                        if j < e0.len() {
                            assert(es.deep_view()[i] == e0[i]);
                            assert(es.deep_view()[j] == e0[j]);
                        } else {
                            assert(es.deep_view()[i] == e0[i]);
                        }
                    }
                }
                core::mem::swap(&mut self.entries, &mut es);
                proof {
                    lemma_map_of_push(e0, name@, ports.deep_view());
                }
            },
        }
    }
}

} // verus!
