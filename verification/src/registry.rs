use vstd::prelude::*;

use crate::class::{DeclV, RegClass};

verus! {

/// The names of a sequence of records, in order.
pub open spec fn names_of(s: Seq<DeclV>) -> Seq<Seq<char>> {
    s.map_values(|d: DeclV| d.name)
}

/// The name-keyed map described by a sequence of records, later entries
/// winning over earlier ones.
spec fn records_map(s: Seq<DeclV>) -> Map<Seq<char>, DeclV>
    decreases s.len(),
{
    if s.len() == 0 {
        Map::empty()
    } else {
        records_map(s.drop_last()).insert(s.last().name, s.last())
    }
}

/// Name-keyed store of class records. Registration inserts or overwrites —
/// the last write for a name wins — and lookup returns the most recently
/// registered record. The abstract value is a map from class name to
/// record; there is no removal.
pub struct Registry {
    entries: Vec<RegClass>,
}

impl View for Registry {
    type V = Map<Seq<char>, DeclV>;

    closed spec fn view(&self) -> Map<Seq<char>, DeclV> {
        records_map(self.entries.deep_view())
    }
}

impl Registry {
    /// Internal invariant: at most one entry per class name.
    pub closed spec fn wf(&self) -> bool {
        names_of(self.entries.deep_view()).no_duplicates()
    }
}

proof fn lemma_names_drop_last(s: Seq<DeclV>)
    requires
        s.len() > 0,
    ensures
        names_of(s.drop_last()) == names_of(s).drop_last(),
        names_of(s).no_duplicates() ==> names_of(s.drop_last()).no_duplicates(),
        names_of(s).no_duplicates() ==> !names_of(s.drop_last()).contains(s.last().name),
{
    assert(names_of(s.drop_last()) =~= names_of(s).drop_last());
    if names_of(s).no_duplicates() {
        assert forall|i: int, j: int|
            0 <= i < names_of(s.drop_last()).len() && 0 <= j < names_of(s.drop_last()).len() && i
                != j implies names_of(s.drop_last())[i] != names_of(s.drop_last())[j] by {
            assert(names_of(s)[i] != names_of(s)[j]);
        }
        assert forall|i: int| 0 <= i < s.len() - 1 implies names_of(s.drop_last())[i]
            != s.last().name by {
            assert(names_of(s)[i] != names_of(s)[s.len() - 1]);
        }
    }
}

proof fn lemma_records_map_props(s: Seq<DeclV>)
    requires
        names_of(s).no_duplicates(),
    ensures
        forall|n: Seq<char>| #[trigger] records_map(s).contains_key(n) ==> names_of(s).contains(n),
        forall|i: int|
            0 <= i < s.len() ==> records_map(s).contains_key(#[trigger] s[i].name) && records_map(
                s,
            )[s[i].name] == s[i],
        records_map(s).dom().len() == s.len(),
        records_map(s).dom().finite(),
    decreases s.len(),
{
    if s.len() == 0 {
        assert(records_map(s).dom() =~= Set::<Seq<char>>::empty());
    } else {
        let s0 = s.drop_last();
        let last = s.last();
        lemma_names_drop_last(s);
        lemma_records_map_props(s0);
        assert(!records_map(s0).contains_key(last.name));
        assert(records_map(s).dom() =~= records_map(s0).dom().insert(last.name));
        vstd::set::axiom_set_insert_len(records_map(s0).dom(), last.name);
        assert forall|n: Seq<char>| #[trigger] records_map(s).contains_key(n) implies names_of(
            s,
        ).contains(n) by {
            if n == last.name {
                assert(names_of(s)[s.len() - 1] == n);
            } else {
                assert(records_map(s0).contains_key(n));
                let i = choose|i: int| 0 <= i < s0.len() && names_of(s0)[i] == n;
                assert(names_of(s)[i] == n);
            }
        }
        assert forall|i: int| 0 <= i < s.len() implies records_map(s).contains_key(
            #[trigger] s[i].name,
        ) && records_map(s)[s[i].name] == s[i] by {
            if i < s.len() - 1 {
                assert(names_of(s)[i] != names_of(s)[s.len() - 1]);
                assert(s0[i] == s[i]);
            }
        }
    }
}

proof fn lemma_records_map_update(s: Seq<DeclV>, i: int, r: DeclV)
    requires
        names_of(s).no_duplicates(),
        0 <= i < s.len(),
        s[i].name == r.name,
    ensures
        records_map(s.update(i, r)) == records_map(s).insert(r.name, r),
        names_of(s.update(i, r)).no_duplicates(),
    decreases s.len(),
{
    let t = s.update(i, r);
    assert(names_of(t) =~= names_of(s));
    lemma_names_drop_last(s);
    if i == s.len() - 1 {
        assert(t.drop_last() =~= s.drop_last());
        assert(records_map(t) =~= records_map(s).insert(r.name, r));
    } else {
        assert(t.drop_last() =~= s.drop_last().update(i, r));
        lemma_records_map_update(s.drop_last(), i, r);
        // the two inserted keys differ, so the inserts commute
        assert(names_of(s)[i] != names_of(s)[s.len() - 1]);
        assert(records_map(t) =~= records_map(s).insert(r.name, r));
    }
}

proof fn lemma_records_map_finite(s: Seq<DeclV>)
    ensures
        records_map(s).dom().finite(),
    decreases s.len(),
{
    if s.len() > 0 {
        lemma_records_map_finite(s.drop_last());
    }
}

impl Registry {
    /// The registry always holds finitely many names.
    pub proof fn lemma_dom_finite(&self)
        ensures
            self@.dom().finite(),
    {
        lemma_records_map_finite(self.entries.deep_view());
    }

    /// An empty registry: no name resolves.
    pub fn new() -> (r: Registry)
        ensures
            r@ == Map::<Seq<char>, DeclV>::empty(),
            r.wf(),
    {
        let entries: Vec<RegClass> = Vec::new();
        let r = Registry { entries };
        proof {
            assert(names_of(r.entries.deep_view()) =~= Seq::<Seq<char>>::empty());
        }
        r
    }

    /// The number of registered names.
    pub fn len(&self) -> (n: usize)
        requires
            self.wf(),
        ensures
            n == self@.dom().len(),
    {
        proof {
            lemma_records_map_props(self.entries.deep_view());
        }
        self.entries.len()
    }

    /// The most recently registered record under `name`, if any.
    #[verifier::loop_isolation(false)]
    pub fn lookup(&self, name: &String) -> (r: Option<&RegClass>)
        requires
            self.wf(),
        ensures
            match r {
                Some(rec) => self@.contains_key(name@) && rec@ == self@[name@],
                None => !self@.contains_key(name@),
            },
    {
        proof {
            lemma_records_map_props(self.entries.deep_view());
        }
        let ghost s = self.entries.deep_view();
        let mut i: usize = 0;
        while i < self.entries.len()
            invariant
                i <= s.len(),
                s == self.entries.deep_view(),
                forall|j: int| 0 <= j < i ==> names_of(s)[j] != name@,
            decreases s.len() - i,
        {
            if self.entries[i].name == *name {
                proof {
                    assert(s[i as int].name == name@);
                }
                return Some(&self.entries[i]);
            }
            i = i + 1;
        }
        proof {
            assert forall|j: int| 0 <= j < s.len() implies names_of(s)[j] != name@ by {}
            if self@.contains_key(name@) {
                assert(names_of(s).contains(name@));
            }
        }
        None
    }

    /// Insert `rec` under its name, overwriting any earlier record with the
    /// same name.
    #[verifier::loop_isolation(false)]
    pub fn register(&mut self, rec: RegClass)
        requires
            old(self).wf(),
        ensures
            final(self).wf(),
            final(self)@ == old(self)@.insert(rec@.name, rec@),
    {
        let ghost s = self.entries.deep_view();
        let mut i: usize = 0;
        while i < self.entries.len()
            invariant
                i <= s.len(),
                s == self.entries.deep_view(),
                self.entries.deep_view() == old(self).entries.deep_view(),
                forall|j: int| 0 <= j < i ==> names_of(s)[j] != rec@.name,
            decreases s.len() - i,
        {
            if self.entries[i].name == rec.name {
                proof {
                    lemma_records_map_update(s, i as int, rec@);
                }
                self.entries[i] = rec;
                proof {
                    assert(self.entries.deep_view() =~= s.update(i as int, rec@));
                }
                return ;
            }
            i = i + 1;
        }
        proof {
            lemma_records_map_props(s);
        }
        self.entries.push(rec);
        proof {
            let t = self.entries.deep_view();
            assert(t.drop_last() =~= s);
            assert(t.last() == rec@);
            assert(names_of(t).drop_last() =~= names_of(s));
            assert forall|j: int, k: int|
                0 <= j < names_of(t).len() && 0 <= k < names_of(t).len() && j != k implies names_of(
                t,
            )[j] != names_of(t)[k] by {
                if j < s.len() && k < s.len() {
                    assert(names_of(s)[j] != names_of(s)[k]);
                } else if j == s.len() {
                    assert(names_of(s)[k] != rec@.name);
                } else if k == s.len() {
                    assert(names_of(s)[j] != rec@.name);
                }
            }
        }
    }
}

} // verus!
