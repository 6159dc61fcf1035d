use vstd::prelude::*;

verus! {

/// One stored credential: a login name and its secret in BASE32 text.
/// The secret is kept as it was given; whether it decodes is checked
/// lazily, at the moment a code is requested.
pub struct Login {
    pub name: String,
    pub key: String,
}

impl Login {
    /// The mathematical content of an entry: the pair of its name and key.
    pub open spec fn pair(self) -> (Seq<char>, Seq<char>) {
        (self.name@, self.key@)
    }
}

/// The mapping a sequence of entries denotes: later entries win over
/// earlier ones with the same name.
pub open spec fn map_of(s: Seq<(Seq<char>, Seq<char>)>) -> Map<Seq<char>, Seq<char>>
    decreases s.len(),
{
    if s.len() == 0 {
        Map::empty()
    } else {
        map_of(s.drop_last()).insert(s.last().0, s.last().1)
    }
}

/// The in-memory credential store: a mapping from login name to secret,
/// materialized fresh on every invocation and persisted as a whole by the
/// surrounding program. Exactly one entry per distinct name.
pub struct CredentialStore {
    entries: Vec<Login>,
}

impl View for CredentialStore {
    type V = Map<Seq<char>, Seq<char>>;

    open spec fn view(&self) -> Map<Seq<char>, Seq<char>> {
        map_of(self.pairs())
    }
}

impl CredentialStore {
    /// The entries' names and keys, in storage order.
    pub closed spec fn pairs(self) -> Seq<(Seq<char>, Seq<char>)> {
        self.entries@.map_values(|l: Login| l.pair())
    }

    /// Well-formed: no two entries share a name.
    pub open spec fn wf(self) -> bool {
        forall|i: int, j: int|
            0 <= i < j < self.pairs().len() ==> (#[trigger] self.pairs()[i]).0 != (
            #[trigger] self.pairs()[j]).0
    }

    /// An empty store, the state of a first run with no config file yet.
    pub fn new() -> (s: Self)
        ensures
            s.wf(),
            s@ == Map::<Seq<char>, Seq<char>>::empty(),
            s.pairs().len() == 0,
    {
        let s = CredentialStore { entries: Vec::new() };
        proof {
            assert(s.pairs() =~= Seq::<(Seq<char>, Seq<char>)>::empty());
        }
        s
    }

    /// How many logins are stored.
    pub fn len(&self) -> (n: usize)
        ensures
            n == self.pairs().len(),
    {
        self.entries.len()
    }

    /// The stored entries, in storage order, for iteration and persistence.
    pub fn logins(&self) -> (r: &Vec<Login>)
        ensures
            r@.len() == self.pairs().len(),
            forall|i: int| 0 <= i < r@.len() ==> (#[trigger] r@[i]).pair() == self.pairs()[i],
    {
        &self.entries
    }

    /// The position of the entry named `name`, if any.
    fn find_index(&self, name: &String) -> (r: Option<usize>)
        ensures
            match r {
                Some(i) => i < self.pairs().len() && self.pairs()[i as int].0 == name@,
                None => forall|i: int|
                    0 <= i < self.pairs().len() ==> (#[trigger] self.pairs()[i]).0 != name@,
            },
    {
        let n = self.entries.len();
        let mut i: usize = 0;
        while i < n
            invariant
                n == self.entries@.len(),
                i <= n,
                forall|j: int| 0 <= j < i ==> (#[trigger] self.pairs()[j]).0 != name@,
            decreases n - i,
        {
            if self.entries[i].name == *name {
                return Some(i);
            }
            i = i + 1;
        }
        None
    }

    /// Look a name up; absence is an ordinary outcome, not an error.
    pub fn lookup(&self, name: &String) -> (r: Option<&String>)
        requires
            self.wf(),
        ensures
            match r {
                Some(k) => self@.contains_key(name@) && self@[name@] == k@,
                None => !self@.contains_key(name@),
            },
    {
        match self.find_index(name) {
            Some(i) => {
                proof {
                    lemma_map_of_index(self.pairs(), i as int);
                }
                Some(&self.entries[i].key)
            },
            None => {
                proof {
                    lemma_map_of_contains(self.pairs(), name@);
                }
                None
            },
        }
    }

    /// Remove the entry named `name`; removing an absent name is a no-op.
    pub fn remove(&mut self, name: &String)
        requires
            old(self).wf(),
        ensures
            final(self).wf(),
            final(self)@ == old(self)@.remove(name@),
            final(self).pairs().len() <= old(self).pairs().len(),
    {
        let ghost before = self.pairs();
        match self.find_index(name) {
            Some(i) => {
                self.entries.remove(i);
                proof {
                    assert(self.pairs() =~= before.remove(i as int));
                    lemma_map_of_remove(before, i as int);
                    assert forall|p: int, q: int|
                        0 <= p < q < self.pairs().len() implies (#[trigger] self.pairs()[p]).0 != (
                    #[trigger] self.pairs()[q]).0 by {
                        let p0: int = if p < i { p } else { p + 1 };
                        let q0: int = if q < i { q } else { q + 1 };
                        assert(self.pairs()[p] == before[p0]);
                        assert(self.pairs()[q] == before[q0]);
                    }
                }
            },
            None => {
                proof {
                    lemma_map_of_contains(before, name@);
                    assert(self@.remove(name@) =~= self@);
                }
            },
        }
    }

    /// Insert or replace the entry for `name`: last write wins, the store
    /// never holds two entries with one name.
    pub fn add(&mut self, name: String, key: String)
        requires
            old(self).wf(),
        ensures
            final(self).wf(),
            final(self)@ == old(self)@.insert(name@, key@),
    {
        self.remove(&name);
        let ghost mid = *self;
        let ghost l = Login { name, key };
        self.entries.push(Login { name, key });
        proof {
            assert(self.pairs() =~= mid.pairs().push(l.pair()));
            assert(self.pairs().drop_last() =~= mid.pairs());
            lemma_map_of_contains(mid.pairs(), l.name@);
            assert(self@ =~= old(self)@.insert(name@, key@));
            assert forall|p: int, q: int|
                0 <= p < q < self.pairs().len() implies (#[trigger] self.pairs()[p]).0 != (
            #[trigger] self.pairs()[q]).0 by {
                if q == self.pairs().len() - 1 {
                    assert(self.pairs()[p] == mid.pairs()[p]);
                    assert(!mid@.contains_key(l.name@));
                }
            }
        }
    }

    /// Build a store from parsed entries, as the config loader hands them
    /// over; with duplicate names the last entry wins.
    pub fn from_logins(logins: Vec<Login>) -> (s: Self)
        ensures
            s.wf(),
            s@ == map_of(logins@.map_values(|l: Login| l.pair())),
    {
        let ghost all = logins@.map_values(|l: Login| l.pair());
        let mut s = CredentialStore::new();
        let n = logins.len();
        let mut i: usize = 0;
        while i < n
            invariant
                n == logins@.len(),
                i <= n,
                all == logins@.map_values(|l: Login| l.pair()),
                s.wf(),
                s@ == map_of(all.take(i as int)),
            decreases n - i,
        {
            let ghost prefix = all.take(i as int);
            let l = logins[i].clone();
            proof {
                assert(l.name@ == logins@[i as int].name@);
                assert(l.key@ == logins@[i as int].key@);
            }
            s.add(l.name, l.key);
            proof {
                assert(all.len() == logins@.len());
                assert(all[i as int] == logins@[i as int].pair());
                assert(all.take(i as int + 1).drop_last() =~= prefix);
                assert(all.take(i as int + 1).last() == all[i as int]);
                assert(s@ =~= map_of(all.take(i as int + 1)));
            }
            i = i + 1;
        }
        proof {
            assert(all.take(n as int) =~= all);
        }
        s
    }
}

impl Clone for Login {
    fn clone(&self) -> (r: Self)
        ensures
            r.name@ == self.name@,
            r.key@ == self.key@,
    {
        Login { name: self.name.clone(), key: self.key.clone() }
    }
}

/// A name is in the denoted mapping exactly when some entry carries it.
proof fn lemma_map_of_contains(s: Seq<(Seq<char>, Seq<char>)>, n: Seq<char>)
    ensures
        map_of(s).contains_key(n) <==> exists|i: int| 0 <= i < s.len() && (#[trigger] s[i]).0 == n,
    decreases s.len(),
{
    if s.len() > 0 {
        lemma_map_of_contains(s.drop_last(), n);
        if s.last().0 == n {
            assert((s[s.len() - 1]).0 == n);
        } else if map_of(s).contains_key(n) {
            let i = choose|i: int| 0 <= i < s.drop_last().len() && (#[trigger] s.drop_last()[i]).0 == n;
            assert((s[i]).0 == n);
        } else {
            assert forall|i: int| 0 <= i < s.len() implies (#[trigger] s[i]).0 != n by {
                if i < s.len() - 1 {
                    assert(s.drop_last()[i] == s[i]);
                }
            }
        }
    }
}

/// With unique names, the mapping sends an entry's name to its key.
proof fn lemma_map_of_index(s: Seq<(Seq<char>, Seq<char>)>, i: int)
    requires
        0 <= i < s.len(),
        forall|p: int, q: int| 0 <= p < q < s.len() ==> (#[trigger] s[p]).0 != (#[trigger] s[q]).0,
    ensures
        map_of(s).contains_key(s[i].0),
        map_of(s)[s[i].0] == s[i].1,
    decreases s.len(),
{
    if i < s.len() - 1 {
        assert(s[i].0 != s.last().0);
        assert(s.drop_last()[i] == s[i]);
        lemma_map_of_index(s.drop_last(), i);
    }
}

/// With unique names, dropping the entry at `i` removes exactly its name
/// from the denoted mapping.
proof fn lemma_map_of_remove(s: Seq<(Seq<char>, Seq<char>)>, i: int)
    requires
        0 <= i < s.len(),
        forall|p: int, q: int| 0 <= p < q < s.len() ==> (#[trigger] s[p]).0 != (#[trigger] s[q]).0,
    ensures
        map_of(s.remove(i)) == map_of(s).remove(s[i].0),
    decreases s.len(),
{
    if i == s.len() - 1 {
        assert(s.remove(i) =~= s.drop_last());
        lemma_map_of_contains(s.drop_last(), s[i].0);
        assert forall|p: int| 0 <= p < s.drop_last().len() implies (#[trigger] s.drop_last()[p]).0
            != s[i].0 by {
            assert(s.drop_last()[p] == s[p]);
        }
        assert(map_of(s.drop_last()).insert(s[i].0, s[i].1).remove(s[i].0) =~= map_of(
            s.drop_last(),
        ));
    } else {
        assert(s.remove(i).drop_last() =~= s.drop_last().remove(i));
        assert(s.remove(i).last() == s.last());
        assert forall|p: int, q: int| 0 <= p < q < s.drop_last().len() implies (
        #[trigger] s.drop_last()[p]).0 != (#[trigger] s.drop_last()[q]).0 by {
            assert(s.drop_last()[p] == s[p]);
            assert(s.drop_last()[q] == s[q]);
        }
        lemma_map_of_remove(s.drop_last(), i);
        assert(s.drop_last()[i] == s[i]);
        assert(s[i].0 != s.last().0);
        assert(map_of(s.drop_last()).remove(s[i].0).insert(s.last().0, s.last().1) =~= map_of(
            s.drop_last(),
        ).insert(s.last().0, s.last().1).remove(s[i].0));
    }
}

/// Adding a name absent from a mapping and then removing it gives the
/// original mapping back: persistence aside, add followed by remove is a
/// round trip.
pub proof fn lemma_add_then_remove_absent(
    m: Map<Seq<char>, Seq<char>>,
    n: Seq<char>,
    k: Seq<char>,
)
    requires
        !m.contains_key(n),
    ensures
        m.insert(n, k).remove(n) == m,
{
    assert(m.insert(n, k).remove(n) =~= m);
}

/// Adding the same name and key twice leaves the same mapping as adding
/// them once: add is idempotent under identical arguments.
pub proof fn lemma_add_idempotent(m: Map<Seq<char>, Seq<char>>, n: Seq<char>, k: Seq<char>)
    ensures
        m.insert(n, k).insert(n, k) == m.insert(n, k),
{
    assert(m.insert(n, k).insert(n, k) =~= m.insert(n, k));
}

} // verus!
