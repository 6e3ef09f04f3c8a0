use vstd::prelude::*;

use crate::user::{registered, timed_out, User};

verus! {

/// Entries with pairwise different pairing tokens.
pub open spec fn keys_distinct(s: Seq<(String, User)>) -> bool {
    forall|i: int, j: int|
        0 <= i < s.len() && 0 <= j < s.len() && i != j ==> s[i].0@ != s[j].0@
}

pub open spec fn has_key(s: Seq<(String, User)>, k: Seq<char>) -> bool {
    exists|i: int| 0 <= i < s.len() && (#[trigger] s[i]).0@ == k
}

/// The entries as a map from pairing token to record.
pub open spec fn map_of(s: Seq<(String, User)>) -> Map<Seq<char>, User> {
    Map::new(
        |k: Seq<char>| has_key(s, k),
        |k: Seq<char>| s[choose|i: int| 0 <= i < s.len() && (#[trigger] s[i]).0@ == k].1,
    )
}

/// The map left after pruning: the records of `m` that have not timed out at `now`.
pub open spec fn pruned(m: Map<Seq<char>, User>, now: i64) -> Map<Seq<char>, User> {
    Map::new(|k: Seq<char>| m.contains_key(k) && !timed_out(m[k], now), |k: Seq<char>| m[k])
}

/// `u` is linked to the remote account `id`.
pub open spec fn has_id(u: User, id: Seq<char>) -> bool {
    u.spotify_id is Some && u.spotify_id->0@ == id
}

proof fn lemma_map_of(s: Seq<(String, User)>)
    requires
        keys_distinct(s),
    ensures
        forall|i: int|
            0 <= i < s.len() ==> map_of(s).contains_key(#[trigger] s[i].0@) && map_of(s)[s[i].0@]
                == s[i].1,
        forall|i: int|
            0 <= i < s.len() ==> map_of(s).contains_key((#[trigger] s[i]).0@) && map_of(s)[s[i].0@]
                == s[i].1,
        forall|k: Seq<char>| #[trigger] map_of(s).contains_key(k) <==> has_key(s, k),
{
    assert forall|i: int| 0 <= i < s.len() implies map_of(s).contains_key(#[trigger] s[i].0@)
        && map_of(s)[s[i].0@] == s[i].1 by {
        assert(has_key(s, s[i].0@));
        let j = choose|j: int| 0 <= j < s.len() && (#[trigger] s[j]).0@ == s[i].0@;
        assert(j == i);
    }
}

/// The process-wide store: each pairing token with its user record.
pub struct Config {
    users: Vec<(String, User)>,
}

impl View for Config {
    type V = Map<Seq<char>, User>;

    closed spec fn view(&self) -> Map<Seq<char>, User> {
        map_of(self.users@)
    }
}

impl Default for Config {
    fn default() -> (r: Config)
        ensures
            r.wf(),
            r@ == Map::<Seq<char>, User>::empty(),
    {
        Config::new()
    }
}

impl Config {
    /// The entries hold each pairing token once.
    pub closed spec fn wf(&self) -> bool {
        keys_distinct(self.users@)
    }

    /// An empty store.
    pub fn new() -> (r: Config)
        ensures
            r.wf(),
            r@ == Map::<Seq<char>, User>::empty(),
    {
        let r = Config { users: Vec::new() };
        assert(r@ =~= Map::<Seq<char>, User>::empty());
        r
    }

    /// The entries, each pairing token with its record.
    pub fn entries(&self) -> (r: &Vec<(String, User)>)
        requires
            self.wf(),
        ensures
            keys_distinct(r@),
            map_of(r@) == self@,
    {
        &self.users
    }

    fn find(&self, token: &String) -> (r: Option<usize>)
        requires
            self.wf(),
        ensures
            r is Some ==> r->0 < self.users@.len() && self.users@[r->0 as int].0@ == token@,
            r is None ==> !self@.contains_key(token@),
    {
        proof {
            lemma_map_of(self.users@);
        }
        let mut i: usize = 0;
        while i < self.users.len()
            invariant
                i <= self.users@.len(),
                forall|j: int| 0 <= j < i ==> (#[trigger] self.users@[j]).0@ != token@,
            decreases self.users@.len() - i,
        {
            if self.users[i].0 == *token {
                return Some(i);
            }
            i = i + 1;
        }
        None
    }

    pub fn contains_key(&self, token: &String) -> (r: bool)
        requires
            self.wf(),
        ensures
            r == self@.contains_key(token@),
    {
        proof {
            lemma_map_of(self.users@);
        }
        self.find(token).is_some()
    }

    pub fn get(&self, token: &String) -> (r: Option<&User>)
        requires
            self.wf(),
        ensures
            r is Some <==> self@.contains_key(token@),
            r is Some ==> *r->0 == self@[token@],
    {
        proof {
            lemma_map_of(self.users@);
        }
        match self.find(token) {
            Some(i) => Some(&self.users[i].1),
            None => None,
        }
    }

    /// Adds a record under a pairing token that is not in the store yet.
    pub fn insert_new(&mut self, token: String, user: User)
        requires
            old(self).wf(),
            !old(self)@.contains_key(token@),
        ensures
            final(self).wf(),
            final(self)@ == old(self)@.insert(token@, user),
    {
        proof {
            lemma_map_of(self.users@);
        }
        let ghost k = token@;
        let ghost u = user;
        self.users.push((token, user));
        proof {
            lemma_map_of(self.users@);
            assert(self.users@.last().0@ == k);
            assert forall|kk: Seq<char>|
                #[trigger] self@.contains_key(kk) <==> old(self)@.insert(k, u).contains_key(kk) by {
                if has_key(self.users@, kk) && kk != k {
                    let i = choose|i: int|
                        0 <= i < self.users@.len() && (#[trigger] self.users@[i]).0@ == kk;
                    assert(old(self).users@[i] == self.users@[i]);
                }
                if has_key(old(self).users@, kk) {
                    let i = choose|i: int|
                        0 <= i < old(self).users@.len() && (#[trigger] old(self).users@[i]).0@
                            == kk;
                    assert(self.users@[i] == old(self).users@[i]);
                }
            }
            assert forall|kk: Seq<char>| #[trigger] self@.contains_key(kk) implies self@[kk] == old(
                self,
            )@.insert(k, u)[kk] by {
                let i = choose|i: int|
                    0 <= i < self.users@.len() && (#[trigger] self.users@[i]).0@ == kk;
                if i < old(self).users@.len() {
                    assert(old(self).users@[i] == self.users@[i]);
                }
            }
            assert(self@ =~= old(self)@.insert(k, u));
        }
    }

    /// Adds a record when its pairing token is new; returns whether it did.
    pub fn add(&mut self, token: String, user: User) -> (r: bool)
        requires
            old(self).wf(),
        ensures
            final(self).wf(),
            r == !old(self)@.contains_key(token@),
            r ==> final(self)@ == old(self)@.insert(token@, user),
            !r ==> final(self)@ == old(self)@,
    {
        if self.contains_key(&token) {
            false
        } else {
            self.insert_new(token, user);
            true
        }
    }

    /// Takes the record stored under `token` out of the store.
    pub fn remove(&mut self, token: &String) -> (r: Option<User>)
        requires
            old(self).wf(),
        ensures
            final(self).wf(),
            final(self)@ == old(self)@.remove(token@),
            r is Some <==> old(self)@.contains_key(token@),
            r is Some ==> r->0 == old(self)@[token@],
    {
        proof {
            lemma_map_of(self.users@);
        }
        match self.find(token) {
            None => {
                assert(self@ =~= old(self)@.remove(token@));
                None
            },
            Some(i) => {
                let (_k, u) = self.users.remove(i);
                proof {
                    let s = old(self).users@;
                    assert(self.users@ =~= s.remove(i as int));
                    assert forall|a: int, b: int|
                        0 <= a < self.users@.len() && 0 <= b < self.users@.len() && a != b
                            implies self.users@[a].0@ != self.users@[b].0@ by {
                        let a1 = if a < i { a } else { a + 1 };
                        let b1 = if b < i { b } else { b + 1 };
                        assert(self.users@[a] == s[a1]);
                        assert(self.users@[b] == s[b1]);
                    }
                    lemma_map_of(self.users@);
                    assert forall|kk: Seq<char>|
                        old(self)@.remove(token@).contains_key(kk) implies #[trigger] self@.contains_key(kk) by {
                        {
                            let j = choose|j: int| 0 <= j < s.len() && (#[trigger] s[j]).0@ == kk;
                            let j1 = if j < i { j } else { j - 1 };
                            assert(self.users@[j1] == s[j]);
                        }
                    }
                    assert forall|kk: Seq<char>| #[trigger] self@.contains_key(kk) implies
                        old(self)@.remove(token@).contains_key(kk) && self@[kk] == old(self)@[kk] by {
                        let j = choose|j: int|
                            0 <= j < self.users@.len() && (#[trigger] self.users@[j]).0@ == kk;
                        let j1 = if j < i { j } else { j + 1 };
                        assert(self.users@[j] == s[j1]);
                    }
                    assert(self@ =~= old(self)@.remove(token@));
                }
                Some(u)
            },
        }
    }

    /// Removes every pending record whose registration window has passed at `now`.
    pub fn prune_timed_out(&mut self, now: i64)
        requires
            old(self).wf(),
        ensures
            final(self).wf(),
            final(self)@ == pruned(old(self)@, now),
    {
        proof {
            lemma_map_of(self.users@);
        }
        let ghost s = self.users@;
        let mut kept: Vec<(String, User)> = Vec::new();
        let ghost mut idx: Seq<int> = Seq::empty();
        while self.users.len() > 0
            invariant
                keys_distinct(s),
                self.users@.len() <= s.len(),
                self.users@ == s.subrange(0, self.users@.len() as int),
                idx.len() == kept@.len(),
                forall|j: int|
                    0 <= j < kept@.len() ==> self.users@.len() <= #[trigger] idx[j] < s.len()
                        && kept@[j] == s[idx[j]] && !timed_out(s[idx[j]].1, now),
                forall|a: int, b: int| 0 <= a < b < idx.len() ==> idx[a] > idx[b],
                forall|i: int|
                    self.users@.len() <= i < s.len() && !timed_out(s[i].1, now) ==> exists|j: int|
                        0 <= j < idx.len() && #[trigger] idx[j] == i,
            decreases self.users@.len(),
        {
            let e = self.users.pop().unwrap();
            let ghost n = self.users@.len() as int;
            proof {
                assert(s[n] == e);
                assert(self.users@ =~= s.subrange(0, n));
            }
            if !e.1.registration_timed_out_at(now) {
                let ghost old_idx = idx;
                kept.push(e);
                proof {
                    idx = idx.push(n);
                    assert forall|i: int|
                        n <= i < s.len() && !timed_out(s[i].1, now) implies exists|j: int|
                        0 <= j < idx.len() && #[trigger] idx[j] == i by {
                        if i == n {
                            assert(idx[idx.len() - 1] == i);
                        } else {
                            let j = choose|j: int| 0 <= j < old_idx.len() && #[trigger] old_idx[j] == i;
                            assert(idx[j] == i);
                        }
                    }
                }
            }
        }
        proof {
            assert forall|a: int, b: int|
                0 <= a < kept@.len() && 0 <= b < kept@.len() && a != b implies kept@[a].0@
                    != kept@[b].0@ by {
                assert(idx[a] != idx[b]);
            }
        }
        self.users = kept;
        proof {
            let m = old(self)@;
            lemma_map_of(self.users@);
            assert forall|kk: Seq<char>| #[trigger] self@.contains_key(kk) implies pruned(
                m,
                now,
            ).contains_key(kk) && self@[kk] == m[kk] by {
                let j = choose|j: int|
                    0 <= j < self.users@.len() && (#[trigger] self.users@[j]).0@ == kk;
                assert(self.users@[j] == s[idx[j]]);
            }
            assert forall|kk: Seq<char>| #[trigger] pruned(m, now).contains_key(kk) implies self@.contains_key(
                kk,
            ) by {
                let i = choose|i: int| 0 <= i < s.len() && (#[trigger] s[i]).0@ == kk;
                assert(m[kk] == s[i].1);
                let j = choose|j: int| 0 <= j < idx.len() && #[trigger] idx[j] == i;
                assert(self.users@[j] == s[i]);
            }
            assert(self@ =~= pruned(m, now));
        }
    }

    /// A pairing token other than `except` whose record is registered and
    /// linked to the remote account `id`, if there is one.
    pub fn find_registered_with_id(&self, id: &String, except: &String) -> (r: Option<String>)
        requires
            self.wf(),
        ensures
            r is Some ==> {
                &&& r->0@ != except@
                &&& self@.contains_key(r->0@)
                &&& registered(self@[r->0@])
                &&& has_id(self@[r->0@], id@)
            },
            r is None ==> forall|k: Seq<char>|
                #[trigger] self@.contains_key(k) && k != except@ && registered(self@[k]) ==> !has_id(
                    self@[k],
                    id@,
                ),
    {
        proof {
            lemma_map_of(self.users@);
        }
        let mut i: usize = 0;
        while i < self.users.len()
            invariant
                i <= self.users@.len(),
                keys_distinct(self.users@),
                forall|j: int|
                    0 <= j < i ==> (#[trigger] self.users@[j]).0@ == except@ || !registered(
                        self.users@[j].1,
                    ) || !has_id(self.users@[j].1, id@),
            decreases self.users@.len() - i,
        {
            let e = &self.users[i];
            if let Some(sid) = &e.1.spotify_id {
                if *sid == *id && e.0 != *except && e.1.is_registered() {
                    proof {
                        lemma_map_of(self.users@);
                        assert(self@.contains_key(self.users@[i as int].0@));
                        assert(self@[self.users@[i as int].0@] == self.users@[i as int].1);
                    }
                    return Some(e.0.clone());
                }
            }
            i = i + 1;
        }
        proof {
            assert forall|k: Seq<char>|
                #[trigger] self@.contains_key(k) && k != except@ && registered(self@[k]) implies !has_id(
                self@[k],
                id@,
            ) by {
                let j = choose|j: int|
                    0 <= j < self.users@.len() && (#[trigger] self.users@[j]).0@ == k;
            }
        }
        None
    }
}

} // verus!
