use vstd::prelude::*;

verus! {

pub const SCOPE_READ_PLAYBACK_STATE: &'static str = "user-read-playback-state";

pub const SCOPE_READ_CURRENTLY_PLAYING: &'static str = "user-read-currently-playing";

pub const SCOPE_MODIFY_PLAYBACK_STATE: &'static str = "user-modify-playback-state";

/// The permission scopes the service asks for, in the order it asks.
pub open spec fn required_scopes() -> Seq<Seq<char>> {
    seq![SCOPE_READ_PLAYBACK_STATE@, SCOPE_READ_CURRENTLY_PLAYING@, SCOPE_MODIFY_PLAYBACK_STATE@]
}

/// The pieces of `s` between single spaces, empty pieces included, in order.
pub open spec fn split_spaces(s: Seq<char>) -> Seq<Seq<char>>
    decreases s.len(),
{
    if s.len() == 0 {
        seq![Seq::empty()]
    } else {
        let p = split_spaces(s.drop_last());
        if s.last() == ' ' {
            p.push(Seq::empty())
        } else {
            p.update(p.len() - 1, p.last().push(s.last()))
        }
    }
}

/// The space-separated scopes in `scope` form, as a set, exactly the required scopes.
pub open spec fn scopes_match(scope: Seq<char>) -> bool {
    let pieces = split_spaces(scope);
    &&& forall|j: int| 0 <= j < pieces.len() ==> required_scopes().contains(#[trigger] pieces[j])
    &&& forall|k: int|
        0 <= k < required_scopes().len() ==> pieces.contains(#[trigger] required_scopes()[k])
}

/// `scopes_match` is equality of the granted and the required scopes as sets.
pub proof fn lemma_scopes_match_as_sets(scope: Seq<char>)
    ensures
        scopes_match(scope) <==> split_spaces(scope).to_set() == required_scopes().to_set(),
{
    let p = split_spaces(scope);
    let r = required_scopes();
    if scopes_match(scope) {
        assert forall|x: Seq<char>| p.to_set().contains(x) <==> r.to_set().contains(x) by {
            if p.contains(x) {
                let j = choose|j: int| 0 <= j < p.len() && p[j] == x;
                assert(r.contains(p[j]));
            }
            if r.contains(x) {
                let k = choose|k: int| 0 <= k < r.len() && r[k] == x;
                assert(p.contains(r[k]));
            }
        }
        assert(p.to_set() =~= r.to_set());
    }
    if p.to_set() == r.to_set() {
        assert forall|j: int| 0 <= j < p.len() implies r.contains(#[trigger] p[j]) by {
            assert(p.to_set().contains(p[j]));
        }
        assert forall|k: int| 0 <= k < r.len() implies p.contains(#[trigger] r[k]) by {
            assert(r.to_set().contains(r[k]));
        }
    }
}

proof fn lemma_split_nonempty(s: Seq<char>)
    ensures
        split_spaces(s).len() >= 1,
    decreases s.len(),
{
    if s.len() > 0 {
        lemma_split_nonempty(s.drop_last());
    }
}

/// Which of the required scopes `w` is, if any.
fn scope_index(w: &String) -> (r: Option<usize>)
    ensures
        r is Some ==> r->0 < 3 && required_scopes()[r->0 as int] == w@,
        r is None ==> !required_scopes().contains(w@),
{
    proof {
        reveal_strlit("user-read-playback-state");
        reveal_strlit("user-read-currently-playing");
        reveal_strlit("user-modify-playback-state");
    }
    let a = String::from_str(SCOPE_READ_PLAYBACK_STATE);
    let b = String::from_str(SCOPE_READ_CURRENTLY_PLAYING);
    let c = String::from_str(SCOPE_MODIFY_PLAYBACK_STATE);
    if *w == a {
        Some(0)
    } else if *w == b {
        Some(1)
    } else if *w == c {
        Some(2)
    } else {
        assert forall|j: int| 0 <= j < 3 implies required_scopes()[j] != w@ by {
            if j == 0 {
                assert(required_scopes()[0] == a@);
            } else if j == 1 {
                assert(required_scopes()[1] == b@);
            } else {
                assert(required_scopes()[2] == c@);
            }
        }
        None
    }
}

/// The required scopes are pairwise different.
proof fn lemma_required_distinct()
    ensures
        forall|i: int, j: int|
            0 <= i < 3 && 0 <= j < 3 && i != j ==> required_scopes()[i] != required_scopes()[j],
{
    reveal_strlit("user-read-playback-state");
    reveal_strlit("user-read-currently-playing");
    reveal_strlit("user-modify-playback-state");
    let r = required_scopes();
    assert(r[0][5] != r[1][5] || r[0][10] != r[1][10]);
    assert(r[0][5] != r[2][5]);
    assert(r[1][5] != r[2][5]);
}

/// Whether the provider granted exactly the required scopes; `scope` is the
/// space-separated list it returned.
pub fn check_scopes(scope: &str) -> (r: bool)
    ensures
        r == scopes_match(scope@),
{
    proof {
        lemma_required_distinct();
    }
    let ghost s = scope@;
    let ghost req = required_scopes();
    let n = scope.unicode_len();
    let mut start: usize = 0;
    let mut i: usize = 0;
    let mut all_ok = true;
    let mut seen = [false, false, false];
    proof {
        assert(s.subrange(0, 0) =~= Seq::<char>::empty());
    }
    while i < n
        invariant
            n == s.len(),
            s == scope@,
            req == required_scopes(),
            start <= i <= n,
            split_spaces(s.subrange(0, i as int)).len() >= 1,
            split_spaces(s.subrange(0, i as int)).last() == s.subrange(start as int, i as int),
            all_ok == (forall|j: int|
                0 <= j < split_spaces(s.subrange(0, i as int)).len() - 1 ==> req.contains(
                    #[trigger] split_spaces(s.subrange(0, i as int))[j],
                )),
            forall|k: int|
                0 <= k < 3 ==> (seen[k] == exists|j: int|
                    0 <= j < split_spaces(s.subrange(0, i as int)).len() - 1
                        && #[trigger] split_spaces(s.subrange(0, i as int))[j] == req[k]),
            forall|i1: int, j1: int| 0 <= i1 < 3 && 0 <= j1 < 3 && i1 != j1 ==> req[i1] != req[j1],
        decreases n - i,
    {
        let ghost p = split_spaces(s.subrange(0, i as int));
        let c = scope.get_char(i);
        proof {
            assert(s.subrange(0, i + 1).drop_last() =~= s.subrange(0, i as int));
            lemma_split_nonempty(s.subrange(0, i + 1));
        }
        if c == ' ' {
            let w = String::from_str(scope.substring_char(start, i));
            let k = scope_index(&w);
            let ghost q = split_spaces(s.subrange(0, i + 1));
            proof {
                assert(q == p.push(Seq::empty()));
                assert(q[p.len() - 1] == w@);
                assert forall|j: int| 0 <= j < p.len() - 1 implies q[j] == p[j] by {}
            }
            match k {
                Some(x) => {
                    seen[x] = true;
                },
                None => {
                    all_ok = false;
                },
            }
            proof {
                assert forall|kk: int| 0 <= kk < 3 implies (seen[kk] == exists|j: int|
                    0 <= j < q.len() - 1 && #[trigger] q[j] == req[kk]) by {
                    if exists|j: int| 0 <= j < q.len() - 1 && #[trigger] q[j] == req[kk] {
                        let j = choose|j: int| 0 <= j < q.len() - 1 && #[trigger] q[j] == req[kk];
                        if j < p.len() - 1 {
                            assert(p[j] == req[kk]);
                        }
                    }
                    if seen[kk] && !(k == Some(kk as usize)) {
                        let j = choose|j: int| 0 <= j < p.len() - 1 && #[trigger] p[j] == req[kk];
                        assert(q[j] == req[kk]);
                    }
                    if k == Some(kk as usize) {
                        assert(q[p.len() - 1] == req[kk]);
                    }
                }
                if all_ok {
                    assert forall|j: int| 0 <= j < q.len() - 1 implies req.contains(
                        #[trigger] q[j],
                    ) by {
                        if j < p.len() - 1 {
                            assert(req.contains(p[j]));
                        } else {
                            assert(req[k->0 as int] == q[j]);
                        }
                    }
                } else {
                    if k is None {
                        assert(!req.contains(q[p.len() - 1]));
                    } else {
                        let j = choose|j: int| 0 <= j < p.len() - 1 && !req.contains(
                            #[trigger] p[j],
                        );
                        assert(!req.contains(q[j]));
                    }
                }
            }
            start = i + 1;
            proof {
                assert(s.subrange(start as int, i + 1) =~= Seq::<char>::empty());
            }
        } else {
            let ghost q = split_spaces(s.subrange(0, i + 1));
            proof {
                assert(q == p.update(p.len() - 1, p.last().push(c)));
                assert(s.subrange(start as int, i + 1) =~= s.subrange(start as int, i as int).push(
                    c,
                ));
                assert forall|j: int| 0 <= j < p.len() - 1 implies q[j] == p[j] by {}
                assert forall|kk: int| 0 <= kk < 3 implies (seen[kk] == exists|j: int|
                    0 <= j < q.len() - 1 && #[trigger] q[j] == req[kk]) by {
                    if seen[kk] {
                        let j = choose|j: int| 0 <= j < p.len() - 1 && #[trigger] p[j] == req[kk];
                        assert(q[j] == req[kk]);
                    }
                    if exists|j: int| 0 <= j < q.len() - 1 && #[trigger] q[j] == req[kk] {
                        let j = choose|j: int| 0 <= j < q.len() - 1 && #[trigger] q[j] == req[kk];
                        assert(p[j] == req[kk]);
                    }
                }
                if !all_ok {
                    let j = choose|j: int| 0 <= j < p.len() - 1 && !req.contains(#[trigger] p[j]);
                    assert(!req.contains(q[j]));
                }
            }
        }
        i = i + 1;
    }
    let w = String::from_str(scope.substring_char(start, n));
    let k = scope_index(&w);
    let ghost p = split_spaces(s.subrange(0, n as int));
    proof {
        assert(s.subrange(0, n as int) =~= s);
    }
    let last_ok = k.is_some();
    let mut all_seen = true;
    let mut x: usize = 0;
    while x < 3
        invariant
            x <= 3,
            all_seen == forall|kk: int| 0 <= kk < x ==> (seen[kk] || k == Some(kk as usize)),
        decreases 3 - x,
    {
        all_seen = all_seen && (seen[x] || k == Some(x));
        x = x + 1;
    }
    let r = all_ok && last_ok && all_seen;
    proof {
        if r {
            assert forall|j: int| 0 <= j < p.len() implies req.contains(#[trigger] p[j]) by {
                if j == p.len() - 1 {
                    assert(req[k->0 as int] == p[j]);
                }
            }
            assert forall|kk: int| 0 <= kk < req.len() implies p.contains(#[trigger] req[kk]) by {
                if seen[kk] {
                    let j = choose|j: int| 0 <= j < p.len() - 1 && #[trigger] p[j] == req[kk];
                    assert(p[j] == req[kk]);
                } else {
                    assert(p[p.len() - 1] == req[kk]);
                }
            }
        } else if !all_ok {
            let j = choose|j: int| 0 <= j < p.len() - 1 && !req.contains(#[trigger] p[j]);
            assert(!req.contains(p[j]));
        } else if !last_ok {
            assert(!req.contains(p[p.len() - 1]));
        } else {
            let kk = choose|kk: int| 0 <= kk < 3 && !(seen[kk] || k == Some(kk as usize));
            assert forall|j: int| 0 <= j < p.len() implies p[j] != req[kk] by {
                if j == p.len() - 1 {
                    assert(p[j] == req[k->0 as int]);
                } else {
                    assert(!(#[trigger] p[j] == req[kk]) || seen[kk]);
                }
            }
            assert(!p.contains(req[kk]));
        }
    }
    r
}

} // verus!
