//! The session list of the web server and the SDK: stored sessions joined with those
//! open in memory, most recently updated first.
use vstd::prelude::*;

use crate::text::{chars_of, eq_chars};

verus! {

/// A session as the list sees it: its ID, when it was last updated (a timestamp that
/// orders updates), and the session itself.
#[derive(Debug, Clone)]
pub struct Listed<T> {
    pub id: String,
    pub updated_at: i64,
    pub item: T,
}

/// How many sessions the list shows.
pub const LIST_LIMIT: usize = 200;

/// Is a session with this ID in `v`?
pub open spec fn has_id<T>(v: Seq<Listed<T>>, id: Seq<char>) -> bool {
    exists|i: int| 0 <= i < v.len() && (#[trigger] v[i]).id@ == id
}

/// `listed` with each session of `live` appended whose ID it does not list yet, in
/// order.
pub open spec fn join_live<T>(listed: Seq<Listed<T>>, live: Seq<Listed<T>>) -> Seq<Listed<T>>
    decreases live.len(),
{
    if live.len() == 0 {
        listed
    } else {
        let before = join_live(listed, live.drop_last());
        if has_id(before, live.last().id@) {
            before
        } else {
            before.push(live.last())
        }
    }
}

/// Where `x` goes in a list ordered newest first: after every session updated at the
/// same time or later.
pub open spec fn newest_pos<T>(v: Seq<Listed<T>>, x: Listed<T>) -> int
    decreases v.len(),
{
    if v.len() == 0 {
        0
    } else if v[0].updated_at >= x.updated_at {
        newest_pos(v.drop_first(), x) + 1
    } else {
        0
    }
}

/// `v` ordered newest first; sessions updated at the same time keep their order.
pub open spec fn newest_first<T>(v: Seq<Listed<T>>) -> Seq<Listed<T>>
    decreases v.len(),
{
    if v.len() == 0 {
        v
    } else {
        let s = newest_first(v.drop_last());
        s.insert(newest_pos(s, v.last()), v.last())
    }
}

/// No session is listed after one updated earlier.
pub open spec fn is_newest_first<T>(v: Seq<Listed<T>>) -> bool {
    forall|i: int, j: int|
        0 <= i < j < v.len() ==> (#[trigger] v[i]).updated_at >= (#[trigger] v[j]).updated_at
}

/// The list shown: stored sessions joined with the open ones, newest first, at most
/// `limit` of them.
pub open spec fn session_list<T>(stored: Seq<Listed<T>>, live: Seq<Listed<T>>, limit: nat) -> Seq<
    Listed<T>,
> {
    let all = newest_first(join_live(stored, live));
    if all.len() <= limit {
        all
    } else {
        all.take(limit as int)
    }
}

proof fn lemma_newest_pos_bounds<T>(v: Seq<Listed<T>>, x: Listed<T>)
    ensures
        0 <= newest_pos(v, x) <= v.len(),
        forall|k: int| 0 <= k < newest_pos(v, x) ==> (#[trigger] v[k]).updated_at >= x.updated_at,
        newest_pos(v, x) < v.len() ==> v[newest_pos(v, x)].updated_at < x.updated_at,
    decreases v.len(),
{
    if v.len() > 0 && v[0].updated_at >= x.updated_at {
        lemma_newest_pos_bounds(v.drop_first(), x);
        assert forall|k: int| 1 <= k < v.len() implies v[k] == v.drop_first()[k - 1] by {}
    }
}

proof fn lemma_insert_newest_sorted<T>(v: Seq<Listed<T>>, x: Listed<T>)
    requires
        is_newest_first(v),
    ensures
        is_newest_first(v.insert(newest_pos(v, x), x)),
        v.insert(newest_pos(v, x), x).len() == v.len() + 1,
{
    lemma_newest_pos_bounds(v, x);
    let q = newest_pos(v, x);
    let w = v.insert(q, x);
    assert forall|i: int, j: int| 0 <= i < j < w.len() implies (#[trigger] w[i]).updated_at
        >= (#[trigger] w[j]).updated_at by {
        if i < q && j < q {
            assert(w[i] == v[i] && w[j] == v[j]);
        } else if i < q && j == q {
            assert(w[i] == v[i] && w[j] == x);
        } else if i < q {
            assert(w[i] == v[i] && w[j] == v[j - 1]);
        } else if i == q {
            assert(w[i] == x && w[j] == v[j - 1]);
            assert(v[q].updated_at < x.updated_at);
            if j - 1 > q {
                assert(v[q].updated_at >= v[j - 1].updated_at);
            }
        } else {
            assert(w[i] == v[i - 1] && w[j] == v[j - 1]);
        }
    }
}

/// The list is ordered newest first, and ordering keeps every session.
pub proof fn lemma_newest_first_sorted<T>(v: Seq<Listed<T>>)
    ensures
        is_newest_first(newest_first(v)),
        newest_first(v).len() == v.len(),
    decreases v.len(),
{
    if v.len() > 0 {
        lemma_newest_first_sorted(v.drop_last());
        lemma_insert_newest_sorted(newest_first(v.drop_last()), v.last());
    }
}

proof fn lemma_join_live_ids<T>(listed: Seq<Listed<T>>, live: Seq<Listed<T>>, id: Seq<char>)
    ensures
        has_id(join_live(listed, live), id) <==> has_id(listed, id) || has_id(live, id),
    decreases live.len(),
{
    if live.len() > 0 {
        let before = join_live(listed, live.drop_last());
        lemma_join_live_ids(listed, live.drop_last(), id);
        if has_id(live, id) && !has_id(live.drop_last(), id) {
            assert(live.last().id@ == id) by {
                let i = choose|i: int| 0 <= i < live.len() && (#[trigger] live[i]).id@ == id;
                if i < live.len() - 1 {
                    assert(live.drop_last()[i] == live[i]);
                }
            }
        }
        if has_id(live.drop_last(), id) {
            let i = choose|i: int| 0 <= i < live.drop_last().len() && (#[trigger] live.drop_last()[i]).id@ == id;
            assert(live[i] == live.drop_last()[i]);
        }
        if !has_id(before, live.last().id@) {
            let w = before.push(live.last());
            if has_id(before, id) {
                let i = choose|i: int| 0 <= i < before.len() && (#[trigger] before[i]).id@ == id;
                assert(w[i] == before[i]);
            }
            if live.last().id@ == id {
                assert(w[before.len() as int] == live.last());
            }
            if has_id(w, id) && !has_id(before, id) {
                let i = choose|i: int| 0 <= i < w.len() && (#[trigger] w[i]).id@ == id;
                if i < before.len() {
                    assert(w[i] == before[i]);
                }
            }
        }
    }
}

/// A session is listed, before the limit applies, exactly when it is stored or open;
/// and the list is ordered newest first.
pub proof fn lemma_session_list_contents<T>(
    stored: Seq<Listed<T>>,
    live: Seq<Listed<T>>,
    limit: nat,
    id: Seq<char>,
)
    ensures
        has_id(newest_first(join_live(stored, live)), id) <==> has_id(stored, id) || has_id(live, id),
        is_newest_first(session_list(stored, live, limit)),
        session_list(stored, live, limit).len() <= limit,
{
    lemma_join_live_ids(stored, live, id);
    lemma_newest_first_members(join_live(stored, live), id);
    lemma_newest_first_sorted(join_live(stored, live));
}

proof fn lemma_newest_first_members<T>(v: Seq<Listed<T>>, id: Seq<char>)
    ensures
        has_id(newest_first(v), id) <==> has_id(v, id),
    decreases v.len(),
{
    if v.len() > 0 {
        let s = newest_first(v.drop_last());
        lemma_newest_first_members(v.drop_last(), id);
        lemma_newest_first_sorted(v.drop_last());
        lemma_newest_pos_bounds(s, v.last());
        let q = newest_pos(s, v.last());
        let w = s.insert(q, v.last());
        if has_id(s, id) {
            let i = choose|i: int| 0 <= i < s.len() && (#[trigger] s[i]).id@ == id;
            if i < q {
                assert(w[i] == s[i]);
            } else {
                assert(w[i + 1] == s[i]);
            }
        }
        if v.last().id@ == id {
            assert(w[q] == v.last());
        }
        if has_id(w, id) {
            let i = choose|i: int| 0 <= i < w.len() && (#[trigger] w[i]).id@ == id;
            if i < q {
                assert(w[i] == s[i]);
            } else if i > q {
                assert(w[i] == s[i - 1]);
            }
        }
        if has_id(v, id) {
            let i = choose|i: int| 0 <= i < v.len() && (#[trigger] v[i]).id@ == id;
            if i < v.len() - 1 {
                assert(v.drop_last()[i] == v[i]);
            }
        }
        if has_id(v.drop_last(), id) {
            let i = choose|i: int| 0 <= i < v.drop_last().len() && (#[trigger] v.drop_last()[i]).id@ == id;
            assert(v[i] == v.drop_last()[i]);
        }
    }
}

fn lists_id<T>(v: &Vec<Listed<T>>, id: &str) -> (r: bool)
    ensures
        r == has_id(v@, id@),
{
    let n = chars_of(id);
    let mut i: usize = 0;
    while i < v.len()
        invariant
            0 <= i <= v.len(),
            n@ == id@,
            forall|k: int| 0 <= k < i ==> (#[trigger] v@[k]).id@ != id@,
        decreases v.len() - i,
    {
        if eq_chars(&chars_of(v[i].id.as_str()), &n) {
            assert(v@[i as int].id@ == id@);
            return true;
        }
        i = i + 1;
    }
    false
}

fn insert_newest<T>(v: &mut Vec<Listed<T>>, x: Listed<T>)
    ensures
        final(v)@ == old(v)@.insert(newest_pos(old(v)@, x), x),
{
    proof {
        lemma_newest_pos_bounds(v@, x);
    }
    let mut q: usize = 0;
    while q < v.len() && v[q].updated_at >= x.updated_at
        invariant
            0 <= q <= v.len(),
            v@ == old(v)@,
            forall|k: int| 0 <= k < q ==> (#[trigger] v@[k]).updated_at >= x.updated_at,
        decreases v.len() - q,
    {
        q = q + 1;
    }
    proof {
        lemma_newest_pos_bounds(v@, x);
        let p = newest_pos(v@, x);
        if p < q {
            assert(v@[p].updated_at >= x.updated_at);
        }
        if q < p {
            assert(v@[q as int].updated_at >= x.updated_at);
        }
    }
    v.insert(q, x);
}

/// The sessions to list: the stored ones (as the store returned them) joined with the
/// open ones not stored yet, ordered newest first with ties kept in that order, and
/// cut to `limit`.
pub fn merge_session_lists<T>(stored: Vec<Listed<T>>, live: Vec<Listed<T>>, limit: usize) -> (r:
    Vec<Listed<T>>)
    ensures
        r@ == session_list(stored@, live@, limit as nat),
{
    let ghost live_all = live@;
    let mut listed = stored;
    let ghost stored_all = listed@;
    let mut rest = live;
    assert(live_all.take(0) =~= Seq::<Listed<T>>::empty());
    assert(live_all.skip(0) =~= live_all);
    while rest.len() > 0
        invariant
            rest@.len() <= live_all.len(),
            rest@ == live_all.skip(live_all.len() - rest@.len()),
            listed@ == join_live(stored_all, live_all.take(live_all.len() - rest@.len())),
        decreases rest.len(),
    {
        let ghost done = live_all.len() - rest@.len();
        let s = rest.remove(0);
        proof {
            assert(s == live_all[done]);
            assert(live_all.take(done + 1).drop_last() =~= live_all.take(done));
            assert(live_all.take(done + 1).last() == s);
            assert(rest@ =~= live_all.skip(done + 1));
        }
        if !lists_id(&listed, s.id.as_str()) {
            listed.push(s);
        }
    }
    assert(live_all.take(live_all.len() as int) =~= live_all);
    let ghost joined = listed@;
    let mut sorted: Vec<Listed<T>> = Vec::new();
    let mut rest = listed;
    assert(joined.take(0) =~= Seq::<Listed<T>>::empty());
    assert(joined.skip(0) =~= joined);
    while rest.len() > 0
        invariant
            rest@.len() <= joined.len(),
            rest@ == joined.skip(joined.len() - rest@.len()),
            sorted@ == newest_first(joined.take(joined.len() - rest@.len())),
        decreases rest.len(),
    {
        let ghost done = joined.len() - rest@.len();
        let s = rest.remove(0);
        proof {
            assert(s == joined[done]);
            assert(joined.take(done + 1).drop_last() =~= joined.take(done));
            assert(joined.take(done + 1).last() == s);
            assert(rest@ =~= joined.skip(done + 1));
        }
        insert_newest(&mut sorted, s);
    }
    assert(joined.take(joined.len() as int) =~= joined);
    if sorted.len() > limit {
        sorted.truncate(limit);
    }
    sorted
}

} // verus!
