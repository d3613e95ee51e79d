//! Merging the skills found in several directories into one list: a later skill
//! replaces an earlier one of the same name, and the list is kept sorted by name.
use vstd::prelude::*;

use crate::skills::Skill;
use crate::text::chars_of;

verus! {

/// `a` sorts before `b`: code point by code point, a proper prefix first (`str::cmp`).
pub open spec fn name_lt(a: Seq<char>, b: Seq<char>) -> bool
    decreases a.len(),
{
    if a.len() == 0 {
        b.len() > 0
    } else if b.len() == 0 {
        false
    } else if a[0] != b[0] {
        a[0] < b[0]
    } else {
        name_lt(a.drop_first(), b.drop_first())
    }
}

proof fn lemma_name_lt_irreflexive(a: Seq<char>)
    ensures
        !name_lt(a, a),
    decreases a.len(),
{
    if a.len() > 0 {
        lemma_name_lt_irreflexive(a.drop_first());
    }
}

proof fn lemma_name_lt_asymmetric(a: Seq<char>, b: Seq<char>)
    requires
        name_lt(a, b),
    ensures
        !name_lt(b, a),
    decreases a.len(),
{
    if a.len() > 0 && b.len() > 0 && a[0] == b[0] {
        lemma_name_lt_asymmetric(a.drop_first(), b.drop_first());
    }
}

proof fn lemma_name_lt_total(a: Seq<char>, b: Seq<char>)
    requires
        a != b,
    ensures
        name_lt(a, b) || name_lt(b, a),
    decreases a.len(),
{
    if a.len() > 0 && b.len() > 0 && a[0] == b[0] {
        if a.drop_first() == b.drop_first() {
            assert(a =~= seq![a[0]] + a.drop_first());
            assert(b =~= seq![b[0]] + b.drop_first());
        }
        lemma_name_lt_total(a.drop_first(), b.drop_first());
    } else if a.len() == 0 && b.len() == 0 {
        assert(a =~= b);
    }
}

proof fn lemma_name_lt_transitive(a: Seq<char>, b: Seq<char>, c: Seq<char>)
    requires
        name_lt(a, b),
        name_lt(b, c),
    ensures
        name_lt(a, c),
    decreases a.len(),
{
    if a.len() > 0 && b.len() > 0 && c.len() > 0 && a[0] == b[0] && b[0] == c[0] {
        lemma_name_lt_transitive(a.drop_first(), b.drop_first(), c.drop_first());
    }
}

/// Does `a` sort before `b`?
fn name_less(a: &Vec<char>, b: &Vec<char>) -> (r: bool)
    ensures
        r == name_lt(a@, b@),
{
    let mut k: usize = 0;
    assert(a@.skip(0) =~= a@);
    assert(b@.skip(0) =~= b@);
    while k < a.len() && k < b.len() && a[k] == b[k]
        invariant
            0 <= k <= a.len(),
            k <= b.len(),
            name_lt(a@, b@) == name_lt(a@.skip(k as int), b@.skip(k as int)),
        decreases a.len() - k,
    {
        assert(a@.skip(k as int).drop_first() =~= a@.skip(k + 1));
        assert(b@.skip(k as int).drop_first() =~= b@.skip(k + 1));
        k = k + 1;
    }
    if k == a.len() {
        k < b.len()
    } else if k == b.len() {
        false
    } else {
        assert(a@.skip(k as int)[0] == a@[k as int]);
        assert(b@.skip(k as int)[0] == b@[k as int]);
        a[k] < b[k]
    }
}

/// Every name sorts strictly before the names after it.
pub open spec fn sorted_by_name(v: Seq<Skill>) -> bool {
    forall|i: int, j: int| 0 <= i < j < v.len() ==> name_lt(#[trigger] v[i].name@, #[trigger] v[j].name@)
}

/// Position of the first skill named `n`.
pub open spec fn name_pos(v: Seq<Skill>, n: Seq<char>) -> Option<int>
    decreases v.len(),
{
    if v.len() == 0 {
        None
    } else if v[0].name@ == n {
        Some(0)
    } else {
        match name_pos(v.drop_first(), n) {
            Some(p) => Some(p + 1),
            None => None,
        }
    }
}

/// The first skill named `n`.
pub open spec fn skill_named(v: Seq<Skill>, n: Seq<char>) -> Option<Skill>
    decreases v.len(),
{
    if v.len() == 0 {
        None
    } else if v[0].name@ == n {
        Some(v[0])
    } else {
        skill_named(v.drop_first(), n)
    }
}

/// Where a skill named `n` goes: before the first skill that does not sort before it.
pub open spec fn insert_pos(v: Seq<Skill>, n: Seq<char>) -> int
    decreases v.len(),
{
    if v.len() == 0 {
        0
    } else if !name_lt(v[0].name@, n) {
        0
    } else {
        insert_pos(v.drop_first(), n) + 1
    }
}

/// `v` with `s` merged in: it replaces the skill of the same name, or is inserted in
/// name order.
pub open spec fn insert_sorted(v: Seq<Skill>, s: Skill) -> Seq<Skill> {
    match name_pos(v, s.name@) {
        Some(p) => v.update(p, s),
        None => v.insert(insert_pos(v, s.name@), s),
    }
}

/// The skills `found`, merged one after another into an empty list.
pub open spec fn merge_all(found: Seq<Skill>) -> Seq<Skill>
    decreases found.len(),
{
    if found.len() == 0 {
        Seq::empty()
    } else {
        insert_sorted(merge_all(found.drop_last()), found.last())
    }
}

/// The last skill named `n` in `found`.
pub open spec fn last_named(found: Seq<Skill>, n: Seq<char>) -> Option<Skill>
    decreases found.len(),
{
    if found.len() == 0 {
        None
    } else if found.last().name@ == n {
        Some(found.last())
    } else {
        last_named(found.drop_last(), n)
    }
}

proof fn lemma_name_pos_bounds(v: Seq<Skill>, n: Seq<char>)
    ensures
        name_pos(v, n) matches Some(p) ==> 0 <= p < v.len() && v[p].name@ == n && forall|k: int|
            0 <= k < p ==> (#[trigger] v[k]).name@ != n,
        name_pos(v, n) is None ==> forall|k: int| 0 <= k < v.len() ==> (#[trigger] v[k]).name@
            != n,
        name_pos(v, n) matches Some(p) ==> skill_named(v, n) == Some(v[p]),
        name_pos(v, n) is None ==> skill_named(v, n) is None,
    decreases v.len(),
{
    if v.len() > 0 && v[0].name@ != n {
        lemma_name_pos_bounds(v.drop_first(), n);
        assert forall|k: int| 1 <= k < v.len() implies v[k] == v.drop_first()[k - 1] by {}
    }
}

proof fn lemma_insert_pos_bounds(v: Seq<Skill>, n: Seq<char>)
    ensures
        0 <= insert_pos(v, n) <= v.len(),
        forall|k: int| 0 <= k < insert_pos(v, n) ==> name_lt((#[trigger] v[k]).name@, n),
        insert_pos(v, n) < v.len() ==> !name_lt(v[insert_pos(v, n)].name@, n),
    decreases v.len(),
{
    if v.len() > 0 && name_lt(v[0].name@, n) {
        lemma_insert_pos_bounds(v.drop_first(), n);
        assert forall|k: int| 1 <= k < v.len() implies v[k] == v.drop_first()[k - 1] by {}
    }
}

/// A merged skill is the one found under its name afterwards; other names keep theirs.
proof fn lemma_skill_named_after_update(v: Seq<Skill>, p: int, s: Skill, n: Seq<char>)
    requires
        name_pos(v, s.name@) == Some(p),
    ensures
        skill_named(v.update(p, s), n) == (if s.name@ == n {
            Some(s)
        } else {
            skill_named(v, n)
        }),
    decreases v.len(),
{
    lemma_name_pos_bounds(v, s.name@);
    if p > 0 {
        lemma_name_pos_bounds(v.drop_first(), s.name@);
        assert(v.update(p, s).drop_first() =~= v.drop_first().update(p - 1, s));
        lemma_skill_named_after_update(v.drop_first(), p - 1, s, n);
    } else {
        assert(v.update(p, s).drop_first() =~= v.drop_first());
    }
}

proof fn lemma_skill_named_after_insert(v: Seq<Skill>, q: int, s: Skill, n: Seq<char>)
    requires
        name_pos(v, s.name@) is None,
        0 <= q <= v.len(),
    ensures
        skill_named(v.insert(q, s), n) == (if s.name@ == n {
            Some(s)
        } else {
            skill_named(v, n)
        }),
    decreases v.len(),
{
    lemma_name_pos_bounds(v, s.name@);
    if q == 0 {
        assert(v.insert(q, s).drop_first() =~= v);
        if s.name@ == n {
            lemma_name_pos_bounds(v, n);
        }
    } else {
        assert(v.insert(q, s).drop_first() =~= v.drop_first().insert(q - 1, s));
        lemma_name_pos_bounds(v.drop_first(), s.name@);
        lemma_skill_named_after_insert(v.drop_first(), q - 1, s, n);
    }
}

proof fn lemma_skill_named_after_merge(v: Seq<Skill>, s: Skill, n: Seq<char>)
    ensures
        skill_named(insert_sorted(v, s), n) == (if s.name@ == n {
            Some(s)
        } else {
            skill_named(v, n)
        }),
{
    match name_pos(v, s.name@) {
        Some(p) => lemma_skill_named_after_update(v, p, s, n),
        None => {
            lemma_insert_pos_bounds(v, s.name@);
            lemma_skill_named_after_insert(v, insert_pos(v, s.name@), s, n);
        },
    }
}

/// Later sources override earlier ones: after merging the skills found, in search
/// order, the skill listed under a name is the last one found with that name, and a
/// name is listed exactly when some skill found has it.
pub proof fn lemma_merge_keeps_last(found: Seq<Skill>, n: Seq<char>)
    ensures
        skill_named(merge_all(found), n) == last_named(found, n),
    decreases found.len(),
{
    if found.len() > 0 {
        lemma_merge_keeps_last(found.drop_last(), n);
        lemma_skill_named_after_merge(merge_all(found.drop_last()), found.last(), n);
    }
}

proof fn lemma_insert_sorted_sorted(v: Seq<Skill>, s: Skill)
    requires
        sorted_by_name(v),
    ensures
        sorted_by_name(insert_sorted(v, s)),
{
    lemma_name_pos_bounds(v, s.name@);
    match name_pos(v, s.name@) {
        Some(p) => {
            let w = v.update(p, s);
            assert forall|i: int, j: int| 0 <= i < j < w.len() implies name_lt(
                #[trigger] w[i].name@,
                #[trigger] w[j].name@,
            ) by {
                assert(v[i].name@ == w[i].name@ || i == p);
                assert(v[j].name@ == w[j].name@ || j == p);
                if i == p {
                    assert(w[i].name@ == v[p].name@);
                }
                if j == p {
                    assert(w[j].name@ == v[p].name@);
                }
                assert(name_lt(v[i].name@, v[j].name@));
            }
        },
        None => {
            lemma_insert_pos_bounds(v, s.name@);
            let q = insert_pos(v, s.name@);
            let w = v.insert(q, s);
            let n = s.name@;
            if q < v.len() {
                lemma_name_lt_total(v[q].name@, n);
            }
            assert forall|k: int| q <= k < v.len() implies name_lt(n, #[trigger] v[k].name@) by {
                if k > q {
                    lemma_name_lt_transitive(n, v[q].name@, v[k].name@);
                }
            }
            assert forall|i: int, j: int| 0 <= i < j < w.len() implies name_lt(
                #[trigger] w[i].name@,
                #[trigger] w[j].name@,
            ) by {
                if i < q && j < q {
                    assert(w[i] == v[i] && w[j] == v[j]);
                } else if i < q && j == q {
                    assert(w[i] == v[i] && w[j] == s);
                } else if i < q {
                    assert(w[i] == v[i] && w[j] == v[j - 1]);
                    lemma_name_lt_transitive(v[i].name@, n, v[j - 1].name@);
                } else if i == q {
                    assert(w[i] == s && w[j] == v[j - 1]);
                } else {
                    assert(w[i] == v[i - 1] && w[j] == v[j - 1]);
                }
            }
        },
    }
}

/// A merged list is sorted by name, so no name occurs twice.
pub proof fn lemma_merge_sorted(found: Seq<Skill>)
    ensures
        sorted_by_name(merge_all(found)),
    decreases found.len(),
{
    if found.len() > 0 {
        lemma_merge_sorted(found.drop_last());
        lemma_insert_sorted_sorted(merge_all(found.drop_last()), found.last());
    }
}

/// Merges `skill` into a list sorted by name: it replaces the skill of the same name,
/// or is inserted in name order.
pub fn merge_skill(skills: &mut Vec<Skill>, skill: Skill)
    requires
        sorted_by_name(old(skills)@),
    ensures
        final(skills)@ == insert_sorted(old(skills)@, skill),
        sorted_by_name(final(skills)@),
{
    proof {
        lemma_insert_sorted_sorted(skills@, skill);
        lemma_name_pos_bounds(skills@, skill.name@);
        lemma_insert_pos_bounds(skills@, skill.name@);
    }
    let n = chars_of(skill.name.as_str());
    let mut i: usize = 0;
    while i < skills.len()
        invariant
            0 <= i <= skills.len(),
            skills@ == old(skills)@,
            sorted_by_name(insert_sorted(old(skills)@, skill)),
            n@ == skill.name@,
            forall|k: int| 0 <= k < i ==> (#[trigger] skills@[k]).name@ != n@,
        decreases skills.len() - i,
    {
        let c = chars_of(skills[i].name.as_str());
        if crate::text::eq_chars(&c, &n) {
            proof {
                lemma_name_pos_bounds(skills@, n@);
                assert(skills@[i as int].name@ == n@);
                assert(name_pos(skills@, n@) == Some(i as int)) by {
                    if name_pos(skills@, n@) is None {
                        assert(skills@[i as int].name@ != n@);
                    } else {
                        let p = name_pos(skills@, n@)->0;
                        if p < i {
                            assert(skills@[p].name@ != n@);
                        } else if p > i {
                            assert(skills@[i as int].name@ != n@);
                        }
                    }
                }
            }
            skills.set(i, skill);
            return;
        }
        i = i + 1;
    }
    let mut q: usize = 0;
    while q < skills.len() && name_less(&chars_of(skills[q].name.as_str()), &n)
        invariant
            0 <= q <= skills.len(),
            skills@ == old(skills)@,
            n@ == skill.name@,
            forall|k: int| 0 <= k < q ==> name_lt((#[trigger] skills@[k]).name@, n@),
        decreases skills.len() - q,
    {
        q = q + 1;
    }
    proof {
        lemma_insert_pos_bounds(skills@, n@);
        lemma_name_pos_bounds(skills@, n@);
        let ip = insert_pos(skills@, n@);
        if ip < q {
            assert(name_lt(skills@[ip].name@, n@));
        }
        if q < ip {
            assert(name_lt(skills@[q as int].name@, n@));
        }
        assert(q == ip);
        if name_pos(skills@, n@) is Some {
            let p = name_pos(skills@, n@)->0;
            assert(skills@[p].name@ == n@);
        }
    }
    skills.insert(q, skill);
}

/// Merges the skills found, in search order (`~/.cursor/skills`,
/// `~/.config/codei/skills`, `{project}/.cursor/skills`, `{project}/.codei/skills`,
/// each directory's skills in the order they were read), into one list sorted by
/// name in which a later skill replaces an earlier one of the same name.
pub fn merge_skills(found: Vec<Skill>) -> (r: Vec<Skill>)
    ensures
        r@ == merge_all(found@),
        sorted_by_name(r@),
{
    let ghost all = found@;
    let mut rest = found;
    let mut out: Vec<Skill> = Vec::new();
    assert(all.take(0) =~= Seq::<Skill>::empty());
    assert(all.skip(0) =~= all);
    while rest.len() > 0
        invariant
            rest@.len() <= all.len(),
            rest@ == all.skip(all.len() - rest@.len()),
            out@ == merge_all(all.take(all.len() - rest@.len())),
            sorted_by_name(out@),
        decreases rest.len(),
    {
        let ghost done = all.len() - rest@.len();
        let s = rest.remove(0);
        proof {
            assert(s == all[done]);
            assert(all.take(done + 1).drop_last() =~= all.take(done));
            assert(all.take(done + 1).last() == s);
            assert(rest@ =~= all.skip(done + 1));
        }
        merge_skill(&mut out, s);
    }
    assert(all.take(all.len() as int) =~= all);
    out
}

} // verus!
