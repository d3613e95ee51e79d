//! Slash-command hints for interactive completion.
use vstd::prelude::*;

use crate::text::{ascii_lower, chars_of, lower_chars, starts_with, trim, trim_chars};

verus! {

/// A completion hint: a command and the message key of its description.
#[derive(Debug, Clone, Copy)]
pub struct SlashHint {
    pub command: &'static str,
    pub description_key: &'static str,
}

pub open spec fn hints_view(v: Seq<SlashHint>) -> Seq<(Seq<char>, Seq<char>)> {
    v.map_values(|h: SlashHint| (h.command@, h.description_key@))
}

/// Every hint, in the order they are offered.
pub open spec fn hint_table() -> Seq<(Seq<char>, Seq<char>)> {
    seq![
        ("/help"@, "slash_help_desc"@),
        ("/exit"@, "slash_exit_desc"@),
        ("/quit"@, "slash_quit_desc"@),
        ("/clear"@, "slash_clear_desc"@),
        ("/compact"@, "slash_compact_desc"@),
        ("/copy"@, "slash_copy_desc"@),
        ("/copy last"@, "slash_copy_last_desc"@),
        ("/model"@, "slash_model_desc"@),
        ("/provider"@, "slash_provider_desc"@),
        ("/session list"@, "slash_session_list_desc"@),
        ("/session new"@, "slash_session_new_desc"@),
        ("/session resume"@, "slash_session_resume_desc"@),
    ]
}

fn hint(command: &'static str, description_key: &'static str) -> (h: SlashHint)
    ensures
        h.command@ == command@,
        h.description_key@ == description_key@,
{
    SlashHint { command, description_key }
}

/// All slash-command hints.
pub fn slash_hints() -> (r: Vec<SlashHint>)
    ensures
        hints_view(r@) == hint_table(),
{
    let mut v: Vec<SlashHint> = Vec::new();
    v.push(hint("/help", "slash_help_desc"));
    v.push(hint("/exit", "slash_exit_desc"));
    v.push(hint("/quit", "slash_quit_desc"));
    v.push(hint("/clear", "slash_clear_desc"));
    v.push(hint("/compact", "slash_compact_desc"));
    v.push(hint("/copy", "slash_copy_desc"));
    v.push(hint("/copy last", "slash_copy_last_desc"));
    v.push(hint("/model", "slash_model_desc"));
    v.push(hint("/provider", "slash_provider_desc"));
    v.push(hint("/session list", "slash_session_list_desc"));
    v.push(hint("/session new", "slash_session_new_desc"));
    v.push(hint("/session resume", "slash_session_resume_desc"));
    assert(hints_view(v@) =~= hint_table());
    v
}

/// The hints whose command starts with `query`, in table order.
pub open spec fn prefixed(hints: Seq<(Seq<char>, Seq<char>)>, query: Seq<char>) -> Seq<
    (Seq<char>, Seq<char>),
>
    decreases hints.len(),
{
    if hints.len() == 0 {
        hints
    } else if starts_with(hints.last().0, query) {
        prefixed(hints.drop_last(), query).push(hints.last())
    } else {
        prefixed(hints.drop_last(), query)
    }
}

/// The hints offered for an input line: none unless the trimmed, lower-cased input
/// starts with `/`; all of them for `/` alone; otherwise those whose command starts
/// with it.
pub open spec fn filter_spec(input: Seq<char>) -> Seq<(Seq<char>, Seq<char>)> {
    let query = ascii_lower(trim(input));
    if !starts_with(query, seq!['/']) {
        Seq::empty()
    } else if query == seq!['/'] {
        hint_table()
    } else {
        prefixed(hint_table(), query)
    }
}

proof fn lemma_prefixed_is_filter(hints: Seq<(Seq<char>, Seq<char>)>, query: Seq<char>)
    ensures
        prefixed(hints, query) == hints.filter(|h: (Seq<char>, Seq<char>)| starts_with(h.0, query)),
    decreases hints.len(),
{
    reveal(Seq::filter);
    if hints.len() > 0 {
        lemma_prefixed_is_filter(hints.drop_last(), query);
    }
}

/// The hints offered for an input are the table's hints whose command starts with the
/// trimmed, lower-cased input, in table order, when that input starts with `/`, and none
/// otherwise; so inputs that agree once trimmed and lower-cased get the same hints.
pub proof fn lemma_slash_hints_are_prefix_matches(input: Seq<char>, other: Seq<char>)
    ensures
        filter_spec(input) == (if starts_with(ascii_lower(trim(input)), seq!['/']) {
            hint_table().filter(
                |h: (Seq<char>, Seq<char>)| starts_with(h.0, ascii_lower(trim(input))),
            )
        } else {
            Seq::empty()
        }),
        ascii_lower(trim(input)) == ascii_lower(trim(other)) ==> filter_spec(input) == filter_spec(
            other,
        ),
{
    let q = ascii_lower(trim(input));
    let f = |h: (Seq<char>, Seq<char>)| starts_with(h.0, q);
    lemma_prefixed_is_filter(hint_table(), q);
    if q == seq!['/'] {
        reveal_strlit("/help");
        reveal_strlit("/exit");
        reveal_strlit("/quit");
        reveal_strlit("/clear");
        reveal_strlit("/compact");
        reveal_strlit("/copy");
        reveal_strlit("/copy last");
        reveal_strlit("/model");
        reveal_strlit("/provider");
        reveal_strlit("/session list");
        reveal_strlit("/session new");
        reveal_strlit("/session resume");
        let t = hint_table();
        assert forall|i: int| 0 <= i < t.len() implies #[trigger] f(t[i]) by {
            assert(t[i].0.take(1) =~= seq!['/']);
        }
        lemma_filter_all(t, f);
    }
}

proof fn lemma_filter_all(
    hints: Seq<(Seq<char>, Seq<char>)>,
    f: spec_fn((Seq<char>, Seq<char>)) -> bool,
)
    requires
        forall|i: int| 0 <= i < hints.len() ==> #[trigger] f(hints[i]),
    ensures
        hints.filter(f) == hints,
    decreases hints.len(),
{
    reveal(Seq::filter);
    if hints.len() > 0 {
        let d = hints.drop_last();
        assert forall|i: int| 0 <= i < d.len() implies #[trigger] f(d[i]) by {
            assert(d[i] == hints[i]);
        }
        lemma_filter_all(d, f);
        assert(f(hints[hints.len() - 1]));
        assert(d.push(hints.last()) =~= hints);
    }
}

/// Slash commands matching the current input prefix.
pub fn filter_slash_hints(input: &str) -> (r: Vec<SlashHint>)
    ensures
        hints_view(r@) == filter_spec(input@),
{
    let query = lower_chars(&trim_chars(&chars_of(input)));
    let all = slash_hints();
    if query.len() == 0 || query[0] != '/' {
        proof {
            if starts_with(query@, seq!['/']) {
                assert(query@.take(1)[0] == '/');
            }
        }
        return Vec::new();
    }
    assert(starts_with(query@, seq!['/'])) by {
        assert(query@.take(1) =~= seq!['/']);
    }
    if query.len() == 1 {
        assert(query@ =~= seq!['/']);
        return all;
    }
    assert(query@ != seq!['/']);
    let mut out: Vec<SlashHint> = Vec::new();
    let mut i: usize = 0;
    while i < all.len()
        invariant
            0 <= i <= all.len(),
            hints_view(all@) == hint_table(),
            hints_view(out@) == prefixed(hints_view(all@).take(i as int), query@),
        decreases all.len() - i,
    {
        let h = all[i];
        let c = chars_of(h.command);
        proof {
            assert(hints_view(all@).take(i + 1).drop_last() =~= hints_view(all@).take(i as int));
            assert(hints_view(all@).take(i + 1).last() == (h.command@, h.description_key@));
        }
        if starts_with_chars(&c, &query) {
            out.push(h);
            assert(hints_view(out@) =~= prefixed(hints_view(all@).take(i as int), query@).push(
                (h.command@, h.description_key@),
            ));
        }
        i = i + 1;
    }
    assert(hints_view(all@).take(all.len() as int) =~= hints_view(all@));
    out
}

fn starts_with_chars(s: &Vec<char>, pat: &Vec<char>) -> (r: bool)
    ensures
        r == starts_with(s@, pat@),
{
    if pat.len() > s.len() {
        return false;
    }
    let mut k: usize = 0;
    while k < pat.len()
        invariant
            0 <= k <= pat.len(),
            pat.len() <= s.len(),
            forall|m: int| 0 <= m < k ==> s@[m] == pat@[m],
        decreases pat.len() - k,
    {
        if s[k] != pat[k] {
            assert(s@.take(pat.len() as int)[k as int] != pat@[k as int]);
            return false;
        }
        k = k + 1;
    }
    assert(s@.take(pat.len() as int) =~= pat@);
    true
}

} // verus!
