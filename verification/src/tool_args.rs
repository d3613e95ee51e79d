//! Recovery of a file path that a model named in its text but left out of a tool call.
use vstd::prelude::*;

use crate::json::{has_string_member, is_json, json_string_member, json_valid};
use crate::llm::{copy_string, opt_view};
use crate::text::{append_str, chars_of, eq_str, is_ascii_alnum, is_ascii_alphanumeric, is_whitespace, is_ws, slice_chars, string_from};

verus! {

/// File extensions that mark a word as a path, in the order they are tried.
pub open spec fn file_extensions() -> Seq<Seq<char>> {
    seq![
        "md"@, "rs"@, "toml"@, "json"@, "txt"@, "yml"@, "yaml"@, "js"@, "ts"@, "tsx"@, "py"@,
        "go"@, "java"@, "c"@, "cpp"@, "h"@, "css"@, "html"@, "sh"@, "xml"@, "sql"@,
    ]
}

fn file_extensions_exec() -> (r: Vec<&'static str>)
    ensures
        r@.map_values(|s: &str| s@) == file_extensions(),
{
    let r: Vec<&'static str> = vec![
        "md", "rs", "toml", "json", "txt", "yml", "yaml", "js", "ts", "tsx", "py", "go", "java",
        "c", "cpp", "h", "css", "html", "sh", "xml", "sql",
    ];
    assert(r@.map_values(|s: &str| s@) =~= file_extensions());
    r
}

/// Characters kept at the ends of a path token.
pub open spec fn path_char(c: char) -> bool {
    is_ascii_alnum(c) || c == '.' || c == '/' || c == '_' || c == '-'
}

pub open spec fn trim_token_start(s: Seq<char>) -> Seq<char>
    decreases s.len(),
{
    if s.len() > 0 && !path_char(s[0]) {
        trim_token_start(s.drop_first())
    } else {
        s
    }
}

pub open spec fn trim_token_end(s: Seq<char>) -> Seq<char>
    decreases s.len(),
{
    if s.len() > 0 && !path_char(s.last()) {
        trim_token_end(s.drop_last())
    } else {
        s
    }
}

/// A token with every leading and trailing character that cannot end a path removed.
pub open spec fn trim_path_token_spec(s: Seq<char>) -> Seq<char> {
    trim_token_end(trim_token_start(s))
}

pub open spec fn occurs_at(s: Seq<char>, pat: Seq<char>, i: int) -> bool {
    0 <= i && i + pat.len() <= s.len() && s.subrange(i, i + pat.len()) == pat
}

pub open spec fn contains_pat(s: Seq<char>, pat: Seq<char>) -> bool {
    exists|i: int| occurs_at(s, pat, i)
}

/// Number of bytes of the UTF-8 encoding of `c`.
pub open spec fn utf8_width(c: char) -> nat {
    let u = c as u32;
    if u < 0x80 { 1 } else if u < 0x800 { 2 } else if u < 0x10000 { 3 } else { 4 }
}

/// Number of bytes of the UTF-8 encoding of `s` (`str::len`).
pub open spec fn utf8_len(s: Seq<char>) -> nat
    decreases s.len(),
{
    if s.len() == 0 {
        0
    } else {
        utf8_len(s.drop_last()) + utf8_width(s.last())
    }
}

fn utf8_width_exec(c: char) -> (r: u64)
    ensures
        r == utf8_width(c),
{
    let u = c as u32;
    if u < 0x80 { 1 } else if u < 0x800 { 2 } else if u < 0x10000 { 3 } else { 4 }
}

/// Is the UTF-8 encoding of `p` at most `max` bytes long?
fn utf8_len_at_most(p: &Vec<char>, max: u64) -> (r: bool)
    requires
        max <= 1_000_000,
    ensures
        r == (utf8_len(p@) <= max),
{
    let mut total: u64 = 0;
    let mut i: usize = 0;
    assert(p@.take(0) =~= Seq::<char>::empty());
    while i < p.len()
        invariant
            0 <= i <= p.len(),
            max <= 1_000_000,
            total == utf8_len(p@.take(i as int)),
            total <= max,
        decreases p.len() - i,
    {
        assert(p@.take(i + 1).drop_last() =~= p@.take(i as int));
        total = total + utf8_width_exec(p[i]);
        if total > max {
            proof {
                lemma_utf8_len_prefix(p@, i + 1);
            }
            return false;
        }
        i = i + 1;
    }
    assert(p@.take(p.len() as int) =~= p@);
    true
}

proof fn lemma_utf8_len_prefix(s: Seq<char>, k: int)
    requires
        0 <= k <= s.len(),
    ensures
        utf8_len(s.take(k)) <= utf8_len(s),
    decreases s.len() - k,
{
    if k < s.len() {
        lemma_utf8_len_prefix(s.drop_last(), k);
        assert(s.drop_last().take(k) =~= s.take(k));
    } else {
        assert(s.take(k) =~= s);
    }
}

/// Looks like a file path: not empty, at most 512 bytes of UTF-8, has a `.`, is not a
/// URL and does not climb with `..`.
pub open spec fn plausible_path(p: Seq<char>) -> bool {
    &&& p.len() > 0
    &&& utf8_len(p) <= 512
    &&& p.contains('.')
    &&& !(p.len() >= 4 && p.take(4) == "http"@)
    &&& !contains_pat(p, ".."@)
}

/// First occurrence of `pat` at or after `from`.
pub open spec fn first_occurrence(s: Seq<char>, pat: Seq<char>, from: int) -> Option<int>
    decreases s.len() - from,
{
    if from < 0 || from + pat.len() > s.len() {
        None
    } else if pat.len() == 0 || occurs_at(s, pat, from) {
        Some(from)
    } else {
        first_occurrence(s, pat, from + 1)
    }
}

/// A delimiter that ends the word a path is read from.
pub open spec fn delimiter(c: char) -> bool {
    is_ws(c) || c == '`' || c == '"' || c == '\''
}

/// Position just after the last delimiter before `end` (0 if there is none).
pub open spec fn token_start(s: Seq<char>, end: int) -> int
    decreases end,
{
    if end <= 0 {
        0
    } else if delimiter(s[end - 1]) {
        end
    } else {
        token_start(s, end - 1)
    }
}

/// The end of the word continuing at `from`: the first position at or after it that
/// holds no ASCII letter or digit (or the end of the text), so that a matched
/// extension is never cut short (`.ts` found in `app.tsx` reads on to `app.tsx`).
pub open spec fn word_end(s: Seq<char>, from: int) -> int
    decreases s.len() - from,
{
    if from < 0 || from >= s.len() {
        from
    } else if is_ascii_alnum(s[from]) {
        word_end(s, from + 1)
    } else {
        from
    }
}

/// The whole path token around the occurrence of `.{ext}` at `dot`.
pub open spec fn candidate_at(s: Seq<char>, dot: int, needle_len: int) -> Seq<char> {
    trim_path_token_spec(s.subrange(token_start(s, dot), word_end(s, dot + needle_len)))
}

/// The first plausible path read around an occurrence of `needle` at or after `from`.
pub open spec fn scan_needle(s: Seq<char>, needle: Seq<char>, from: int) -> Option<Seq<char>>
    decreases s.len() - from,
{
    if needle.len() == 0 {
        None
    } else {
        match first_occurrence(s, needle, from) {
            None => None,
            Some(dot) => {
                proof {
                    lemma_first_occurrence_bounds(s, needle, from);
                }
                let p = candidate_at(s, dot, needle.len() as int);
                if plausible_path(p) {
                    Some(p)
                } else {
                    scan_needle(s, needle, dot + needle.len())
                }
            },
        }
    }
}

pub proof fn lemma_first_occurrence_bounds(s: Seq<char>, pat: Seq<char>, from: int)
    requires
        pat.len() > 0,
        from >= 0,
    ensures
        first_occurrence(s, pat, from) matches Some(i) ==> from <= i && occurs_at(s, pat, i),
        first_occurrence(s, pat, from) matches Some(i) ==> forall|j: int| from <= j < i ==> !#[trigger] occurs_at(s, pat, j),
        first_occurrence(s, pat, from) is None ==> forall|j: int| from <= j ==> !#[trigger] occurs_at(s, pat, j),
    decreases s.len() - from,
{
    if !(from < 0 || from + pat.len() > s.len()) && !occurs_at(s, pat, from) {
        lemma_first_occurrence_bounds(s, pat, from + 1);
    }
    if from >= 0 && from + pat.len() > s.len() {
        assert forall|j: int| from <= j implies !#[trigger] occurs_at(s, pat, j) by {}
    }
}

/// The first extension (in list order) that yields a plausible path.
pub open spec fn scan_extensions(s: Seq<char>, exts: Seq<Seq<char>>) -> Option<Seq<char>>
    decreases exts.len(),
{
    if exts.len() == 0 {
        None
    } else {
        match scan_needle(s, seq!['.'] + exts[0], 0) {
            Some(p) => Some(p),
            None => scan_extensions(s, exts.drop_first()),
        }
    }
}

/// The path between the first two backticks, if it is plausible.
pub open spec fn backtick_path(s: Seq<char>) -> Option<Seq<char>> {
    match first_occurrence(s, seq!['`'], 0) {
        None => None,
        Some(a) => match first_occurrence(s, seq!['`'], a + 1) {
            None => None,
            Some(b) => {
                let p = trim_path_token_spec(s.subrange(a + 1, b));
                if plausible_path(p) {
                    Some(p)
                } else {
                    None
                }
            },
        },
    }
}

/// A path named in text: quoted in backticks, or else the first whole path token with
/// a known extension.
pub open spec fn extract_path_spec(s: Seq<char>) -> Option<Seq<char>> {
    match backtick_path(s) {
        Some(p) => Some(p),
        None => scan_extensions(s, file_extensions()),
    }
}

proof fn lemma_trim_token_start_at(s: Seq<char>, i: int)
    requires
        0 <= i <= s.len(),
        forall|k: int| 0 <= k < i ==> !path_char(#[trigger] s[k]),
        i < s.len() ==> path_char(s[i]),
    ensures
        trim_token_start(s) == s.skip(i),
    decreases i,
{
    if i == 0 {
        assert(s.skip(0) =~= s);
    } else {
        lemma_trim_token_start_at(s.drop_first(), i - 1);
        assert(s.drop_first().skip(i - 1) =~= s.skip(i));
    }
}

proof fn lemma_trim_token_end_at(s: Seq<char>, j: int)
    requires
        0 <= j <= s.len(),
        forall|k: int| j <= k < s.len() ==> !path_char(#[trigger] s[k]),
        j > 0 ==> path_char(s[j - 1]),
    ensures
        trim_token_end(s) == s.take(j),
    decreases s.len() - j,
{
    if j == s.len() {
        assert(s.take(j) =~= s);
    } else {
        lemma_trim_token_end_at(s.drop_last(), j);
        assert(s.drop_last().take(j) =~= s.take(j));
    }
}

fn is_path_char(c: char) -> (r: bool)
    ensures
        r == path_char(c),
{
    is_ascii_alphanumeric(c) || c == '.' || c == '/' || c == '_' || c == '-'
}

/// `raw` without leading and trailing characters that cannot be part of a path.
pub fn trim_path_token(raw: &Vec<char>) -> (r: Vec<char>)
    ensures
        r@ == trim_path_token_spec(raw@),
{
    let n = raw.len();
    let mut i: usize = 0;
    while i < n && !is_path_char(raw[i])
        invariant
            0 <= i <= n,
            n == raw.len(),
            forall|k: int| 0 <= k < i ==> !path_char(#[trigger] raw@[k]),
        decreases n - i,
    {
        i = i + 1;
    }
    proof {
        lemma_trim_token_start_at(raw@, i as int);
    }
    let mut j: usize = n;
    while j > i && !is_path_char(raw[j - 1])
        invariant
            i <= j <= n,
            n == raw.len(),
            forall|k: int| j <= k < n ==> !path_char(#[trigger] raw@[k]),
        decreases j,
    {
        j = j - 1;
    }
    proof {
        let t = raw@.skip(i as int);
        assert forall|k: int| (j - i) <= k < t.len() implies !path_char(#[trigger] t[k]) by {
            assert(t[k] == raw@[k + i]);
        }
        if j > i {
            assert(t[j - i - 1] == raw@[j - 1]);
        }
        lemma_trim_token_end_at(t, j - i);
        assert(t.take(j - i) =~= raw@.subrange(i as int, j as int));
    }
    slice_chars(raw, i, j)
}

fn occurs_exec(s: &Vec<char>, pat: &Vec<char>, i: usize) -> (r: bool)
    requires
        i <= s.len(),
    ensures
        r == occurs_at(s@, pat@, i as int),
{
    if pat.len() > s.len() - i {
        return false;
    }
    let mut k: usize = 0;
    while k < pat.len()
        invariant
            0 <= k <= pat.len(),
            i + pat.len() <= s.len(),
            forall|m: int| 0 <= m < k ==> s@[i + m] == pat@[m],
        decreases pat.len() - k,
    {
        if s[i + k] != pat[k] {
            assert(s@.subrange(i as int, i + pat.len())[k as int] != pat@[k as int]);
            return false;
        }
        k = k + 1;
    }
    assert(s@.subrange(i as int, i + pat.len()) =~= pat@);
    true
}

/// First occurrence of `pat` at or after `from`.
pub(crate) fn find_from(s: &Vec<char>, pat: &Vec<char>, from: usize) -> (r: Option<usize>)
    requires
        from <= s.len(),
        pat.len() > 0,
    ensures
        opt_int(r) == first_occurrence(s@, pat@, from as int),
{
    let mut i = from;
    while i < s.len() && pat.len() <= s.len() - i
        invariant
            from <= i <= s.len(),
            pat.len() > 0,
            first_occurrence(s@, pat@, from as int) == first_occurrence(s@, pat@, i as int),
        decreases s.len() - i,
    {
        if occurs_exec(s, pat, i) {
            return Some(i);
        }
        i = i + 1;
    }
    None
}

pub open spec fn opt_int(o: Option<usize>) -> Option<int> {
    match o {
        Some(v) => Some(v as int),
        None => None,
    }
}

fn is_delimiter(c: char) -> (r: bool)
    ensures
        r == delimiter(c),
{
    is_whitespace(c) || c == '`' || c == '"' || c == '\''
}

fn token_start_exec(s: &Vec<char>, end: usize) -> (r: usize)
    requires
        end <= s.len(),
    ensures
        r as int == token_start(s@, end as int),
        r <= end,
{
    let mut k = end;
    while k > 0 && !is_delimiter(s[k - 1])
        invariant
            k <= end <= s.len(),
            token_start(s@, end as int) == token_start(s@, k as int),
        decreases k,
    {
        k = k - 1;
    }
    k
}

fn word_end_exec(s: &Vec<char>, from: usize) -> (r: usize)
    requires
        from <= s.len(),
    ensures
        r as int == word_end(s@, from as int),
        from <= r <= s.len(),
{
    let mut k = from;
    while k < s.len() && is_ascii_alphanumeric(s[k])
        invariant
            from <= k <= s.len(),
            word_end(s@, from as int) == word_end(s@, k as int),
        decreases s.len() - k,
    {
        k = k + 1;
    }
    k
}

fn contains_double_dot(p: &Vec<char>) -> (r: bool)
    ensures
        r == contains_pat(p@, ".."@),
{
    let dd: Vec<char> = vec!['.', '.'];
    proof {
        reveal_strlit("..");
    }
    assert(dd@ =~= ".."@);
    let f = find_from(p, &dd, 0);
    proof {
        lemma_first_occurrence_bounds(p@, dd@, 0);
    }
    f.is_some()
}

/// Does the path look plausible?
pub fn is_plausible_file_path(path: &Vec<char>) -> (r: bool)
    ensures
        r == plausible_path(path@),
{
    if path.len() == 0 {
        return false;
    }
    if !utf8_len_at_most(path, 512) {
        return false;
    }
    let mut has_dot = false;
    let mut i: usize = 0;
    while i < path.len()
        invariant
            0 <= i <= path.len(),
            has_dot == (exists|k: int| 0 <= k < i && path@[k] == '.'),
        decreases path.len() - i,
    {
        if path[i] == '.' {
            has_dot = true;
        }
        i = i + 1;
    }
    if !has_dot {
        assert(!path@.contains('.'));
        return false;
    }
    assert(path@.contains('.'));

    if path.len() >= 4 {
        let head = slice_chars(path, 0, 4);
        assert(head@ =~= path@.take(4));
        if eq_str(&head, "http") {
            return false;
        }
    }
    let r = !contains_double_dot(path);
    assert(r == plausible_path(path@));
    r
}

fn scan_needle_exec(s: &Vec<char>, needle: &Vec<char>) -> (r: Option<Vec<char>>)
    requires
        needle.len() > 0,
    ensures
        match r {
            Some(p) => scan_needle(s@, needle@, 0) == Some(p@),
            None => scan_needle(s@, needle@, 0) is None,
        },
{
    let mut from: usize = 0;
    while from <= s.len()
        invariant
            from <= s.len() + 1,
            needle.len() > 0,
            scan_needle(s@, needle@, 0) == scan_needle(s@, needle@, from as int),
        decreases s.len() + 1 - from,
    {
        let found = find_from(s, needle, from);
        proof {
            lemma_first_occurrence_bounds(s@, needle@, from as int);
        }
        match found {
            None => {
                return None;
            },
            Some(dot) => {
                let end = dot + needle.len();
                let start = token_start_exec(s, dot);
                let stop = word_end_exec(s, end);
                let raw = slice_chars(s, start, stop);
                let p = trim_path_token(&raw);
                if is_plausible_file_path(&p) {
                    return Some(p);
                }
                from = end;
            },
        }
    }
    proof {
        assert(first_occurrence(s@, needle@, from as int) is None);
    }
    None
}

/// The path named in `text`, if any.
pub fn extract_file_path_from_text(text: &str) -> (r: Option<String>)
    ensures
        opt_view(r) == extract_path_spec(text@),
{
    let s = chars_of(text);
    if let Some(p) = extract_backtick_path(&s) {
        return Some(string_from(p.as_slice()));
    }
    let exts = file_extensions_exec();
    let ghost ev = exts@.map_values(|e: &str| e@);
    let mut i: usize = 0;
    assert(ev.skip(0) =~= ev);
    while i < exts.len()
        invariant
            0 <= i <= exts.len(),
            ev == exts@.map_values(|e: &str| e@),
            ev == file_extensions(),
            s@ == text@,
            backtick_path(s@) is None,
            extract_path_spec(s@) == scan_extensions(s@, ev.skip(i as int)),
        decreases exts.len() - i,
    {
        let mut needle: Vec<char> = vec!['.'];
        let ghost dot = needle@;
        assert(dot =~= seq!['.']);
        append_str(&mut needle, exts[i]);
        assert(ev.skip(i as int)[0] == exts@[i as int]@);
        assert(ev.skip(i as int).drop_first() =~= ev.skip(i + 1));
        assert(needle@ == seq!['.'] + ev.skip(i as int)[0]);
        assert(ev.skip(i as int).len() > 0);
        assert(scan_extensions(s@, ev.skip(i as int)) == match scan_needle(s@, needle@, 0) {
            Some(p) => Some(p),
            None => scan_extensions(s@, ev.skip(i + 1)),
        });
        if let Some(p) = scan_needle_exec(&s, &needle) {
            return Some(string_from(p.as_slice()));
        }
        i = i + 1;
    }
    assert(ev.skip(exts.len() as int) =~= Seq::<Seq<char>>::empty());
    None
}

/// The plausible path between the first two backticks.
pub fn extract_backtick_path(s: &Vec<char>) -> (r: Option<Vec<char>>)
    ensures
        match r {
            Some(p) => backtick_path(s@) == Some(p@),
            None => backtick_path(s@) is None,
        },
{
    let tick: Vec<char> = vec!['`'];
    assert(tick@ =~= seq!['`']);
    let a = match find_from(s, &tick, 0) {
        Some(a) => a,
        None => {
            return None;
        },
    };
    proof {
        lemma_first_occurrence_bounds(s@, tick@, 0);
    }
    assert(a < s.len());
    let b = match find_from(s, &tick, a + 1) {
        Some(b) => b,
        None => {
            return None;
        },
    };
    proof {
        lemma_first_occurrence_bounds(s@, tick@, a + 1);
    }
    let raw = slice_chars(s, a + 1, b);
    let p = trim_path_token(&raw);
    if is_plausible_file_path(&p) {
        Some(p)
    } else {
        None
    }
}

/// Tools that take a `path` argument the model sometimes forgets.
pub open spec fn takes_path(tool_name: Seq<char>) -> bool {
    tool_name == "read"@ || tool_name == "write"@ || tool_name == "edit"@
}

/// The path recovered for a call of `tool_name`: for `read`, `write` and `edit` calls
/// whose arguments have no string `path`, the path named in the assistant's text.
pub open spec fn repaired_path(tool_name: Seq<char>, content: Seq<char>, has_path: bool) -> Option<
    Seq<char>,
> {
    if takes_path(tool_name) && !has_path {
        extract_path_spec(content)
    } else {
        None
    }
}

/// For `read`, `write` and `edit` calls without a string `path` argument, the path named
/// in the assistant's text. `Some(path)` means the arguments become `{"path": path}`;
/// `None` means they stay as they are.
pub fn repair_tool_args(tool_name: &str, assistant_content: &str, has_path: bool) -> (r: Option<String>)
    ensures
        opt_view(r) == repaired_path(tool_name@, assistant_content@, has_path),
{
    let name = chars_of(tool_name);
    if (eq_str(&name, "read") || eq_str(&name, "write") || eq_str(&name, "edit")) && !has_path {
        extract_file_path_from_text(assistant_content)
    } else {
        None
    }
}

/// The arguments a tool call is run with.
#[derive(Debug, Clone, PartialEq, Eq)]
pub enum CallArgs {
    /// The argument text as it came, which is JSON.
    Json(String),
    /// The argument text, which is not JSON, kept under the member `raw`: `{"raw": text}`.
    Raw(String),
    /// A path recovered from the assistant's text: `{"path": path}`.
    Path(String),
}

/// `r` is what a call of `tool_name` with argument text `arguments` runs with, given
/// whether that text is JSON and whether it has a string `path`: a recovered path
/// replaces the arguments; otherwise JSON is kept and anything else is wrapped.
pub open spec fn call_args_are(
    r: CallArgs,
    tool_name: Seq<char>,
    arguments: Seq<char>,
    content: Seq<char>,
    is_json: bool,
    has_path: bool,
) -> bool {
    match repaired_path(tool_name, content, has_path) {
        Some(p) => r matches CallArgs::Path(q) && q@ == p,
        None => if is_json {
            r matches CallArgs::Json(t) && t@ == arguments
        } else {
            r matches CallArgs::Raw(t) && t@ == arguments
        },
    }
}

/// The arguments of a tool call, given whether its argument text is JSON and whether
/// that JSON has a string `path`.
pub fn call_args_from(
    tool_name: &str,
    arguments: &str,
    assistant_content: &str,
    is_json: bool,
    has_path: bool,
) -> (r: CallArgs)
    ensures
        call_args_are(r, tool_name@, arguments@, assistant_content@, is_json, has_path),
{
    match repair_tool_args(tool_name, assistant_content, has_path) {
        Some(p) => CallArgs::Path(p),
        None => if is_json {
            CallArgs::Json(copy_string(arguments))
        } else {
            CallArgs::Raw(copy_string(arguments))
        },
    }
}

/// The arguments a tool call named `tool_name` runs with, from the argument text the
/// model sent and the assistant's text around the call.
pub fn tool_call_args(tool_name: &str, arguments: &str, assistant_content: &str) -> (r: CallArgs)
    ensures
        call_args_are(
            r,
            tool_name@,
            arguments@,
            assistant_content@,
            json_valid(arguments@),
            json_string_member(arguments@, "path"@),
        ),
{
    let is_json = is_json(arguments);
    let has_path = has_string_member(arguments, "path");
    call_args_from(tool_name, arguments, assistant_content, is_json, has_path)
}

} // verus!
