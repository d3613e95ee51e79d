//! Skills: `SKILL.md` instruction files, their front matter, the prompt index and
//! lookup by name.
use vstd::prelude::*;

use crate::tool_args::{find_from, first_occurrence, lemma_first_occurrence_bounds};
use crate::text::{
    append_chars, append_str, ascii_lower, chars_of, eq_chars, eq_ignore_ascii_case, eq_ignore_case,
    join, join_from, lines, lower_chars, slice_chars, split_lines, starts_with, starts_with_str,
    string_from, trim, trim_char, trim_char_chars, trim_chars, views,
};

verus! {

/// Where a skill was discovered on disk.
#[derive(Debug, Clone, Copy, PartialEq, Eq, Structural)]
pub enum SkillSource {
    CursorUser,
    User,
    CursorProject,
    Project,
}

/// Metadata for a discovered `SKILL.md`.
#[derive(Debug, Clone, PartialEq, Eq)]
pub struct Skill {
    pub name: String,
    pub description: String,
    /// Path of the `SKILL.md` file.
    pub path: String,
    pub source: SkillSource,
}

pub open spec fn skill_line(s: Skill) -> Seq<char> {
    "- **"@ + s.name@ + "**: "@ + s.description@
}

pub open spec fn skill_lines(skills: Seq<Skill>) -> Seq<Seq<char>>
    decreases skills.len(),
{
    if skills.len() == 0 {
        seq![]
    } else {
        skill_lines(skills.drop_last()).push(skill_line(skills.last()))
    }
}

pub open spec fn skills_heading() -> Seq<Seq<char>> {
    seq![
        "## Available skills"@,
        "Specialized instructions live in skill files. When a user task matches a skill description, call the `read_skill` tool with the skill name before proceeding."@,
        Seq::empty(),
    ]
}

/// The skill index of the system prompt: nothing when there are no skills, else a
/// heading, an instruction, a blank line and one `- **name**: description` line per
/// skill, joined by newlines.
pub open spec fn skills_prompt(skills: Seq<Skill>) -> Seq<char> {
    if skills.len() == 0 {
        Seq::empty()
    } else {
        join(skills_heading() + skill_lines(skills), seq!['\n'])
    }
}

proof fn lemma_skill_lines(skills: Seq<Skill>)
    ensures
        skill_lines(skills) == Seq::new(
            skills.len(),
            |k: int| "- **"@ + skills[k].name@ + "**: "@ + skills[k].description@,
        ),
    decreases skills.len(),
{
    if skills.len() > 0 {
        lemma_skill_lines(skills.drop_last());
    }
    assert(skill_lines(skills) =~= Seq::new(
        skills.len(),
        |k: int| "- **"@ + skills[k].name@ + "**: "@ + skills[k].description@,
    ));
}

/// The skill index lists every skill, in order, one line each: for no skills it is
/// empty; otherwise it is the heading `## Available skills`, the instruction to read a
/// matching skill, a blank line, then for each skill `- **name**: description`, all
/// joined by newlines.
pub proof fn lemma_skills_prompt(skills: Seq<Skill>)
    ensures
        skills.len() == 0 ==> skills_prompt(skills) == Seq::<char>::empty(),
        skills.len() > 0 ==> skills_prompt(skills) == join(
            seq![
                "## Available skills"@,
                "Specialized instructions live in skill files. When a user task matches a skill description, call the `read_skill` tool with the skill name before proceeding."@,
                Seq::<char>::empty(),
            ] + Seq::new(
                skills.len(),
                |k: int| "- **"@ + skills[k].name@ + "**: "@ + skills[k].description@,
            ),
            seq!['\n'],
        ),
{
    lemma_skill_lines(skills);
}

/// One more skill adds exactly its own line, `- **name**: description`, at the end of
/// the index: nothing before it changes.
pub proof fn lemma_skills_prompt_push(skills: Seq<Skill>, skill: Skill)
    requires
        skills.len() > 0,
    ensures
        skills_prompt(skills.push(skill)) == skills_prompt(skills) + seq!['\n'] + "- **"@
            + skill.name@ + "**: "@ + skill.description@,
{
    let h = skills_heading();
    let more = skills.push(skill);
    assert(more.drop_last() =~= skills);
    assert((h + skill_lines(more)).drop_last() =~= h + skill_lines(skills));
    assert((h + skill_lines(more)).last() == skill_line(skill));
    assert(skills_prompt(more) =~= skills_prompt(skills) + seq!['\n'] + skill_line(skill));
}

/// Formats a compact skill index for the system prompt.
pub fn format_skills_for_prompt(skills: &[Skill]) -> (r: String)
    ensures
        r@ == skills_prompt(skills@),
{
    if skills.len() == 0 {
        return String::new();
    }
    let mut lines: Vec<Vec<char>> = Vec::new();
    lines.push(chars_of("## Available skills"));
    lines.push(
        chars_of(
            "Specialized instructions live in skill files. When a user task matches a skill description, call the `read_skill` tool with the skill name before proceeding.",
        ),
    );
    lines.push(Vec::new());
    assert(views(lines@) =~= skills_heading());
    let mut i: usize = 0;
    assert(skills@.take(0) =~= Seq::<Skill>::empty());
    assert(skills_heading() + skill_lines(Seq::<Skill>::empty()) =~= skills_heading());
    while i < skills.len()
        invariant
            0 <= i <= skills@.len(),
            views(lines@) == skills_heading() + skill_lines(skills@.take(i as int)),
        decreases skills.len() - i,
    {
        let mut l = chars_of("- **");
        append_str(&mut l, skills[i].name.as_str());
        append_str(&mut l, "**: ");
        append_str(&mut l, skills[i].description.as_str());
        let ghost prev = lines@;
        lines.push(l);
        assert(skills@.take(i + 1).drop_last() =~= skills@.take(i as int));
        assert(views(lines@) =~= views(prev).push(l@));
        i = i + 1;
    }
    assert(skills@.take(skills.len() as int) =~= skills@);
    let sep: Vec<char> = vec!['\n'];
    let r = join_from(&lines, 0, &sep);
    assert(views(lines@).skip(0) =~= views(lines@));
    assert(sep@ =~= seq!['\n']);
    string_from(r.as_slice())
}

/// Parent of a path (`Path::parent`); determined by the path text.
pub uninterp spec fn path_parent(path: Seq<char>) -> Option<Seq<char>>;

/// Last component of a path (`Path::file_name`); determined by the path text.
pub uninterp spec fn path_file_name(path: Seq<char>) -> Option<Seq<char>>;

/// The parent of a path (`std::path::Path::parent`), as text.
#[verifier::external_body]
fn parent_of(path: &str) -> (r: Option<String>)
    ensures
        crate::llm::opt_view(r) == path_parent(path@),
{
    match std::path::Path::new(path).parent() {
        Some(p) => Some(p.to_string_lossy().into_owned()),
        None => None,
    }
}

/// The last component of a path (`std::path::Path::file_name`), as text.
#[verifier::external_body]
fn file_name_of(path: &str) -> (r: Option<String>)
    ensures
        crate::llm::opt_view(r) == path_file_name(path@),
{
    match std::path::Path::new(path).file_name() {
        Some(n) => Some(n.to_string_lossy().into_owned()),
        None => None,
    }
}

/// The name of the directory that holds a skill file.
pub open spec fn skill_dir_name(path: Seq<char>) -> Option<Seq<char>> {
    match path_parent(path) {
        Some(p) => path_file_name(p),
        None => None,
    }
}

fn dir_name_exec(path: &str) -> (r: Option<String>)
    ensures
        crate::llm::opt_view(r) == skill_dir_name(path@),
{
    match parent_of(path) {
        Some(p) => file_name_of(p.as_str()),
        None => None,
    }
}

pub open spec fn first_named(skills: Seq<Skill>, q: Seq<char>, from: int) -> Option<int>
    decreases skills.len() - from,
{
    if from < 0 || from >= skills.len() {
        None
    } else if eq_ignore_case(skills[from].name@, q) {
        Some(from)
    } else {
        first_named(skills, q, from + 1)
    }
}

pub open spec fn first_in_dir(skills: Seq<Skill>, q: Seq<char>, from: int) -> Option<int>
    decreases skills.len() - from,
{
    if from < 0 || from >= skills.len() {
        None
    } else if skill_dir_name(skills[from].path@) matches Some(d) && eq_ignore_case(d, q) {
        Some(from)
    } else {
        first_in_dir(skills, q, from + 1)
    }
}

/// `skill` is named `q` ignoring ASCII case.
pub open spec fn named(skill: Skill, q: Seq<char>) -> bool {
    eq_ignore_case(skill.name@, q)
}

/// `skill` lies in a directory named `q` ignoring ASCII case.
pub open spec fn in_dir(skill: Skill, q: Seq<char>) -> bool {
    skill_dir_name(skill.path@) matches Some(d) && eq_ignore_case(d, q)
}

proof fn lemma_first_named_found(skills: Seq<Skill>, q: Seq<char>, from: int)
    requires
        0 <= from,
    ensures
        first_named(skills, q, from) matches Some(i) ==> from <= i < skills.len() && named(
            skills[i],
            q,
        ),
        first_named(skills, q, from) is None ==> forall|m: int|
            from <= m < skills.len() ==> !named(#[trigger] skills[m], q),
    decreases skills.len() - from,
{
    if from < skills.len() {
        lemma_first_named_found(skills, q, from + 1);
    }
}

proof fn lemma_first_in_dir_found(skills: Seq<Skill>, q: Seq<char>, from: int)
    requires
        0 <= from,
    ensures
        first_in_dir(skills, q, from) matches Some(i) ==> from <= i < skills.len() && in_dir(
            skills[i],
            q,
        ),
        first_in_dir(skills, q, from) is None ==> forall|m: int|
            from <= m < skills.len() ==> !in_dir(#[trigger] skills[m], q),
    decreases skills.len() - from,
{
    if from < skills.len() {
        lemma_first_in_dir_found(skills, q, from + 1);
    }
}

/// Which skill a query names: after trimming, an empty query names none; otherwise
/// the first skill whose name equals it ignoring ASCII case, or else the first whose
/// directory name does.
pub open spec fn find_skill_spec(skills: Seq<Skill>, query: Seq<char>) -> Option<int> {
    let q = trim(query);
    if q.len() == 0 {
        None
    } else {
        match first_named(skills, q, 0) {
            Some(i) => Some(i),
            None => first_in_dir(skills, q, 0),
        }
    }
}

/// A query finds no skill exactly when, once trimmed, it is empty or no skill matches it
/// by name or by directory. A skill it finds matches it: by name, or else by directory
/// when no skill matches by name.
pub proof fn lemma_find_skill_matches(skills: Seq<Skill>, query: Seq<char>)
    ensures
        find_skill_spec(skills, query) is None <==> (trim(query).len() == 0 || forall|k: int|
            0 <= k < skills.len() ==> !named(#[trigger] skills[k], trim(query)) && !in_dir(
                skills[k],
                trim(query),
            )),
        find_skill_spec(skills, query) matches Some(i) ==> 0 <= i < skills.len() && (named(
            skills[i],
            trim(query),
        ) || (in_dir(skills[i], trim(query)) && forall|k: int|
            0 <= k < skills.len() ==> !named(#[trigger] skills[k], trim(query)))),
{
    let q = trim(query);
    lemma_first_named_found(skills, q, 0);
    lemma_first_in_dir_found(skills, q, 0);
}

/// Finds a skill by name (ignoring ASCII case) or by the name of its directory.
pub fn find_skill<'a>(skills: &'a [Skill], query: &str) -> (r: Option<&'a Skill>)
    ensures
        match find_skill_spec(skills@, query@) {
            Some(i) => r matches Some(s) && *s == skills@[i],
            None => r is None,
        },
{
    let q = trim_chars(&chars_of(query));
    if q.len() == 0 {
        return None;
    }
    let mut i: usize = 0;
    while i < skills.len()
        invariant
            0 <= i <= skills@.len(),
            q@ == trim(query@),
            q@.len() > 0,
            first_named(skills@, q@, 0) == first_named(skills@, q@, i as int),
        decreases skills.len() - i,
    {
        let name = chars_of(skills[i].name.as_str());
        if eq_ignore_ascii_case(&name, &q) {
            assert(first_named(skills@, q@, i as int) == Some(i as int));
            return Some(&skills[i]);
        }
        i = i + 1;
    }
    let mut j: usize = 0;
    while j < skills.len()
        invariant
            0 <= j <= skills@.len(),
            q@ == trim(query@),
            q@.len() > 0,
            first_named(skills@, q@, 0) is None,
            first_in_dir(skills@, q@, 0) == first_in_dir(skills@, q@, j as int),
        decreases skills.len() - j,
    {
        let found = match dir_name_exec(skills[j].path.as_str()) {
            Some(d) => eq_ignore_ascii_case(&chars_of(d.as_str()), &q),
            None => false,
        };
        if found {
            assert(first_in_dir(skills@, q@, j as int) == Some(j as int));
            return Some(&skills[j]);
        }
        j = j + 1;
    }
    proof {
        lemma_first_named_found(skills@, q@, 0);
    }
    // A third pass compares lower-cased names, which the first pass already covers.
    let q_lower = lower_chars(&q);
    let mut k: usize = 0;
    while k < skills.len()
        invariant
            0 <= k <= skills@.len(),
            q@ == trim(query@),
            q_lower@ == ascii_lower(q@),
            forall|m: int| 0 <= m < skills@.len() ==> !eq_ignore_case(#[trigger] skills@[m].name@, q@),
            first_in_dir(skills@, q@, 0) is None,
        decreases skills.len() - k,
    {
        let name_lower = lower_chars(&chars_of(skills[k].name.as_str()));
        if eq_chars(&name_lower, &q_lower) {
            assert(eq_ignore_case(skills@[k as int].name@, q@));
            return Some(&skills[k]);
        }
        k = k + 1;
    }
    None
}

// ---------------------------------------------------------------------------
// SKILL.md contents
// ---------------------------------------------------------------------------

/// Leading byte-order marks removed.
pub open spec fn strip_bom(s: Seq<char>) -> Seq<char>
    decreases s.len(),
{
    if s.len() > 0 && s[0] == '\u{feff}' {
        strip_bom(s.drop_first())
    } else {
        s
    }
}

/// Leading newlines removed.
pub open spec fn strip_newlines(s: Seq<char>) -> Seq<char>
    decreases s.len(),
{
    if s.len() > 0 && s[0] == '\n' {
        strip_newlines(s.drop_first())
    } else {
        s
    }
}

/// A file split into its YAML front matter and body. Without a leading `---` (after
/// byte-order marks) or without a closing `\n---`, there is no front matter and the
/// body is the whole text; otherwise the front matter is what lies between, and the
/// body what follows the closing line, without leading newlines.
pub open spec fn split_frontmatter_spec(content: Seq<char>) -> (Option<Seq<char>>, Seq<char>) {
    let t = strip_bom(content);
    if !starts_with(t, "---"@) {
        (None, t)
    } else {
        let rest = t.skip(3);
        match first_occurrence(rest, "\n---"@, 0) {
            None => (None, t),
            Some(end) => (Some(rest.take(end)), strip_newlines(rest.skip(end + 4))),
        }
    }
}

proof fn lemma_strip_bom_at(s: Seq<char>, i: int)
    requires
        0 <= i <= s.len(),
        forall|k: int| 0 <= k < i ==> #[trigger] s[k] == '\u{feff}',
        i < s.len() ==> s[i] != '\u{feff}',
    ensures
        strip_bom(s) == s.skip(i),
    decreases i,
{
    if i == 0 {
        assert(s.skip(0) =~= s);
    } else {
        lemma_strip_bom_at(s.drop_first(), i - 1);
        assert(s.drop_first().skip(i - 1) =~= s.skip(i));
    }
}

proof fn lemma_strip_newlines_at(s: Seq<char>, i: int)
    requires
        0 <= i <= s.len(),
        forall|k: int| 0 <= k < i ==> #[trigger] s[k] == '\n',
        i < s.len() ==> s[i] != '\n',
    ensures
        strip_newlines(s) == s.skip(i),
    decreases i,
{
    if i == 0 {
        assert(s.skip(0) =~= s);
    } else {
        lemma_strip_newlines_at(s.drop_first(), i - 1);
        assert(s.drop_first().skip(i - 1) =~= s.skip(i));
    }
}

/// Splits a skill file into front matter and body.
#[verifier::rlimit(50)]
pub fn split_frontmatter(content: &str) -> (r: (Option<String>, String))
    ensures
        crate::llm::opt_view(r.0) == split_frontmatter_spec(content@).0,
        r.1@ == split_frontmatter_spec(content@).1,
{
    let c = chars_of(content);
    let mut i: usize = 0;
    while i < c.len() && c[i] == '\u{feff}'
        invariant
            0 <= i <= c.len(),
            forall|k: int| 0 <= k < i ==> #[trigger] c@[k] == '\u{feff}',
        decreases c.len() - i,
    {
        i = i + 1;
    }
    proof {
        lemma_strip_bom_at(c@, i as int);
    }
    let t = slice_chars(&c, i, c.len());
    assert(t@ =~= c@.skip(i as int));
    if !starts_with_str(&t, "---") {
        return (None, string_from(t.as_slice()));
    }
    proof {
        reveal_strlit("---");
    }
    let rest = slice_chars(&t, 3, t.len());
    assert(rest@ =~= t@.skip(3));
    let marker = chars_of("\n---");
    proof {
        reveal_strlit("\n---");
    }
    assert(marker@.len() == 4);
    let end = match find_from(&rest, &marker, 0) {
        None => {
            return (None, string_from(t.as_slice()));
        },
        Some(e) => e,
    };
    proof {
        lemma_first_occurrence_bounds(rest@, marker@, 0);
    }
    let meta = slice_chars(&rest, 0, end);
    assert(meta@ =~= rest@.take(end as int));
    let mut j = end + 4;
    while j < rest.len() && rest[j] == '\n'
        invariant
            end + 4 <= j <= rest.len(),
            forall|k: int| end + 4 <= k < j ==> #[trigger] rest@[k] == '\n',
        decreases rest.len() - j,
    {
        j = j + 1;
    }
    proof {
        let after = rest@.skip(end + 4);
        assert forall|k: int| 0 <= k < j - (end + 4) implies #[trigger] after[k] == '\n' by {
            assert(after[k] == rest@[k + end + 4]);
        }
        if j < rest.len() {
            assert(after[j - (end + 4)] == rest@[j as int]);
        }
        lemma_strip_newlines_at(after, j - (end + 4));
        assert(after.skip(j - (end + 4)) =~= rest@.skip(j as int));
    }
    let body = slice_chars(&rest, j, rest.len());
    assert(body@ =~= rest@.skip(j as int));
    (Some(string_from(meta.as_slice())), string_from(body.as_slice()))
}

/// The body of a skill file, without front matter.
pub fn strip_frontmatter(content: &str) -> (r: String)
    ensures
        r@ == split_frontmatter_spec(content@).1,
{
    split_frontmatter(content).1
}

/// The instructions of a skill file: its body, trimmed.
pub fn skill_body(content: &str) -> (r: String)
    ensures
        r@ == trim(split_frontmatter_spec(content@).1),
{
    let body = strip_frontmatter(content);
    string_from(trim_chars(&chars_of(body.as_str())).as_slice())
}

/// A front-matter value: trimmed, then without surrounding `"` and `'` characters.
pub open spec fn meta_value(v: Seq<char>) -> Seq<char> {
    trim_char(trim_char(trim(v), '"'), '\'')
}

/// Name and description after one front-matter line: `name:` sets a non-empty name,
/// `description:` sets the description.
pub open spec fn meta_step(acc: (Seq<char>, Seq<char>), line: Seq<char>) -> (Seq<char>, Seq<char>) {
    let l = trim(line);
    if starts_with(l, "name:"@) {
        let v = meta_value(l.skip(5));
        if v.len() > 0 {
            (v, acc.1)
        } else {
            acc
        }
    } else if starts_with(l, "description:"@) {
        (acc.0, meta_value(l.skip(12)))
    } else {
        acc
    }
}

pub open spec fn meta_scan(acc: (Seq<char>, Seq<char>), ls: Seq<Seq<char>>) -> (Seq<char>, Seq<char>)
    decreases ls.len(),
{
    if ls.len() == 0 {
        acc
    } else {
        meta_step(meta_scan(acc, ls.drop_last()), ls.last())
    }
}

/// The first trimmed body line that is neither empty nor a heading.
pub open spec fn first_text_line(ls: Seq<Seq<char>>) -> Option<Seq<char>>
    decreases ls.len(),
{
    if ls.len() == 0 {
        None
    } else {
        let l = trim(ls[0]);
        if l.len() > 0 && l[0] != '#' {
            Some(l)
        } else {
            first_text_line(ls.drop_first())
        }
    }
}

/// The description used when the front matter gives none: the first text line of the
/// body (or a generic sentence), cut to 200 characters.
pub open spec fn fallback_description(body: Seq<char>) -> Seq<char> {
    let d = match first_text_line(lines(body)) {
        Some(l) => l,
        None => "Specialized agent instructions."@,
    };
    if d.len() > 200 {
        d.take(200)
    } else {
        d
    }
}

/// Name and description of a skill read from its file text; `dir_name` is the name of
/// its directory, the default name.
pub open spec fn skill_meta(raw: Seq<char>, dir_name: Seq<char>) -> (Seq<char>, Seq<char>) {
    let (front, body) = split_frontmatter_spec(raw);
    let (name, description) = match front {
        Some(meta) => meta_scan((dir_name, Seq::empty()), lines(meta)),
        None => (dir_name, Seq::empty()),
    };
    if description.len() == 0 {
        (name, fallback_description(body))
    } else {
        (name, description)
    }
}

fn meta_value_exec(v: &Vec<char>) -> (r: Vec<char>)
    ensures
        r@ == meta_value(v@),
{
    let t = trim_chars(v);
    let a = trim_char_chars(&t, '"');
    trim_char_chars(&a, '\'')
}

fn first_text_line_exec(ls: &Vec<Vec<char>>) -> (r: Option<Vec<char>>)
    ensures
        match r {
            Some(l) => first_text_line(views(ls@)) == Some(l@),
            None => first_text_line(views(ls@)) is None,
        },
{
    let ghost lv = views(ls@);
    let mut i: usize = 0;
    assert(lv.skip(0) =~= lv);
    while i < ls.len()
        invariant
            0 <= i <= ls.len(),
            lv == views(ls@),
            first_text_line(lv) == first_text_line(lv.skip(i as int)),
        decreases ls.len() - i,
    {
        let l = trim_chars(&ls[i]);
        assert(lv.skip(i as int)[0] == ls@[i as int]@);
        assert(lv.skip(i as int).drop_first() =~= lv.skip(i + 1));
        if l.len() > 0 && l[0] != '#' {
            return Some(l);
        }
        i = i + 1;
    }
    None
}

/// Reads a skill's name and description from its file text.
pub fn parse_skill_meta(raw: &str, dir_name: &str) -> (r: (String, String))
    ensures
        r.0@ == skill_meta(raw@, dir_name@).0,
        r.1@ == skill_meta(raw@, dir_name@).1,
{
    let (front, body) = split_frontmatter(raw);
    let mut name = chars_of(dir_name);
    let mut description: Vec<char> = Vec::new();
    proof {
        reveal_strlit("name:");
        reveal_strlit("description:");
    }
    if let Some(meta) = &front {
        let ls = split_lines(&chars_of(meta.as_str()));
        let ghost lv = views(ls@);
        let mut i: usize = 0;
        assert(lv.take(0) =~= Seq::<Seq<char>>::empty());
        while i < ls.len()
            invariant
                0 <= i <= ls.len(),
                lv == views(ls@),
                "name:"@.len() == 5,
                "description:"@.len() == 12,
                (name@, description@) == meta_scan((dir_name@, Seq::empty()), lv.take(i as int)),
            decreases ls.len() - i,
        {
            let l = trim_chars(&ls[i]);
            assert(lv.take(i + 1).drop_last() =~= lv.take(i as int));
            assert(lv[i as int] == ls@[i as int]@);
            if starts_with_str(&l, "name:") {
                let rest = slice_chars(&l, 5, l.len());
                assert(rest@ =~= l@.skip(5));
                let v = meta_value_exec(&rest);
                if v.len() > 0 {
                    name = v;
                }
            } else if starts_with_str(&l, "description:") {
                let rest = slice_chars(&l, 12, l.len());
                assert(rest@ =~= l@.skip(12));
                description = meta_value_exec(&rest);
            }
            i = i + 1;
        }
        assert(lv.take(ls.len() as int) =~= lv);
    }
    if description.len() == 0 {
        let ls = split_lines(&chars_of(body.as_str()));
        let d = match first_text_line_exec(&ls) {
            Some(l) => l,
            None => chars_of("Specialized agent instructions."),
        };
        description = if d.len() > 200 {
            slice_chars(&d, 0, 200)
        } else {
            d
        };
        assert(d.len() > 200 ==> description@ =~= d@.take(200));
    }
    (string_from(name.as_slice()), string_from(description.as_slice()))
}

/// A skill read from the text of its `SKILL.md` at `path`; the default name is the
/// name of the file's directory (or `skill` when the path has none).
pub fn skill_from_file_text(raw: &str, path: &str, source: SkillSource) -> (r: Skill)
    ensures
        r.path@ == path@,
        r.source == source,
        r.name@ == skill_meta(raw@, match skill_dir_name(path@) { Some(d) => d, None => "skill"@ }).0,
        r.description@ == skill_meta(raw@, match skill_dir_name(path@) { Some(d) => d, None => "skill"@ }).1,
{
    let dir = match dir_name_exec(path) {
        Some(d) => d,
        None => string_from(chars_of("skill").as_slice()),
    };
    let (name, description) = parse_skill_meta(raw, dir.as_str());
    Skill { name, description, path: string_from(chars_of(path).as_slice()), source }
}

} // verus!
