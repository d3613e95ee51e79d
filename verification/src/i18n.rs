//! Locale selection and message interpolation.
//!
//! The translation tables themselves are compiled into the application; this module
//! owns which locales are accepted, the active-locale switch and the `{name}`
//! placeholder substitution that every formatted message goes through.
use vstd::prelude::*;

use crate::text::{chars_of, string_from};

verus! {

/// Errors of the localisation layer.
#[derive(Debug)]
pub enum I18nError {
    UnsupportedLocale { locale: String },
}

impl I18nError {
    /// The error's message, as its `Display` renders it.
    pub fn message(&self) -> (r: String)
        ensures
            r@ == (match self {
                I18nError::UnsupportedLocale { locale } => "unsupported locale: "@ + locale@,
            }),
    {
        match self {
            I18nError::UnsupportedLocale { locale } => {
                let mut v = chars_of("unsupported locale: ");
                let l = chars_of(locale.as_str());
                crate::text::append_chars(&mut v, &l);
                string_from(v.as_slice())
            },
        }
    }
}

/// The UI languages the application ships.
pub open spec fn supported_locale(language: Seq<char>) -> bool {
    language == "zh-CN"@ || language == "en-US"@
}

pub fn is_supported_locale(language: &str) -> (r: bool)
    ensures
        r == supported_locale(language@),
{
    let v = chars_of(language);
    crate::text::eq_str(&v, "zh-CN") || crate::text::eq_str(&v, "en-US")
}

/// Makes `locale` the active locale of the translation runtime (`rust_i18n::set_locale`).
/// The call only stores the tag in a process-wide cell; nothing is returned.
#[verifier::external_body]
fn runtime_set_locale(locale: &str) {
    rust_i18n::set_locale(locale)
}

/// The active locale of the translation runtime (`rust_i18n::locale`). It is
/// process-wide mutable state, so nothing is promised about the value.
#[verifier::external_body]
pub(crate) fn locale() -> String {
    rust_i18n::locale().to_string()
}

/// Sets the active locale; only `zh-CN` and `en-US` are accepted.
pub fn set_locale(language: &str) -> (r: Result<(), I18nError>)
    ensures
        r is Ok <==> supported_locale(language@),
        r matches Err(I18nError::UnsupportedLocale { locale }) ==> locale@ == language@,
{
    if !is_supported_locale(language) {
        return Err(I18nError::UnsupportedLocale { locale: string_from(chars_of(language).as_slice()) });
    }
    runtime_set_locale(language);
    Ok(())
}

/// Initialises the locale from a language tag, falling back to `en-US`; returns the
/// tag that is now active.
pub fn init(language: &str) -> (r: String)
    ensures
        supported_locale(language@) ==> r@ == language@,
        !supported_locale(language@) ==> r@ == "en-US"@,
{
    if set_locale(language).is_ok() {
        string_from(chars_of(language).as_slice())
    } else {
        runtime_set_locale("en-US");
        string_from(chars_of("en-US").as_slice())
    }
}

/// Every occurrence of `pat` in `s`, scanning left to right without overlap, replaced
/// by `rep`, as `str::replace` does for a non-empty pattern. An empty pattern leaves `s`
/// as it is (the placeholders replaced here are never empty: they have the form `{name}`).
pub open spec fn replace_all(s: Seq<char>, pat: Seq<char>, rep: Seq<char>) -> Seq<char>
    decreases s.len(),
{
    if pat.len() == 0 || s.len() < pat.len() {
        s
    } else if s.take(pat.len() as int) == pat {
        rep + replace_all(s.skip(pat.len() as int), pat, rep)
    } else {
        seq![s[0]] + replace_all(s.drop_first(), pat, rep)
    }
}

/// The placeholder `{name}`.
pub open spec fn placeholder(name: Seq<char>) -> Seq<char> {
    seq!['{'] + name + seq!['}']
}

/// A message with each `{name}` replaced by its value, argument by argument.
pub open spec fn interpolate_spec(message: Seq<char>, args: Seq<(Seq<char>, Seq<char>)>) -> Seq<
    char,
>
    decreases args.len(),
{
    if args.len() == 0 {
        message
    } else {
        let last = args.last();
        replace_all(interpolate_spec(message, args.drop_last()), placeholder(last.0), last.1)
    }
}

pub open spec fn arg_views(args: Seq<(&str, &str)>) -> Seq<(Seq<char>, Seq<char>)> {
    args.map_values(|p: (&str, &str)| (p.0@, p.1@))
}

/// Does `pat` occur in `s` at position `i`?
fn occurs_at_exec(s: &Vec<char>, pat: &Vec<char>, i: usize) -> (r: bool)
    requires
        i <= s.len(),
    ensures
        r == (i + pat.len() <= s.len() && s@.subrange(i as int, i + pat.len()) == pat@),
{
    if pat.len() > s.len() - i {
        return false;
    }
    let mut k: usize = 0;
    while k < pat.len()
        invariant
            0 <= k <= pat.len(),
            i + pat.len() <= s.len(),
            forall|m: int| 0 <= m < k ==> s@[i + m] == pat@[m],
        decreases pat.len() - k,
    {
        if s[i + k] != pat[k] {
            assert(s@.subrange(i as int, i + pat.len())[k as int] != pat@[k as int]);
            return false;
        }
        k = k + 1;
    }
    assert(s@.subrange(i as int, i + pat.len()) =~= pat@);
    true
}

/// `s` with every occurrence of `pat` replaced by `rep`.
pub fn replace_chars(s: &Vec<char>, pat: &Vec<char>, rep: &Vec<char>) -> (r: Vec<char>)
    ensures
        r@ == replace_all(s@, pat@, rep@),
{
    if pat.len() == 0 {
        return s.clone();
    }
    let mut out: Vec<char> = Vec::new();
    let mut i: usize = 0;
    assert(s@.skip(0) =~= s@);
    while i < s.len()
        invariant
            0 <= i <= s.len(),
            pat.len() > 0,
            replace_all(s@, pat@, rep@) == out@ + replace_all(s@.skip(i as int), pat@, rep@),
        decreases s.len() - i,
    {
        let ghost rest = s@.skip(i as int);
        if occurs_at_exec(s, pat, i) {
            assert(rest.take(pat.len() as int) =~= s@.subrange(i as int, i + pat.len()));
            assert(rest.skip(pat.len() as int) =~= s@.skip(i + pat.len()));
            crate::text::append_chars(&mut out, rep);
            i = i + pat.len();
        } else {
            proof {
                if rest.len() >= pat.len() {
                    assert(rest.take(pat.len() as int) =~= s@.subrange(i as int, i + pat.len()));
                }
                assert(rest.drop_first() =~= s@.skip(i + 1));
            }
            out.push(s[i]);
            i = i + 1;
        }
    }
    assert(s@.skip(s.len() as int) =~= Seq::<char>::empty());
    assert(out@ + Seq::<char>::empty() =~= out@);
    out
}

/// A translated message with its `{name}` placeholders replaced by their values, in
/// argument order. `message` is the translation of the message's key in the active
/// locale.
pub fn t_fmt(message: &str, args: &[(&str, &str)]) -> (r: String)
    ensures
        r@ == interpolate_spec(message@, arg_views(args@)),
{
    let mut m = chars_of(message);
    let mut i: usize = 0;
    let ghost all = arg_views(args@);
    assert(all.take(0) =~= Seq::<(Seq<char>, Seq<char>)>::empty());
    while i < args.len()
        invariant
            0 <= i <= args.len(),
            all == arg_views(args@),
            m@ == interpolate_spec(message@, all.take(i as int)),
        decreases args.len() - i,
    {
        let (name, value) = args[i];
        let mut pat: Vec<char> = vec!['{'];
        crate::text::append_str(&mut pat, name);
        pat.push('}');
        let rep = chars_of(value);
        assert(all.take(i + 1).drop_last() =~= all.take(i as int));
        assert(pat@ =~= placeholder(name@));
        m = replace_chars(&m, &pat, &rep);
        i = i + 1;
    }
    assert(all.take(args.len() as int) =~= all);
    string_from(m.as_slice())
}

} // verus!
