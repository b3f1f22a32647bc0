//! Compiled regular expressions and search-and-replace with them.

use vstd::prelude::*;

verus! {

#[verifier::external_type_specification]
#[verifier::external_body]
pub struct ExRegex(regex::Regex);

/// Whether `regex::Regex::new` accepts `pattern` (its syntax is valid and
/// the compiled program stays within the default size limit).
pub uninterp spec fn regex_compiles(pattern: Seq<char>) -> bool;

/// The text that `regex::Regex::replace_all` produces when every
/// non-overlapping match of `pattern` in `text` is replaced by `replacement`,
/// with `$name` / `$n` in `replacement` standing for capture groups.
pub uninterp spec fn regex_replace_all(
    pattern: Seq<char>,
    text: Seq<char>,
    replacement: Seq<char>,
) -> Seq<char>;

/// What `regex::Regex::captures` finds of capture group `group` when it
/// searches `text` for the first match of `pattern`: `None` when there is no
/// match, `Some(None)` when the match leaves the group out (or there is no
/// such group), and `Some(Some(g))` with the text the group matched.
pub uninterp spec fn regex_capture(pattern: Seq<char>, text: Seq<char>, group: int) -> Option<
    Option<Seq<char>>,
>;

/// A regular expression compiled from the pattern it keeps.
pub struct Pattern {
    re: regex::Regex,
    source: String,
}

impl Pattern {
    /// The pattern this expression was compiled from.
    pub closed spec fn source(&self) -> Seq<char> {
        self.source@
    }
}

/// Compiles `pattern` (`regex::Regex::new`). The result is named by
/// `regex_compiles`; which patterns are accepted is not spelled out here.
#[verifier::external_body]
pub fn compile(pattern: &str) -> (res: Option<Pattern>)
    ensures
        res is Some <==> regex_compiles(pattern@),
        res matches Some(p) ==> p.source() == pattern@,
{
    match regex::Regex::new(pattern) {
        Ok(re) => Some(Pattern { re, source: pattern.to_string() }),
        Err(_) => None,
    }
}

/// Replaces every match of `pattern` in `text` by `replacement`
/// (`regex::Regex::replace_all`). The result is named by `regex_replace_all`.
#[verifier::external_body]
pub fn replace_all(pattern: &Pattern, text: &str, replacement: &str) -> (res: String)
    ensures
        res@ == regex_replace_all(pattern.source(), text@, replacement@),
{
    pattern.re.replace_all(text, replacement).into_owned()
}

/// The text of capture group `group` in the first match of `pattern` in
/// `text` (`regex::Regex::captures`, then `Captures::get`). The result is
/// named by `regex_capture`; each call searches anew.
#[verifier::external_body]
pub fn capture(pattern: &Pattern, text: &str, group: usize) -> (res: Option<Option<String>>)
    ensures
        match res {
            None => regex_capture(pattern.source(), text@, group as int) is None,
            Some(None) => regex_capture(pattern.source(), text@, group as int) == Some(
                None::<Seq<char>>,
            ),
            Some(Some(g)) => regex_capture(pattern.source(), text@, group as int) == Some(
                Some(g@),
            ),
        },
{
    match pattern.re.captures(text) {
        Some(caps) => match caps.get(group) {
            Some(m) => Some(Some(m.as_str().to_string())),
            None => Some(None),
        },
        None => None,
    }
}

} // verus!
