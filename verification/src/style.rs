//! Turning the Python-literal-like `style` field of reviews into JSON text,
//! and collecting the keys of the parsed styles.

use vstd::prelude::*;
use crate::sets::KeySet;
use crate::pattern::{Pattern, compile, replace_all, regex_compiles, regex_replace_all};
use crate::json::{Json, JsonError, JModel, ErrModel, Expected, JsonSource, SourceModel, PathModel, json_parsed};
use crate::files::{field_name, record_field_name};
use crate::text::{push_str, string_from_chars};

verus! {

pub const INCH: &'static str = r#"(?P<prefix>[ /])(?P<inches>(:?(:?\d\.)?\d+)|Jar)""#;
pub const INCH_REVERT: &'static str = r#"<INCH>"#;
pub const AND: &'static str = r#" '[Nn]'? "#;
pub const THEM: &'static str = r#" 'Em "#;
pub const THEM_REVERT: &'static str = r#"<THEM>"#;
pub const AND_REVERT: &'static str = r#"<AND>"#;
pub const QUOTE_TO_SKIP: &'static str = r#"(?P<before>[^\s{])'(?P<after>[^},:])"#;
pub const QUOTE_TO_SKIP_REVERT: &'static str = r#"<QUOTE>"#;
pub const DOUBLEQUOTE_TO_SKIP: &'static str = r#"(?P<before>[ ])"(?P<after>['])"#;
pub const DOUBLEQUOTE_TO_SKIP_REVERT: &'static str = r#"<DOUBLEQUOTE>"#;
pub const DOUBLEQUOTED_TO_SKIP: &'static str = r#""(?P<content>Bacon|Original)""#;
pub const DOUBLEQUOTED_TO_SKIP_REVERT: &'static str = r#"<DOUBLEQUOTED (?P<content>[^>]+)>"#;
pub const QUOTE: &'static str = "'";
/// What an inch mark after a number is set aside as: the number followed by
/// `<INCHES>`, a text that no later step turns into a quote.
pub const INCH_MARK: &'static str = "$prefix$inches<INCHES>";

/// The rewriting of a style into JSON text: quotes that belong to the text
/// (inches, `'n'`, `'Em`, apostrophes, quoted words) are set aside, the
/// remaining single quotes become double quotes, and the set-aside ones are
/// put back in escaped form.
pub open spec fn style_json_text(style: Seq<char>) -> Seq<char> {
    style_after_inch(regex_replace_all(INCH@, style, INCH_MARK@))
}

/// The steps of the style rewriting that follow setting the inch marks aside.
pub open spec fn style_after_inch(s: Seq<char>) -> Seq<char> {
    let s = regex_replace_all(AND@, s, "<AND>"@);
    let s = regex_replace_all(THEM@, s, "<THEM>"@);
    let s = regex_replace_all(QUOTE_TO_SKIP@, s, "$before<QUOTE>$after"@);
    let s = regex_replace_all(DOUBLEQUOTE_TO_SKIP@, s, "$before<DOUBLEQUOTE>$after"@);
    let s = regex_replace_all(DOUBLEQUOTED_TO_SKIP@, s, "<DOUBLEQUOTED $content>"@);
    let s = regex_replace_all(QUOTE@, s, "\""@);
    let s = regex_replace_all(AND_REVERT@, s, " 'n' "@);
    let s = regex_replace_all(THEM_REVERT@, s, " 'Em "@);
    let s = regex_replace_all(QUOTE_TO_SKIP_REVERT@, s, "'"@);
    let s = regex_replace_all(DOUBLEQUOTE_TO_SKIP_REVERT@, s, "\\\""@);
    let s = regex_replace_all(DOUBLEQUOTED_TO_SKIP_REVERT@, s, "\\\"$content\\\""@);
    regex_replace_all(INCH_REVERT@, s, "\""@)
}

/// Whether every pattern of the style rewriting compiles.
pub open spec fn style_patterns_compile() -> bool {
    &&& regex_compiles(INCH@)
    &&& regex_compiles(INCH_REVERT@)
    &&& regex_compiles(AND@)
    &&& regex_compiles(THEM@)
    &&& regex_compiles(THEM_REVERT@)
    &&& regex_compiles(AND_REVERT@)
    &&& regex_compiles(QUOTE_TO_SKIP@)
    &&& regex_compiles(QUOTE_TO_SKIP_REVERT@)
    &&& regex_compiles(DOUBLEQUOTE_TO_SKIP@)
    &&& regex_compiles(DOUBLEQUOTE_TO_SKIP_REVERT@)
    &&& regex_compiles(DOUBLEQUOTED_TO_SKIP@)
    &&& regex_compiles(DOUBLEQUOTED_TO_SKIP_REVERT@)
    &&& regex_compiles(QUOTE@)
}

/// The compiled patterns of the style rewriting.
pub struct StyleRewriter {
    inch: Pattern,
    inch_revert: Pattern,
    and: Pattern,
    them: Pattern,
    them_revert: Pattern,
    and_revert: Pattern,
    quote_to_skip: Pattern,
    quote_to_skip_revert: Pattern,
    doublequote_to_skip: Pattern,
    doublequote_to_skip_revert: Pattern,
    doublequoted_to_skip: Pattern,
    doublequoted_to_skip_revert: Pattern,
    quote: Pattern,
}

impl StyleRewriter {
    /// Each pattern was compiled from its source.
    pub closed spec fn wf(&self) -> bool {
        &&& self.inch.source() == INCH@
        &&& self.inch_revert.source() == INCH_REVERT@
        &&& self.and.source() == AND@
        &&& self.them.source() == THEM@
        &&& self.them_revert.source() == THEM_REVERT@
        &&& self.and_revert.source() == AND_REVERT@
        &&& self.quote_to_skip.source() == QUOTE_TO_SKIP@
        &&& self.quote_to_skip_revert.source() == QUOTE_TO_SKIP_REVERT@
        &&& self.doublequote_to_skip.source() == DOUBLEQUOTE_TO_SKIP@
        &&& self.doublequote_to_skip_revert.source() == DOUBLEQUOTE_TO_SKIP_REVERT@
        &&& self.doublequoted_to_skip.source() == DOUBLEQUOTED_TO_SKIP@
        &&& self.doublequoted_to_skip_revert.source() == DOUBLEQUOTED_TO_SKIP_REVERT@
        &&& self.quote.source() == QUOTE@
    }

    /// Compiles the patterns; `None` when one of them does not compile.
    pub fn new() -> (res: Option<Self>)
        ensures
            res is Some <==> style_patterns_compile(),
            res matches Some(r) ==> r.wf(),
    {
        let inch = compile(INCH)?;
        let inch_revert = compile(INCH_REVERT)?;
        let and = compile(AND)?;
        let them = compile(THEM)?;
        let them_revert = compile(THEM_REVERT)?;
        let and_revert = compile(AND_REVERT)?;
        let quote_to_skip = compile(QUOTE_TO_SKIP)?;
        let quote_to_skip_revert = compile(QUOTE_TO_SKIP_REVERT)?;
        let doublequote_to_skip = compile(DOUBLEQUOTE_TO_SKIP)?;
        let doublequote_to_skip_revert = compile(DOUBLEQUOTE_TO_SKIP_REVERT)?;
        let doublequoted_to_skip = compile(DOUBLEQUOTED_TO_SKIP)?;
        let doublequoted_to_skip_revert = compile(DOUBLEQUOTED_TO_SKIP_REVERT)?;
        let quote = compile(QUOTE)?;
        Some(
            StyleRewriter {
                inch,
                inch_revert,
                and,
                them,
                them_revert,
                and_revert,
                quote_to_skip,
                quote_to_skip_revert,
                doublequote_to_skip,
                doublequote_to_skip_revert,
                doublequoted_to_skip,
                doublequoted_to_skip_revert,
                quote,
            },
        )
    }

    /// The JSON text of a style.
    pub fn rewrite(&self, style: &str) -> (res: String)
        requires
            self.wf(),
        ensures
            res@ == style_json_text(style@),
    {
        let s = replace_all(&self.inch, style, INCH_MARK);
        let s = replace_all(&self.and, s.as_str(), "<AND>");
        let s = replace_all(&self.them, s.as_str(), "<THEM>");
        let s = replace_all(&self.quote_to_skip, s.as_str(), "$before<QUOTE>$after");
        let s = replace_all(&self.doublequote_to_skip, s.as_str(), "$before<DOUBLEQUOTE>$after");
        let s = replace_all(&self.doublequoted_to_skip, s.as_str(), "<DOUBLEQUOTED $content>");
        let s = replace_all(&self.quote, s.as_str(), "\"");
        let s = replace_all(&self.and_revert, s.as_str(), " 'n' ");
        let s = replace_all(&self.them_revert, s.as_str(), " 'Em ");
        let s = replace_all(&self.quote_to_skip_revert, s.as_str(), "'");
        let s = replace_all(&self.doublequote_to_skip_revert, s.as_str(), "\\\"");
        let s = replace_all(&self.doublequoted_to_skip_revert, s.as_str(), "\\\"$content\\\"");
        replace_all(&self.inch_revert, s.as_str(), "\"")
    }
}

} // verus!

verus! {

/// The keys of the members of an object.
pub open spec fn member_keys(members: Seq<(Seq<char>, JModel)>) -> Set<Seq<char>> {
    Set::new(|k: Seq<char>| exists|i: int| 0 <= i < members.len() && #[trigger] members[i].0 == k)
}

/// Adds the keys of the parsed style `json` to `keys`; a style that is not an
/// object is rejected and leaves `keys` as it was.
pub fn collect_style_keys(json: &Json, keys: &mut KeySet) -> (res: Result<(), JsonError>)
    requires
        old(keys).wf(),
    ensures
        final(keys).wf(),
        match json.value@ {
            JModel::Object(members) => res is Ok && final(keys)@ == old(keys)@.union(
                member_keys(members),
            ),
            _ => {
                &&& final(keys)@ == old(keys)@
                &&& res matches Err(e) && e@ == (ErrModel::Mismatch {
                    path: json.path@,
                    expected: Expected::Object,
                    value: json.value@,
                })
            },
        },
{
    let mut it = json.iter_map()?;
    let ghost members = it.entries();
    let ghost start = keys@;
    loop
        invariant
            json.value@ == JModel::Object(members),
            start == old(keys)@,
            keys.wf(),
            it.entries() == members,
            0 <= it.position() <= members.len(),
            keys@ == start.union(member_keys(members.take(it.position()))),
        decreases members.len() - it.position(),
    {
        let ghost pos = it.position();
        match it.next() {
            Some((key, _value)) => {
                keys.insert(String::from_str(key));
                assert(keys@ =~= start.union(member_keys(members.take(it.position())))) by {
                    assert forall|k: Seq<char>| member_keys(members.take(pos + 1)).contains(
                        k,
                    ) implies #[trigger] start.union(member_keys(members.take(pos))).insert(
                        key@,
                    ).contains(k) by {
                        let i = choose|i: int|
                            0 <= i < members.take(pos + 1).len() && #[trigger] members.take(
                                pos + 1,
                            )[i].0 == k;
                        if i < pos {
                            assert(members.take(pos)[i].0 == k);
                        }
                    }
                    assert forall|k: Seq<char>| member_keys(members.take(pos)).contains(
                        k,
                    ) implies #[trigger] member_keys(members.take(pos + 1)).contains(k) by {
                        let i = choose|i: int|
                            0 <= i < members.take(pos).len() && #[trigger] members.take(pos)[i].0
                                == k;
                        assert(members.take(pos + 1)[i].0 == k);
                    }
                    assert(members.take(pos + 1)[pos].0 == key@);
                }
            },
            None => {
                assert(members.take(it.position()) =~= members);
                assert(keys@ =~= start.union(member_keys(members)));
                return Ok(());
            },
        }
    }
}

} // verus!

verus! {

pub const COMMA: &'static str = ",";

/// The patterns used on review fields other than the style.
pub struct ReviewPatterns {
    comma: Pattern,
    quote: Pattern,
}

impl ReviewPatterns {
    /// Each pattern was compiled from its source.
    pub closed spec fn wf(&self) -> bool {
        self.comma.source() == COMMA@ && self.quote.source() == QUOTE@
    }

    /// Compiles the patterns; `None` when one of them does not compile.
    pub fn new() -> (res: Option<Self>)
        ensures
            res is Some <==> regex_compiles(COMMA@) && regex_compiles(QUOTE@),
            res matches Some(r) ==> r.wf(),
    {
        let comma = compile(COMMA)?;
        let quote = compile(QUOTE)?;
        Some(ReviewPatterns { comma, quote })
    }

    /// The vote count with its thousands separators removed.
    pub fn strip_commas(&self, vote: &str) -> (res: String)
        requires
            self.wf(),
        ensures
            res@ == regex_replace_all(COMMA@, vote@, ""@),
    {
        replace_all(&self.comma, vote, "")
    }

    /// The JSON text of an image list: single quotes become double quotes.
    pub fn image_json_text(&self, image: &str) -> (res: String)
        requires
            self.wf(),
        ensures
            res@ == regex_replace_all(QUOTE@, image@, "\""@),
    {
        replace_all(&self.quote, image, "\"")
    }
}

} // verus!

verus! {

/// Whether `pat` occurs in `s` as a run of consecutive characters.
pub open spec fn occurs_in(pat: Seq<char>, s: Seq<char>) -> bool {
    exists|i: int| 0 <= i && i + pat.len() <= s.len() && #[trigger] s.subrange(i, i + pat.len()) == pat
}

/// An inch mark after a number is never turned back into a bare double quote:
/// the style's JSON text is the inch step with `INCH_MARK` followed by the
/// remaining steps, the mark holds no double quote, and it holds no `<INCH>`,
/// the text that the last step turns into a quote.
pub proof fn law_inch_marks_stay_set_aside(style: Seq<char>)
    ensures
        style_json_text(style) == style_after_inch(regex_replace_all(INCH@, style, INCH_MARK@)),
        !INCH_MARK@.contains('"'),
        INCH_REVERT@ == "<INCH>"@,
        !occurs_in(INCH_REVERT@, INCH_MARK@),
        occurs_in("<INCHES>"@, INCH_MARK@),
{
    reveal_strlit("$prefix$inches<INCHES>");
    reveal_strlit("<INCH>");
    reveal_strlit("<INCHES>");
    let m = INCH_MARK@;
    let r = INCH_REVERT@;
    assert(m.len() == 22);
    assert(r.len() == 6);
    assert forall|i: int| 0 <= i < m.len() implies m[i] != '"' by {}
    assert forall|i: int| 0 <= i && i + r.len() <= m.len() implies #[trigger] m.subrange(i, i + r.len()) != r by {
        if i == 14 {
            assert(m.subrange(i, i + 6)[5] == m[19]);
        } else {
            assert(m.subrange(i, i + 6)[0] == m[i]);
        }
    }
    assert(m.subrange(14, 22) =~= "<INCHES>"@);
    assert(m.subrange(14, 14 + "<INCHES>"@.len() as int) == "<INCHES>"@);
}

/// Where a review's style or image list is parsed from: the name of its field.
pub open spec fn field_root(index: nat, field: Seq<char>) -> PathModel {
    PathModel { src: SourceModel::Name(field_name(index, field)), items: Seq::empty() }
}

/// The message of a style that does not parse: the style, its JSON text, and
/// the parser's message.
pub open spec fn style_error_text(style: Seq<char>, text: Seq<char>, message: Seq<char>) -> Seq<
    char,
> {
    "orig: "@ + style + ", from: "@ + text + ": "@ + message
}

/// The style of the `index`-th review as a document: its JSON text, parsed
/// under the name `[index].style`; where that text is no JSON, a message with
/// the style, its JSON text and the parser's message.
pub fn parse_style(rewriter: &StyleRewriter, style: &str, index: usize) -> (res: Result<Json, String>)
    requires
        rewriter.wf(),
    ensures
        match json_parsed(style_json_text(style@)) {
            Ok(v) => res matches Ok(j) && j.value@ == v && j.path@ == field_root(
                index as nat,
                "style"@,
            ),
            Err(m) => res matches Err(t) && t@ == style_error_text(
                style@,
                style_json_text(style@),
                m,
            ),
        },
{
    let text = rewriter.rewrite(style);
    let name = record_field_name(index, "style");
    match Json::from_text(text.as_str(), JsonSource::Name(name)) {
        Ok(j) => Ok(j),
        Err(m) => {
            let mut out: Vec<char> = Vec::new();
            push_str(&mut out, "orig: ");
            push_str(&mut out, style);
            push_str(&mut out, ", from: ");
            push_str(&mut out, text.as_str());
            push_str(&mut out, ": ");
            push_str(&mut out, m.as_str());
            assert(out@ =~= style_error_text(style@, style_json_text(style@), m@));
            Err(string_from_chars(&out))
        },
    }
}

/// The image list of the `index`-th review as a document: its JSON text
/// (single quotes made double), parsed under the name `[index].image`; the
/// parser's message where that text is no JSON.
pub fn parse_image(patterns: &ReviewPatterns, image: &str, index: usize) -> (res: Result<
    Json,
    String,
>)
    requires
        patterns.wf(),
    ensures
        match json_parsed(regex_replace_all(QUOTE@, image@, "\""@)) {
            Ok(v) => res matches Ok(j) && j.value@ == v && j.path@ == field_root(
                index as nat,
                "image"@,
            ),
            Err(m) => res matches Err(t) && t@ == m,
        },
{
    let text = patterns.image_json_text(image);
    let name = record_field_name(index, "image");
    Json::from_text(text.as_str(), JsonSource::Name(name))
}

} // verus!
