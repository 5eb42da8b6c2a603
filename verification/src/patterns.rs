//! Patterns for texts and for paths.
use crate::text;
use vstd::prelude::*;

verus! {

/// A compiled pattern for texts.
#[verifier::external_type_specification]
#[verifier::external_body]
pub struct ExRegex(regex::Regex);

/// A pattern for paths.
#[verifier::external_type_specification]
#[verifier::external_body]
pub struct ExGlob(globset::Glob);

/// Compiled patterns for paths.
#[verifier::external_type_specification]
#[verifier::external_body]
pub struct ExGlobSet(globset::GlobSet);

// ---------------------------------------------------------------------------
// Patterns for texts

/// The character has a meaning in patterns.
pub open spec fn is_meta(c: char) -> bool {
    seq![
        '\\',
        '.',
        '+',
        '*',
        '?',
        '(',
        ')',
        '|',
        '[',
        ']',
        '{',
        '}',
        '^',
        '$',
        '#',
        '&',
        '-',
        '~',
    ].contains(c)
}

/// The text with a backslash before each character that has a meaning in
/// patterns.
pub open spec fn regex_escaped(literal: Seq<char>) -> Seq<char>
    decreases literal.len(),
{
    if literal.len() == 0 {
        seq![]
    } else {
        let before = regex_escaped(literal.drop_last());
        let c = literal.last();
        if is_meta(c) {
            before.push('\\').push(c)
        } else {
            before.push(c)
        }
    }
}

/// Blocks of a page that are no text.
pub const BLOCK_PATTERN: &'static str =
    r"(?is)<(script|style|noscript)[^>]*>.*?</(script|style|noscript)>";

/// Tags of a page.
pub const TAG_PATTERN: &'static str = r"(?is)<[^>]+>";

/// The title of a page.
pub const TITLE_PATTERN: &'static str = r"(?is)<title[^>]*>(.*?)</title>";

/// One of the patterns for pages.
pub open spec fn is_page_pattern(pattern: Seq<char>) -> bool {
    pattern == BLOCK_PATTERN@ || pattern == TAG_PATTERN@ || pattern == TITLE_PATTERN@
}

/// The pattern is accepted, read with or without regard to case.
pub uninterp spec fn regex_compiles(pattern: Seq<char>, case_insensitive: bool) -> bool;

/// What a pattern was compiled from, and whether it has no regard to case.
pub uninterp spec fn regex_source(regex: regex::Regex) -> (Seq<char>, bool);

/// The pattern occurs in the text.
pub uninterp spec fn regex_finds(
    pattern: Seq<char>,
    case_insensitive: bool,
    subject: Seq<char>,
) -> bool;

/// The text with each occurrence of the pattern replaced.
pub uninterp spec fn regex_replaced(
    pattern: Seq<char>,
    case_insensitive: bool,
    subject: Seq<char>,
    replacement: Seq<char>,
) -> Seq<char>;

/// What the first group of the pattern holds at the first place where the
/// pattern occurs.
pub uninterp spec fn regex_first_group(
    pattern: Seq<char>,
    case_insensitive: bool,
    subject: Seq<char>,
) -> Option<Seq<char>>;

/// `regex::escape`: the text with a backslash before each character that has a
/// meaning in patterns.
#[verifier::external_body]
pub(crate) fn escape(literal: &str) -> (r: String)
    ensures
        r@ == regex_escaped(literal@),
{
    regex::escape(literal)
}

/// `regex::RegexBuilder::build`: compiles a pattern, or fails where the pattern
/// is no pattern or too large. Whether it does depends on the pattern and on the
/// regard to case. The compiled pattern keeps both. The patterns for pages are
/// accepted: they are written as the syntax of patterns wants it, and small.
#[verifier::external_body]
pub(crate) fn compile(pattern: &str, case_insensitive: bool) -> (r: Option<regex::Regex>)
    ensures
        r is Some == regex_compiles(pattern@, case_insensitive),
        r matches Some(regex) ==> regex_source(regex) == (pattern@, case_insensitive),
        is_page_pattern(pattern@) ==> r is Some,
{
    regex::RegexBuilder::new(pattern).case_insensitive(case_insensitive).build().ok()
}

/// `regex::Regex::is_match`: whether the pattern occurs in the text. It depends
/// on what the pattern was compiled from and on the text. An escaped text, read
/// with regard to case, occurs just where the text itself stands.
#[verifier::external_body]
pub(crate) fn finds(regex: &regex::Regex, subject: &str) -> (r: bool)
    ensures
        r == regex_finds(regex_source(*regex).0, regex_source(*regex).1, subject@),
        forall|literal: Seq<char>|
            regex_source(*regex) == (#[trigger] regex_escaped(literal), false) ==> r
                == text::has_text(subject@, literal),
{
    regex.is_match(subject)
}

/// `regex::Regex::replace_all`: the text with each occurrence of the pattern
/// replaced. It depends on what the pattern was compiled from, on the text and
/// on the replacement.
#[verifier::external_body]
pub(crate) fn replace_all(regex: &regex::Regex, subject: &str, replacement: &str) -> (r: String)
    ensures
        r@ == regex_replaced(
            regex_source(*regex).0,
            regex_source(*regex).1,
            subject@,
            replacement@,
        ),
{
    regex.replace_all(subject, replacement).into_owned()
}

/// `regex::Regex::captures`: what the first group holds at the first place where
/// the pattern occurs, if it occurs and the group takes part. It depends on what
/// the pattern was compiled from and on the text.
#[verifier::external_body]
pub(crate) fn first_group(regex: &regex::Regex, subject: &str) -> (r: Option<String>)
    ensures
        r.deep_view() == regex_first_group(
            regex_source(*regex).0,
            regex_source(*regex).1,
            subject@,
        ),
{
    let group = regex.captures(subject)?.get(1)?;
    Some(group.as_str().to_string())
}

// ---------------------------------------------------------------------------
// Patterns for paths, on a system whose paths are parted by slashes alone

/// The text is a pattern for paths.
pub uninterp spec fn glob_parses(glob: Seq<char>) -> bool;

/// The text that a pattern was read from.
pub uninterp spec fn glob_text(glob: globset::Glob) -> Seq<char>;

/// The pattern can be compiled.
pub uninterp spec fn glob_compiles(glob: Seq<char>) -> bool;

/// The pattern that a set was compiled from.
pub uninterp spec fn glob_of_set(set: globset::GlobSet) -> Seq<char>;

/// The path matches the pattern.
pub uninterp spec fn glob_matches(glob: Seq<char>, path: Seq<char>) -> bool;

/// `globset::Glob::new`: reads a pattern for paths, or fails where the text is
/// none, which depends on the text alone. The pattern keeps the text.
#[verifier::external_body]
pub(crate) fn parse_glob(glob: &str) -> (r: Option<globset::Glob>)
    ensures
        r is Some == glob_parses(glob@),
        r matches Some(g) ==> glob_text(g) == glob@,
{
    globset::Glob::new(glob).ok()
}

/// `globset::GlobSetBuilder::build` for a set of one pattern: compiles it, or
/// fails where it is too large, which depends on the pattern alone.
#[verifier::external_body]
pub(crate) fn compile_glob(glob: globset::Glob) -> (r: Option<globset::GlobSet>)
    ensures
        r is Some == glob_compiles(glob_text(glob)),
        r matches Some(set) ==> glob_of_set(set) == glob_text(glob),
{
    globset::GlobSetBuilder::new().add(glob).build().ok()
}

/// `globset::GlobSet::is_match`: whether a path matches the pattern of the set.
/// It depends on the pattern and on the path.
#[verifier::external_body]
pub(crate) fn path_matches(set: &globset::GlobSet, path: &str) -> (r: bool)
    ensures
        r == glob_matches(glob_of_set(*set), path@),
{
    set.is_match(path)
}

/// A character that has a meaning in patterns gets a backslash before it; any
/// other stays as it is.
pub proof fn lemma_characters_are_escaped(literal: Seq<char>, c: char)
    ensures
        is_meta(c) ==> regex_escaped(literal.push(c)) == regex_escaped(literal) + seq!['\\', c],
        !is_meta(c) ==> regex_escaped(literal.push(c)) == regex_escaped(literal).push(c),
        regex_escaped(seq![]).len() == 0,
        'a' <= c <= 'z' || 'A' <= c <= 'Z' || '0' <= c <= '9' ==> !is_meta(c),
{
    assert(literal.push(c).drop_last() =~= literal);
    if is_meta(c) {
        assert(regex_escaped(literal).push('\\').push(c) =~= regex_escaped(literal) + seq![
            '\\',
            c,
        ]);
    }
}

} // verus!
