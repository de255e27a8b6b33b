//! Contracts for the calls into the standard library that vstd leaves unspecified, and for the
//! calls into the `regex`, `url`, `serde_json` and `unicode-width` crates. Nothing here is proved: each contract
//! is believed as it stands.
use vstd::prelude::*;
use serde_json::Value;
use crate::json::{Json, text_weight};

verus! {

/// `String::push` appends one character to the end of the string.
pub assume_specification[ String::push ](s: &mut String, ch: char)
    ensures
        final(s)@ == old(s)@.push(ch),
;

#[verifier::external_type_specification]
#[verifier::external_body]
pub struct ExRegex(regex::Regex);

#[verifier::external_type_specification]
#[verifier::external_body]
pub struct ExUrl(url::Url);

#[verifier::external_type_specification]
#[verifier::external_body]
pub struct ExParseError(url::ParseError);

#[verifier::external_type_specification]
#[verifier::external_body]
pub struct ExJsonValue(serde_json::Value);

/// The document that `serde_json::from_str::<serde_json::Value>` parses the text into, member
/// order and number texts as `serde_json` gives them, or `None` where the text is not JSON.
pub uninterp spec fn json_document(text: Seq<char>) -> Option<Json>;

/// Whether `regex::Regex::new` accepts the pattern.
pub uninterp spec fn regex_compiles(pattern: Seq<char>) -> bool;

/// What `regex::Regex::replace` gives: the haystack with the leftmost-first match of the pattern
/// replaced, `$` references in the replacement expanded.
pub uninterp spec fn regex_replace_first(pattern: Seq<char>, haystack: Seq<char>, replacement: Seq<char>) -> Seq<char>;

/// What `regex::Regex::replace_all` gives: the haystack with every non-overlapping match of the
/// pattern replaced.
pub uninterp spec fn regex_replace_every(pattern: Seq<char>, haystack: Seq<char>, replacement: Seq<char>) -> Seq<char>;

/// What `regex::Regex::captures_iter` gives, taking from each successive non-overlapping match
/// of the pattern the text of capture group `group` (`None` where the group took no part).
pub uninterp spec fn regex_group_matches(pattern: Seq<char>, haystack: Seq<char>, group: nat) -> Seq<Option<Seq<char>>>;

/// Whether `url::Url::parse` accepts the text.
pub uninterp spec fn url_parses(raw: Seq<char>) -> bool;

/// What `url::Url::path` gives for the URL parsed from the text.
pub uninterp spec fn url_path(raw: Seq<char>) -> Seq<char>;

/// What `url::Url::query_pairs` gives for the URL parsed from the text: its query's pairs,
/// percent-decoded, in order.
pub uninterp spec fn url_query_pairs(raw: Seq<char>) -> Seq<(Seq<char>, Seq<char>)>;

/// The text (`Display`) of the `url::ParseError` that parsing the text gives.
pub uninterp spec fn url_error_text(raw: Seq<char>) -> Seq<char>;

/// What `unicode_width::UnicodeWidthStr::width` gives: the columns the text takes on a terminal.
pub uninterp spec fn display_width(s: Seq<char>) -> usize;

/// A compiled regular expression, with the pattern it was compiled from.
pub struct Pattern {
    re: regex::Regex,
    source: Ghost<Seq<char>>,
}

impl Pattern {
    /// The pattern the expression was compiled from.
    pub closed spec fn source(&self) -> Seq<char> {
        self.source@
    }
}

/// Calls `regex::Regex::new`. Claims only that it succeeds exactly where the pattern compiles
/// and that the expression remembers its pattern.
#[verifier::external_body]
pub(crate) fn compile(pattern: &str) -> (r: Option<Pattern>)
    ensures
        r is Some <==> regex_compiles(pattern@),
        r matches Some(p) ==> p.source() == pattern@,
{
    match regex::Regex::new(pattern) {
        Ok(re) => Some(Pattern { re, source: Ghost(pattern@) }),
        Err(_) => None,
    }
}

/// Calls `regex::Regex::replace`. The contract names the result and claims only that it is a
/// function of the pattern, the haystack and the replacement.
#[verifier::external_body]
pub(crate) fn replace_first(p: &Pattern, haystack: &str, replacement: &str) -> (r: String)
    ensures
        r@ == regex_replace_first(p.source(), haystack@, replacement@),
{
    p.re.replace(haystack, replacement).into_owned()
}

/// Calls `regex::Regex::replace_all`. The contract names the result and claims only that it is
/// a function of the pattern, the haystack and the replacement.
#[verifier::external_body]
pub(crate) fn replace_every(p: &Pattern, haystack: &str, replacement: &str) -> (r: String)
    ensures
        r@ == regex_replace_every(p.source(), haystack@, replacement@),
{
    p.re.replace_all(haystack, replacement).into_owned()
}

/// The text of one capture group in a list of matches, as a plain value.
pub open spec fn group_texts(v: Vec<Option<String>>) -> Seq<Option<Seq<char>>> {
    v@.map_values(|g: Option<String>| g.deep_view())
}

/// Calls `regex::Regex::captures_iter`, keeping group `group` of each match. The contract names
/// the result and claims only that it is a function of the pattern, the haystack and the group.
#[verifier::external_body]
pub(crate) fn group_matches(p: &Pattern, haystack: &str, group: usize) -> (r: Vec<Option<String>>)
    ensures
        group_texts(r) == regex_group_matches(p.source(), haystack@, group as nat),
{
    p.re.captures_iter(haystack).map(|c| c.get(group).map(|m| m.as_str().to_string())).collect()
}

/// A parsed URL, with the text it was parsed from.
pub struct ParsedUrl {
    url: url::Url,
    raw: Ghost<Seq<char>>,
}

impl ParsedUrl {
    /// The text the URL was parsed from.
    pub closed spec fn raw(&self) -> Seq<char> {
        self.raw@
    }
}

/// Why a text is no URL, with the text.
pub struct UrlError {
    error: url::ParseError,
    raw: Ghost<Seq<char>>,
}

impl UrlError {
    /// The text that did not parse.
    pub closed spec fn raw(&self) -> Seq<char> {
        self.raw@
    }
}

/// Calls `url::Url::parse`. Claims only that it succeeds exactly where the text parses and that
/// the result remembers the text.
#[verifier::external_body]
pub(crate) fn parse_url(raw: &str) -> (r: Result<ParsedUrl, UrlError>)
    ensures
        r is Ok <==> url_parses(raw@),
        r matches Ok(u) ==> u.raw() == raw@,
        r matches Err(e) ==> e.raw() == raw@,
{
    match url::Url::parse(raw) {
        Ok(url) => Ok(ParsedUrl { url, raw: Ghost(raw@) }),
        Err(error) => Err(UrlError { error, raw: Ghost(raw@) }),
    }
}

/// Calls `url::Url::path`. The contract names the result and claims only that it is a function
/// of the parsed text.
#[verifier::external_body]
pub(crate) fn path_of(u: &ParsedUrl) -> (r: String)
    ensures
        r@ == url_path(u.raw()),
{
    u.url.path().to_string()
}

/// Calls `url::Url::query_pairs`. The contract names the result and claims only that it is a
/// function of the parsed text.
#[verifier::external_body]
pub(crate) fn query_pairs_of(u: &ParsedUrl) -> (r: Vec<(String, String)>)
    ensures
        r.deep_view() == url_query_pairs(u.raw()),
{
    u.url.query_pairs().map(|(k, v)| (k.into_owned(), v.into_owned())).collect()
}

/// Calls the `Display` of `url::ParseError`. The contract names the result and claims only that
/// it is a function of the text that did not parse.
#[verifier::external_body]
pub(crate) fn parse_error_text(e: &UrlError) -> (r: String)
    ensures
        r@ == url_error_text(e.raw()),
{
    e.error.to_string()
}

/// Calls `unicode_width::UnicodeWidthStr::width`. The contract names the result and claims only
/// that it is a function of the text.
#[verifier::external_body]
pub(crate) fn text_width(s: &str) -> (r: usize)
    ensures
        r == display_width(s@),
{
    unicode_width::UnicodeWidthStr::width(s)
}

/// The document a `serde_json::Value` holds, node for node: numbers by their text, members in
/// the order the value's map gives them.
#[verifier::external_body]
fn document_of(v: &Value) -> Json {
    match v {
        Value::Null => Json::Null,
        Value::Bool(b) => Json::Bool(*b),
        Value::Number(n) => Json::Number(n.to_string()),
        Value::String(t) => Json::Str(t.clone()),
        Value::Array(items) => Json::Array(items.iter().map(document_of).collect()),
        Value::Object(m) => Json::Object(m.iter().map(|(k, x)| (k.clone(), document_of(x))).collect()),
    }
}

/// Calls `serde_json::from_str::<serde_json::Value>` and gives the value as a document. The
/// contract names the result, a function of the text, and claims one fact of JSON's grammar:
/// every string of the document is decoded from its own quoted span of the text, so the strings
/// hold fewer characters in all than the text.
#[verifier::external_body]
pub(crate) fn parse_document(text: &str) -> (r: Option<Json>)
    ensures
        r == json_document(text@),
        r matches Some(d) ==> text_weight(d) < text@.len(),
{
    serde_json::from_str::<Value>(text).ok().map(|v| document_of(&v))
}

} // verus!
