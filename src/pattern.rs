use vstd::prelude::*;

verus! {

#[verifier::external_type_specification]
#[verifier::external_body]
pub struct ExRegex(regex::Regex);

#[verifier::external_type_specification]
#[verifier::external_body]
pub struct ExRegexError(regex::Error);

/// Whether the regex engine accepts `pattern` as a regular expression.
pub uninterp spec fn regex_compiles(pattern: Seq<char>) -> bool;

/// Whether the regular expression `pattern` matches somewhere inside `haystack`.
pub uninterp spec fn regex_finds(pattern: Seq<char>, haystack: Seq<char>) -> bool;

/// Relies on `regex::Regex::new`: it builds the expression, or reports an
/// error, depending on the pattern text alone.
#[verifier::external_body]
fn build_regex(source: &str) -> (r: Result<regex::Regex, regex::Error>)
    ensures
        r is Ok <==> regex_compiles(source@),
{
    regex::Regex::new(source)
}

/// A regular expression together with the text it was compiled from.
///
/// The fields are private to this module and a value is only ever made by
/// `Pattern::compile`, so `compiled` is always the expression built from
/// `source`.
pub struct Pattern {
    source: String,
    compiled: regex::Regex,
}

impl View for Pattern {
    type V = Seq<char>;

    closed spec fn view(&self) -> Seq<char> {
        self.source@
    }
}

/// Relies on `regex::Regex::is_match`: an unanchored search for the pattern
/// anywhere in the haystack.
#[verifier::external_body]
fn regex_is_match(p: &Pattern, haystack: &str) -> (r: bool)
    ensures
        r == regex_finds(p@, haystack@),
{
    p.compiled.is_match(haystack)
}

impl Pattern {
    /// Compiles `source`; fails exactly when the regex engine rejects it.
    pub fn compile(source: String) -> (r: Result<Pattern, regex::Error>)
        ensures
            r is Ok <==> regex_compiles(source@),
            r matches Ok(p) ==> p@ == source@,
    {
        match build_regex(source.as_str()) {
            Ok(compiled) => Ok(Pattern { source, compiled }),
            Err(e) => Err(e),
        }
    }

    /// The text the pattern was compiled from.
    pub fn source(&self) -> (r: String)
        ensures
            r@ == self@,
    {
        self.source.clone()
    }

    /// Whether the pattern occurs anywhere in `haystack`.
    pub fn is_found_in(&self, haystack: &str) -> (r: bool)
        ensures
            r == regex_finds(self@, haystack@),
    {
        regex_is_match(self, haystack)
    }
}

} // verus!
