//! Regular expressions: compiled once per request, then tried on whatever
//! is found.

use crate::data::{IocEntryId, IocId, IocSearchError, SearchType};
use crate::query_result::{scope_of, scoped_error};
use vstd::prelude::*;

verus! {

/// `regex::Regex`: a compiled expression, of which nothing is known here
/// but what the functions below say.
#[verifier::external_type_specification]
#[verifier::external_body]
pub struct ExRegex(regex::Regex);

/// `regex::Error`: why a pattern did not compile; it is only turned into
/// text.
#[verifier::external_type_specification]
#[verifier::external_body]
pub struct ExRegexError(regex::Error);

/// Whether the text `pattern` compiles as a regular expression with the
/// crate's default settings.
pub uninterp spec fn pattern_compiles(pattern: Seq<char>) -> bool;

/// Whether the regular expression `pattern` matches somewhere in `haystack`.
pub uninterp spec fn regex_matches(pattern: Seq<char>, haystack: Seq<char>) -> bool;

/// A regular expression that compiled, together with its source text.
pub struct CompiledPattern {
    source: String,
    regex: regex::Regex,
}

impl CompiledPattern {
    /// The text that the expression was compiled from.
    pub closed spec fn pattern(&self) -> Seq<char> {
        self.source@
    }

    /// `regex::Regex::new`: compiles `pattern` with the crate's default
    /// settings. Whether it succeeds is a matter of the pattern alone; a
    /// compiled expression remembers its source.
    #[verifier::external_body]
    pub(crate) fn compile(pattern: &str) -> (compiled: Result<CompiledPattern, regex::Error>)
        ensures
            compiled is Ok <==> pattern_compiles(pattern@),
            compiled matches Ok(expression) ==> expression.pattern() == pattern@,
    {
        regex::Regex::new(pattern).map(
            |regex| CompiledPattern { source: pattern.to_string(), regex },
        )
    }

    /// `regex::Regex::is_match`: true exactly if the expression matches
    /// anywhere in the haystack.
    #[verifier::external_body]
    pub(crate) fn is_match(&self, haystack: &str) -> (found: bool)
        ensures
            found == regex_matches(self.pattern(), haystack@),
    {
        self.regex.is_match(haystack)
    }
}

/// `Display` of `regex::Error`: the error as text.
#[verifier::external_body]
fn error_text(error: &regex::Error) -> String {
    error.to_string()
}

/// The kind under which a pattern that does not compile is reported.
pub open spec fn pattern_error_kind() -> Seq<char> {
    "Regex error"@
}

/// Compiles a pattern: it succeeds exactly if the pattern compiles. An
/// error carries the kind `pattern_error_kind()` and the compiler's
/// message.
pub fn compile_pattern(pattern: &str) -> (compiled: Result<CompiledPattern, IocSearchError>)
    ensures
        compiled is Ok <==> pattern_compiles(pattern@),
        match compiled {
            Ok(expression) => expression.pattern() == pattern@,
            Err(error) => error.kind@ == pattern_error_kind(),
        },
{
    match CompiledPattern::compile(pattern) {
        Ok(expression) => Ok(expression),
        Err(error) => Err(
            IocSearchError { kind: "Regex error".to_string(), message: error_text(&error) },
        ),
    }
}

/// How the pattern of one request is to be compared: literally, or by an
/// expression that compiled.
pub open spec fn is_prepared(
    search: SearchType,
    pattern: Seq<char>,
    regex: Option<CompiledPattern>,
) -> bool {
    match search {
        SearchType::Exact => regex is None,
        SearchType::Regex => regex matches Some(expression) && expression.pattern() == pattern,
    }
}

/// The error of a request whose pattern did not compile: of the kind
/// `pattern_error_kind()`, its message tied to the request.
pub open spec fn is_pattern_error(
    error: IocSearchError,
    ioc_id: IocId,
    ioc_entry_id: IocEntryId,
) -> bool {
    error.kind@ == pattern_error_kind() && scope_of(ioc_id, ioc_entry_id).is_prefix_of(
        error.message@,
    )
}

/// A request with this search type and this pattern can be prepared: every
/// exact search can, a regex search exactly if its pattern compiles.
pub open spec fn can_prepare(search: SearchType, pattern: Seq<char>) -> bool {
    search == SearchType::Exact || pattern_compiles(pattern)
}

/// Prepares the pattern of one request: nothing to do for an exact search,
/// an expression to compile for the other. Only a pattern that does not
/// compile gives an error, and the error names the request.
pub fn prepare(search: SearchType, pattern: &str, ioc_id: IocId, ioc_entry_id: IocEntryId) -> (prepared:
    Result<Option<CompiledPattern>, IocSearchError>)
    ensures
        prepared is Ok <==> can_prepare(search, pattern@),
        match prepared {
            Ok(regex) => is_prepared(search, pattern@, regex),
            Err(error) => search == SearchType::Regex && is_pattern_error(
                error,
                ioc_id,
                ioc_entry_id,
            ),
        },
{
    match search {
        SearchType::Exact => Ok(None),
        SearchType::Regex => match compile_pattern(pattern) {
            Ok(expression) => Ok(Some(expression)),
            Err(error) => Err(
                scoped_error(ioc_id, ioc_entry_id, "Regex error", error.message.as_str()),
            ),
        },
    }
}

} // verus!
