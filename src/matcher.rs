//! A compiled route matcher: a regular expression of the `regex` crate,
//! together with the source it was compiled from.
use vstd::prelude::*;
use crate::pattern::{
    any_empty, any_repeated, ends_open, escape_literal, extract_param_names, has_missing_name,
    has_repeated_name, is_literal_pattern, lemma_literal_pattern, param_names, regex_source,
    regex_source_of, string_views,
};

verus! {

#[verifier::external_type_specification]
#[verifier::external_body]
pub struct ExRegex(regex::Regex);

#[verifier::external_type_specification]
#[verifier::external_body]
pub struct ExRegexError(regex::Error);

/// Whether the `regex` crate accepts `source` as a regular expression.
pub uninterp spec fn regex_compiles(source: Seq<char>) -> bool;

/// Relies on `regex::Regex::new`, which compiles a regular expression or
/// reports why it cannot; which of the two depends on the source alone.
pub assume_specification[ regex::Regex::new ](re: &str) -> (r: Result<regex::Regex, regex::Error>)
    ensures
        r is Ok <==> regex_compiles(re@),
;

/// What the regular expression with source `source` captures on `haystack`:
/// `None` where it does not match, else the text of each named group that
/// took part in the match, by group name.
pub uninterp spec fn regex_captures(source: Seq<char>, haystack: Seq<char>) -> Option<
    Map<Seq<char>, Seq<char>>,
>;

/// The text that group `name` captured, if it took part in the match.
pub open spec fn group_of(groups: Map<Seq<char>, Seq<char>>, name: Seq<char>) -> Option<Seq<char>> {
    if groups.dom().contains(name) {
        Some(groups[name])
    } else {
        None
    }
}

/// The view of an optional string.
pub open spec fn opt_view(o: Option<String>) -> Option<Seq<char>> {
    match o {
        Some(s) => Some(s@),
        None => None,
    }
}

/// The anchored regular expression that stands for the literal text `lit`.
pub open spec fn literal_regex(lit: Seq<char>) -> Seq<char> {
    seq!['^'] + escape_literal(lit) + seq!['$']
}

/// A regular expression of the `regex` crate and the source it was compiled
/// from. The two fields are only ever set together, by `Matcher::compile`.
pub struct Matcher {
    regex: regex::Regex,
    source: String,
}

impl View for Matcher {
    type V = Seq<char>;

    /// The source of the regular expression.
    closed spec fn view(&self) -> Seq<char> {
        self.source@
    }
}

impl Matcher {
    /// Compiles `source`; on success the matcher's source is `source`.
    pub fn compile(source: String) -> (r: Result<Matcher, regex::Error>)
        ensures
            r is Ok <==> regex_compiles(source@),
            r matches Ok(m) ==> m@ == source@,
    {
        match regex::Regex::new(source.as_str()) {
            Ok(regex) => Ok(Matcher { regex, source }),
            Err(e) => Err(e),
        }
    }
}

/// Why a pattern could not be compiled.
#[derive(PartialEq, Eq, Structural, Clone, Copy, Debug)]
pub enum PatternError {
    /// A `{` is never closed.
    UnclosedPlaceholder,
    /// A placeholder has no name: `{}`, or a `}` that closes no `{`.
    MissingName,
    /// Two placeholders have the same name.
    RepeatedName,
    /// The regular expression the pattern stands for does not compile (a
    /// name that is not a valid group name, an expression too large).
    InvalidRegex,
}

/// What is wrong with pattern `p` before any regular expression is
/// compiled, checked in this order; `None` where nothing is.
pub open spec fn pattern_error(p: Seq<char>) -> Option<PatternError> {
    if ends_open(p) {
        Some(PatternError::UnclosedPlaceholder)
    } else if has_missing_name(p) {
        Some(PatternError::MissingName)
    } else if has_repeated_name(p) {
        Some(PatternError::RepeatedName)
    } else {
        None
    }
}

/// What compiling pattern `p` gives, apart from the matcher itself: the
/// error of `pattern_error` where there is one, else success exactly where
/// the regular expression compiles.
pub open spec fn compile_outcome<T>(p: Seq<char>, r: Result<T, PatternError>) -> bool {
    match pattern_error(p) {
        Some(e) => r == Err::<T, PatternError>(e),
        None => if regex_compiles(regex_source(p)) {
            r is Ok
        } else {
            r == Err::<T, PatternError>(PatternError::InvalidRegex)
        },
    }
}

/// Compiles `pattern` into a matcher for the paths it describes.
pub fn path_pattern_to_regex(pattern: &str) -> (r: Result<Matcher, PatternError>)
    ensures
        compile_outcome(pattern@, r),
        r matches Ok(m) ==> m@ == regex_source(pattern@),
{
    let source = match regex_source_of(pattern) {
        None => {
            return Err(PatternError::UnclosedPlaceholder);
        },
        Some(source) => source,
    };
    let names = extract_param_names(pattern);
    proof {
        assert(string_views(names@).len() == names@.len());
        assert forall|i: int| 0 <= i < names@.len() implies #[trigger] names@[i]@ == param_names(
            pattern@,
        )[i] by {
            assert(string_views(names@)[i] == names@[i]@);
        }
    }
    if any_empty(&names) {
        proof {
            let i = choose|i: int| 0 <= i < names@.len() && (#[trigger] names@[i])@.len() == 0;
            assert(param_names(pattern@)[i].len() == 0);
        }
        return Err(PatternError::MissingName);
    }
    if any_repeated(&names) {
        proof {
            let (i, j) = choose|i: int, j: int|
                0 <= i < j < names@.len() && (#[trigger] names@[i])@ == (#[trigger] names@[j])@;
            assert(param_names(pattern@)[i] == param_names(pattern@)[j]);
        }
        return Err(PatternError::RepeatedName);
    }
    match Matcher::compile(source) {
        Ok(m) => Ok(m),
        Err(_) => Err(PatternError::InvalidRegex),
    }
}

impl Matcher {
    /// Whether the matcher accepts the whole of `path`. A matcher compiled
    /// from a pattern without braces accepts exactly the pattern's text.
    pub fn accepts(&self, path: &str) -> (r: bool)
        ensures
            r == regex_captures(self@, path@) is Some,
            forall|lit: Seq<char>|
                is_literal_pattern(lit) && self@ == #[trigger] literal_regex(lit) ==> (r
                    <==> path@ == lit),
    {
        let no_names: Vec<String> = Vec::new();
        captures(self, path, &no_names).is_some()
    }
}

/// Whether `path` is one of the paths that `pattern` describes; `None`
/// where the pattern does not compile. A pattern without braces describes
/// exactly its own text.
pub fn pattern_matches(pattern: &str, path: &str) -> (r: Option<bool>)
    ensures
        pattern_error(pattern@) is Some ==> r is None,
        pattern_error(pattern@) is None ==> (r is Some <==> regex_compiles(regex_source(pattern@))),
        r matches Some(b) ==> b == regex_captures(regex_source(pattern@), path@) is Some,
        is_literal_pattern(pattern@) && r is Some ==> r == Some(path@ == pattern@),
{
    match path_pattern_to_regex(pattern) {
        Ok(m) => {
            proof {
                if is_literal_pattern(pattern@) {
                    lemma_literal_pattern(pattern@);
                    assert(m@ == literal_regex(pattern@));
                }
            }
            Some(m.accepts(path))
        },
        Err(_) => None,
    }
}

/// Relies on `regex::Regex::captures` (with `Captures::name` and
/// `Match::as_str` to read each group out): `None` where the expression does
/// not match `path`, else the text of each group in `names`. An anchored
/// expression whose every character between the anchors stands for itself
/// (the special ones escaped with `\`, no brace) matches exactly its text.
#[verifier::external_body]
pub(crate) fn captures(m: &Matcher, path: &str, names: &Vec<String>) -> (r: Option<
    Vec<Option<String>>,
>)
    ensures
        r is Some <==> regex_captures(m@, path@) is Some,
        r matches Some(groups) ==> groups@.len() == names@.len() && forall|i: int|
            0 <= i < names@.len() ==> #[trigger] opt_view(groups@[i]) == group_of(
                regex_captures(m@, path@)->0,
                names@[i]@,
            ),
        forall|lit: Seq<char>|
            is_literal_pattern(lit) && m@ == #[trigger] literal_regex(lit) ==> (r is Some
                <==> path@ == lit),
{
    m.regex.captures(path).map(
        |c| names.iter().map(|n| c.name(n).map(|g| g.as_str().to_string())).collect(),
    )
}

} // verus!
