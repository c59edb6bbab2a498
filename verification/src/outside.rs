//! The trusted boundary: the few outside calls the conversion logic makes —
//! URL parsing, semantic-version parsing and case folding — each behind a
//! wrapper whose contract names what the call returns.

use vstd::prelude::*;

verus! {

/// What URL parsing reports about a reference, reduced to plain values.
pub struct UrlParts {
    /// Whether the URL has a host component.
    pub has_host: bool,
    /// The URL's scheme, e.g. `github` or `https`.
    pub scheme: Vec<char>,
    /// The URL's path, e.g. `nixos/nixpkgs` in `github:nixos/nixpkgs`.
    pub path: Vec<char>,
    /// The whole URL as the parser re-serializes it.
    pub rendered: Vec<char>,
}

/// How an attempt to parse a reference as a URL can end.
pub enum UrlParseOutcome {
    Parsed(UrlParts),
    /// The reference is relative — no scheme, as in `nixos/nixpkgs`.
    RelativeWithoutBase,
    /// The reference is not a URL at all.
    Invalid,
}

/// The parts of a parse outcome, over character sequences.
pub struct UrlPartsV {
    pub has_host: bool,
    pub scheme: Seq<char>,
    pub path: Seq<char>,
    pub rendered: Seq<char>,
}

/// A parse outcome over character sequences.
pub enum UrlOutcomeV {
    Parsed(UrlPartsV),
    RelativeWithoutBase,
    Invalid,
}

/// The outcome a wrapper reports, viewed over character sequences.
pub open spec fn url_outcome_view(o: UrlParseOutcome) -> UrlOutcomeV {
    match o {
        UrlParseOutcome::Parsed(p) => UrlOutcomeV::Parsed(
            UrlPartsV {
                has_host: p.has_host,
                scheme: p.scheme@,
                path: p.path@,
                rendered: p.rendered@,
            },
        ),
        UrlParseOutcome::RelativeWithoutBase => UrlOutcomeV::RelativeWithoutBase,
        UrlParseOutcome::Invalid => UrlOutcomeV::Invalid,
    }
}

/// What parsing the given text as a URL yields: the outcome is a function of
/// the text alone.
pub uninterp spec fn url_outcome_of(s: Seq<char>) -> UrlOutcomeV;

/// Relies on url::Url::parse and its accessors host, scheme, path and as_str:
/// a successful parse is reported with its host presence, scheme, path and
/// re-serialized text; a RelativeUrlWithoutBase error and every other parse
/// error are told apart.
#[verifier::external_body]
pub(crate) fn parse_url_outcome(s: &Vec<char>) -> (r: UrlParseOutcome)
    ensures
        url_outcome_view(r) == url_outcome_of(s@),
{
    let text: String = s.iter().collect();
    match url::Url::parse(&text) {
        Ok(u) => UrlParseOutcome::Parsed(UrlParts {
            has_host: u.host().is_some(),
            scheme: u.scheme().chars().collect(),
            path: u.path().chars().collect(),
            rendered: u.as_str().chars().collect(),
        }),
        Err(url::ParseError::RelativeUrlWithoutBase) => UrlParseOutcome::RelativeWithoutBase,
        Err(_) => UrlParseOutcome::Invalid,
    }
}

/// What parsing the given text as a semantic version yields: `None` when the
/// text is not a valid version, else the version re-serialized in canonical
/// form. The outcome is a function of the text alone.
pub uninterp spec fn semver_norm_of(s: Seq<char>) -> Option<Seq<char>>;

/// Relies on semver::Version::parse and its Display form: a valid version is
/// reported re-serialized canonically, an invalid one as `None`.
#[verifier::external_body]
pub(crate) fn parse_semver_normalized(s: &Vec<char>) -> (r: Option<Vec<char>>)
    ensures
        match r {
            Some(v) => semver_norm_of(s@) == Some(v@),
            None => semver_norm_of(s@) is None,
        },
{
    let text: String = s.iter().collect();
    match semver::Version::parse(&text) {
        Ok(v) => Some(v.to_string().chars().collect()),
        Err(_) => None,
    }
}

/// What lowercasing the given text yields: a function of the text alone.
pub uninterp spec fn lower_of(s: Seq<char>) -> Seq<char>;

/// Relies on str::to_lowercase: the result depends on the characters alone.
#[verifier::external_body]
pub(crate) fn to_lowercase_chars(s: &Vec<char>) -> (r: Vec<char>)
    ensures
        r@ == lower_of(s@),
{
    let text: String = s.iter().collect();
    text.to_lowercase().chars().collect()
}

} // verus!
