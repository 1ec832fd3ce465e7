//! What can be collected from: the kinds of sources, how collection is
//! routed, and the checks a submitted source passes.
use serde_json::Value as SerdeValue;
use url::Url;
use vstd::prelude::*;
use crate::text::{append_chars, char_index, char_index_exec, chars_of, lemma_char_index, string_of, trim, trimmed};

verus! {

/// Categories of external information the platform collects from.
#[derive(Debug, Clone, Copy, PartialEq, Eq, Hash, Structural)]
pub enum SourceKind {
    /// A regular website over HTTP(S).
    Website,
    /// A `.onion` service via Tor.
    OnionService,
    /// A documented HTTP API.
    Api,
    /// A Git repository, `owner/repo`.
    Repository,
    /// A PDF or office document at a URL or local path.
    Document,
    /// An RSS or Atom feed.
    RssFeed,
    /// A file on the local filesystem.
    LocalFile,
    /// A research paper.
    Paper,
}

impl SourceKind {
    /// Every kind, in a stable order.
    pub fn all() -> (r: Vec<SourceKind>)
        ensures
            r@ == seq![
                SourceKind::Website,
                SourceKind::OnionService,
                SourceKind::Api,
                SourceKind::Repository,
                SourceKind::Document,
                SourceKind::RssFeed,
                SourceKind::LocalFile,
                SourceKind::Paper,
            ],
    {
        let r = vec![
            SourceKind::Website,
            SourceKind::OnionService,
            SourceKind::Api,
            SourceKind::Repository,
            SourceKind::Document,
            SourceKind::RssFeed,
            SourceKind::LocalFile,
            SourceKind::Paper,
        ];
        assert(r@ =~= seq![
            SourceKind::Website,
            SourceKind::OnionService,
            SourceKind::Api,
            SourceKind::Repository,
            SourceKind::Document,
            SourceKind::RssFeed,
            SourceKind::LocalFile,
            SourceKind::Paper,
        ]);
        r
    }
}

/// The name of a kind as `Debug` shows it.
pub open spec fn kind_debug(k: SourceKind) -> Seq<char> {
    match k {
        SourceKind::Website => "Website"@,
        SourceKind::OnionService => "OnionService"@,
        SourceKind::Api => "Api"@,
        SourceKind::Repository => "Repository"@,
        SourceKind::Document => "Document"@,
        SourceKind::RssFeed => "RssFeed"@,
        SourceKind::LocalFile => "LocalFile"@,
        SourceKind::Paper => "Paper"@,
    }
}

/// The name of a kind as `Debug` shows it.
pub fn kind_debug_name(k: SourceKind) -> (r: &'static str)
    ensures
        r@ == kind_debug(k),
{
    match k {
        SourceKind::Website => "Website",
        SourceKind::OnionService => "OnionService",
        SourceKind::Api => "Api",
        SourceKind::Repository => "Repository",
        SourceKind::Document => "Document",
        SourceKind::RssFeed => "RssFeed",
        SourceKind::LocalFile => "LocalFile",
        SourceKind::Paper => "Paper",
    }
}

/// How collection attempts are routed.
#[derive(Debug, Clone, Copy, PartialEq, Eq, Structural)]
pub enum RoutingPolicy {
    /// The collector is picked from the source and the first response.
    Auto,
    Http,
    Browser,
}

impl Default for RoutingPolicy {
    fn default() -> (r: Self)
        ensures
            r == RoutingPolicy::Auto,
    {
        RoutingPolicy::Auto
    }
}

/// Hints on which collector to use.
#[derive(Debug, Clone)]
pub struct CollectionHints {
    /// Collect with a browser even where HTTP succeeds.
    pub requires_js: bool,
    /// Preferred `Accept-Language` value.
    pub preferred_locale: Option<String>,
    /// Cap on the bytes fetched.
    pub max_bytes: Option<u64>,
}

impl Default for CollectionHints {
    fn default() -> (r: Self)
        ensures
            !r.requires_js,
            r.preferred_locale is None,
            r.max_bytes is None,
    {
        CollectionHints { requires_js: false, preferred_locale: None, max_bytes: None }
    }
}

/// Lifecycle state of a source.
#[derive(Debug, Clone, Copy, PartialEq, Eq, Structural)]
pub enum SourceStatus {
    Active,
    Paused,
    Errored,
}

impl Default for SourceStatus {
    fn default() -> (r: Self)
        ensures
            r == SourceStatus::Active,
    {
        SourceStatus::Active
    }
}

/// A source as a client submits it.
#[derive(Debug)]
pub struct SourceInput {
    pub kind: SourceKind,
    pub display_name: String,
    pub locator: String,
    pub routing_policy: RoutingPolicy,
    pub hints: CollectionHints,
    pub status: SourceStatus,
    pub tags: Vec<String>,
    pub metadata: SerdeValue,
}

/// Why a submitted source was refused.
#[derive(Debug)]
pub enum SourceValidationError {
    EmptyDisplayName,
    EmptyLocator,
    InvalidUrl { kind: SourceKind, locator: String },
    InvalidRepositoryLocator(String),
    NotAbsoluteLocalPath(String),
    InvalidMetadata(String),
}

/// What `<str as Debug>::fmt` writes for a text: the text in double
/// quotes, with quotes, backslashes and unprintable characters escaped.
pub uninterp spec fn debug_quoted(s: Seq<char>) -> Seq<char>;

/// Whether every character is printable ASCII (space to `~`) other than
/// a double quote or a backslash: what `Debug` writes without escaping.
pub open spec fn plain_ascii(s: Seq<char>) -> bool {
    forall|i: int|
        0 <= i < s.len() ==> 0x20 <= (#[trigger] s[i] as u32) <= 0x7e && s[i] != '"' && s[i] != '\\'
}

/// The `Debug` text of a string: quoted as it is where it is plain
/// ASCII, otherwise the named result.
pub open spec fn debug_str(s: Seq<char>) -> Seq<char> {
    if plain_ascii(s) {
        seq!['"'] + s + seq!['"']
    } else {
        debug_quoted(s)
    }
}

/// Calls `format!("{:?}", s)` (std's `Debug` for `str`). The text is named
/// `debug_quoted`; the contract adds that it is quoted, and that a text of
/// printable ASCII without quotes or backslashes is written as it is
/// between the quotes (std leaves those characters unescaped). How other
/// characters are escaped is not stated.
#[verifier::external_body]
pub(crate) fn debug_text(s: &str) -> (r: String)
    ensures
        r@ == debug_quoted(s@),
        plain_ascii(s@) ==> r@ == seq!['"'] + s@ + seq!['"'],
        r@ == debug_str(s@),
        r@.len() >= 2,
        r@[0] == '"',
        r@.last() == '"',
{
    format!("{:?}", s)
}

/// The message of a validation error (what its `Display` shows).
pub open spec fn validation_text(e: SourceValidationError) -> Seq<char> {
    match e {
        SourceValidationError::EmptyDisplayName => "display_name must not be empty"@,
        SourceValidationError::EmptyLocator => "locator must not be empty"@,
        SourceValidationError::InvalidUrl { kind, locator } => "locator "@ + debug_str(locator@)
            + " is not a valid URL for "@ + kind_debug(kind),
        SourceValidationError::InvalidRepositoryLocator(l) => "repository locator must be of the form owner/repo, got "@
            + debug_str(l@),
        SourceValidationError::NotAbsoluteLocalPath(l) => "local file locator must be an absolute path, got "@ + debug_str(
            l@,
        ),
        SourceValidationError::InvalidMetadata(m) => "invalid metadata JSON: "@ + m@,
    }
}

impl SourceValidationError {
    /// The message of the error.
    pub fn to_text(&self) -> (r: String)
        ensures
            r@ == validation_text(*self),
    {
        match self {
            SourceValidationError::EmptyDisplayName => string_of(chars_of("display_name must not be empty").as_slice()),
            SourceValidationError::EmptyLocator => string_of(chars_of("locator must not be empty").as_slice()),
            SourceValidationError::InvalidUrl { kind, locator } => {
                let mut s = string_of(chars_of("locator ").as_slice());
                append_chars(&mut s, chars_of(debug_text(locator.as_str()).as_str()).as_slice());
                append_chars(&mut s, chars_of(" is not a valid URL for ").as_slice());
                append_chars(&mut s, chars_of(kind_debug_name(*kind)).as_slice());
                s
            },
            SourceValidationError::InvalidRepositoryLocator(l) => {
                let mut s = string_of(chars_of("repository locator must be of the form owner/repo, got ").as_slice());
                append_chars(&mut s, chars_of(debug_text(l.as_str()).as_str()).as_slice());
                s
            },
            SourceValidationError::NotAbsoluteLocalPath(l) => {
                let mut s = string_of(chars_of("local file locator must be an absolute path, got ").as_slice());
                append_chars(&mut s, chars_of(debug_text(l.as_str()).as_str()).as_slice());
                s
            },
            SourceValidationError::InvalidMetadata(m) => {
                let mut s = string_of(chars_of("invalid metadata JSON: ").as_slice());
                append_chars(&mut s, chars_of(m.as_str()).as_slice());
                s
            },
        }
    }
}

/// Whether `url::Url::parse` accepts a text as an absolute URL.
pub uninterp spec fn url_accepts(s: Seq<char>) -> bool;

/// Calls `url::Url::parse`; whether it succeeds is named `url_accepts`.
#[verifier::external_body]
fn parses_as_url(s: &str) -> (r: bool)
    ensures
        r == url_accepts(s@),
{
    Url::parse(s).is_ok()
}

/// Calls `std::path::Path::is_absolute`. What counts as absolute depends on
/// the platform (on Unix: a leading `/`), so nothing is stated of the
/// result.
#[verifier::external_body]
fn path_is_absolute(s: &str) -> (r: bool) {
    std::path::Path::new(s).is_absolute()
}

/// Whether a repository locator is `owner/repo`: a non-empty owner, one
/// `/`, a non-empty repository name, and no further `/`.
pub open spec fn repository_locator_ok(l: Seq<char>) -> bool {
    match char_index(l, '/') {
        None => false,
        Some(i) => {
            let rest = l.subrange(i + 1, l.len() as int);
            i > 0 && rest.len() > 0 && char_index(rest, '/') is None
        },
    }
}

/// The outcome of checking `input`, given whether its locator parses as a
/// URL and whether it is an absolute path.
pub open spec fn check_outcome(
    kind: SourceKind,
    display_name: Seq<char>,
    locator: Seq<char>,
    url_ok: bool,
    absolute: bool,
) -> Option<SourceValidationErrorKind> {
    if trim(display_name).len() == 0 {
        Some(SourceValidationErrorKind::EmptyDisplayName)
    } else if trim(locator).len() == 0 {
        Some(SourceValidationErrorKind::EmptyLocator)
    } else {
        match kind {
            SourceKind::Website | SourceKind::OnionService | SourceKind::Api | SourceKind::RssFeed => if url_ok {
                None
            } else {
                Some(SourceValidationErrorKind::InvalidUrl)
            },
            SourceKind::Repository => if repository_locator_ok(locator) {
                None
            } else {
                Some(SourceValidationErrorKind::InvalidRepositoryLocator)
            },
            SourceKind::LocalFile => if absolute {
                None
            } else {
                Some(SourceValidationErrorKind::NotAbsoluteLocalPath)
            },
            SourceKind::Document | SourceKind::Paper => if url_ok || absolute {
                None
            } else {
                Some(SourceValidationErrorKind::InvalidUrl)
            },
        }
    }
}

/// Which validation error (without its fields).
#[derive(Debug, Clone, Copy, PartialEq, Eq, Structural)]
pub enum SourceValidationErrorKind {
    EmptyDisplayName,
    EmptyLocator,
    InvalidUrl,
    InvalidRepositoryLocator,
    NotAbsoluteLocalPath,
}

/// Whether `r` is the error of kind `k` for a source of `kind` at `locator`.
pub open spec fn is_error(r: Result<(), SourceValidationError>, k: SourceValidationErrorKind, kind: SourceKind, locator: Seq<char>) -> bool {
    match k {
        SourceValidationErrorKind::EmptyDisplayName => r matches Err(SourceValidationError::EmptyDisplayName),
        SourceValidationErrorKind::EmptyLocator => r matches Err(SourceValidationError::EmptyLocator),
        SourceValidationErrorKind::InvalidUrl => r matches Err(SourceValidationError::InvalidUrl { kind: k2, locator: l })
            && k2 == kind && l@ == locator,
        SourceValidationErrorKind::InvalidRepositoryLocator => r matches Err(
            SourceValidationError::InvalidRepositoryLocator(l),
        ) && l@ == locator,
        SourceValidationErrorKind::NotAbsoluteLocalPath => r matches Err(SourceValidationError::NotAbsoluteLocalPath(l))
            && l@ == locator,
    }
}

/// Whether the locator is `owner/repo`.
fn repository_ok(l: &str) -> (r: bool)
    ensures
        r == repository_locator_ok(l@),
{
    let c = chars_of(l);
    let c = c.as_slice();
    proof {
        lemma_char_index(c@, '/');
    }
    match char_index_exec(c, '/') {
        None => false,
        Some(i) => {
            let rest = &c[i + 1..c.len()];
            assert(rest@ =~= c@.subrange(i + 1, c@.len() as int));
            i > 0 && rest.len() > 0 && char_index_exec(rest, '/').is_none()
        },
    }
}

impl SourceInput {
    /// The check of this source, given whether its locator parses as a URL
    /// and whether it is an absolute path: the name and the locator must not
    /// be blank; a website, onion service, API or feed needs a URL; a
    /// repository `owner/repo`; a local file an absolute path; a document or
    /// paper either.
    pub fn check(&self, url_ok: bool, absolute: bool) -> (r: Result<(), SourceValidationError>)
        ensures
            match check_outcome(self.kind, self.display_name@, self.locator@, url_ok, absolute) {
                None => r is Ok,
                Some(k) => is_error(r, k, self.kind, self.locator@),
            },
    {
        let name = chars_of(self.display_name.as_str());
        if trimmed(name.as_slice()).len() == 0 {
            return Err(SourceValidationError::EmptyDisplayName);
        }
        let loc = chars_of(self.locator.as_str());
        if trimmed(loc.as_slice()).len() == 0 {
            return Err(SourceValidationError::EmptyLocator);
        }
        match self.kind {
            SourceKind::Website | SourceKind::OnionService | SourceKind::Api | SourceKind::RssFeed => {
                if !url_ok {
                    return Err(SourceValidationError::InvalidUrl { kind: self.kind, locator: self.locator.clone() });
                }
            },
            SourceKind::Repository => {
                if !repository_ok(self.locator.as_str()) {
                    return Err(SourceValidationError::InvalidRepositoryLocator(self.locator.clone()));
                }
            },
            SourceKind::LocalFile => {
                if !absolute {
                    return Err(SourceValidationError::NotAbsoluteLocalPath(self.locator.clone()));
                }
            },
            SourceKind::Document | SourceKind::Paper => {
                if !url_ok && !absolute {
                    return Err(SourceValidationError::InvalidUrl { kind: self.kind, locator: self.locator.clone() });
                }
            },
        }
        Ok(())
    }

    /// Validates this source. Whether the locator parses as a URL is
    /// `url_accepts`; whether it is an absolute path the platform decides,
    /// so the outcome is that of [`SourceInput::check`] for one of the two
    /// answers.
    pub fn validate(&self) -> (r: Result<(), SourceValidationError>)
        ensures
            exists|absolute: bool|
                match #[trigger] check_outcome(self.kind, self.display_name@, self.locator@, url_accepts(self.locator@), absolute) {
                    None => r is Ok,
                    Some(k) => is_error(r, k, self.kind, self.locator@),
                },
    {
        let url_ok = parses_as_url(self.locator.as_str());
        let absolute = path_is_absolute(self.locator.as_str());
        let r = self.check(url_ok, absolute);
        assert(match check_outcome(self.kind, self.display_name@, self.locator@, url_accepts(self.locator@), absolute) {
            None => r is Ok,
            Some(k) => is_error(r, k, self.kind, self.locator@),
        });
        r
    }
}

} // verus!
