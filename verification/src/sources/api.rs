//! The decisions of the source registry's HTTP interface: how query
//! parameters are read and how errors are answered.
use vstd::prelude::*;
use crate::json::{json_string_map, to_json_string_map};
use crate::observation::meta_texts;
use crate::sources::descriptor::{validation_text, SourceKind, SourceStatus, SourceValidationError};
use crate::text::{append_chars, chars_of, string_of};

verus! {

/// Query parameters of `GET /sources`.
#[derive(Debug)]
pub struct ListParams {
    pub kind: Option<String>,
    pub status: Option<String>,
    pub limit: Option<u32>,
    pub cursor: Option<String>,
}

/// An error of the HTTP interface.
#[derive(Debug)]
pub enum ApiError {
    NotFound(String),
    Conflict(String),
    Invalid(String),
    Internal(String),
}

/// The kind a query names.
pub open spec fn kind_named(s: Seq<char>) -> Option<SourceKind> {
    if s == "website"@ {
        Some(SourceKind::Website)
    } else if s == "onion_service"@ {
        Some(SourceKind::OnionService)
    } else if s == "api"@ {
        Some(SourceKind::Api)
    } else if s == "repository"@ {
        Some(SourceKind::Repository)
    } else if s == "document"@ {
        Some(SourceKind::Document)
    } else if s == "rss_feed"@ {
        Some(SourceKind::RssFeed)
    } else if s == "local_file"@ {
        Some(SourceKind::LocalFile)
    } else if s == "paper"@ {
        Some(SourceKind::Paper)
    } else {
        None
    }
}

/// The status a query names.
pub open spec fn status_named(s: Seq<char>) -> Option<SourceStatus> {
    if s == "active"@ {
        Some(SourceStatus::Active)
    } else if s == "paused"@ {
        Some(SourceStatus::Paused)
    } else if s == "errored"@ {
        Some(SourceStatus::Errored)
    } else {
        None
    }
}

/// Reads a kind from its `snake_case` name; any other text is refused with
/// `unknown kind: <text>`.
pub fn parse_kind(s: &str) -> (r: Result<SourceKind, String>)
    ensures
        match kind_named(s@) {
            Some(k) => r == Ok::<SourceKind, String>(k),
            None => r matches Err(m) && m@ == "unknown kind: "@ + s@,
        },
{
    proof {
        reveal_strlit("website");
        reveal_strlit("onion_service");
        reveal_strlit("api");
        reveal_strlit("repository");
        reveal_strlit("document");
        reveal_strlit("rss_feed");
        reveal_strlit("local_file");
        reveal_strlit("paper");
    }
    let c = chars_of(s);
    let c = c.as_slice();
    if crate::text::same_chars(c, chars_of("website").as_slice()) {
        Ok(SourceKind::Website)
    } else if crate::text::same_chars(c, chars_of("onion_service").as_slice()) {
        Ok(SourceKind::OnionService)
    } else if crate::text::same_chars(c, chars_of("api").as_slice()) {
        Ok(SourceKind::Api)
    } else if crate::text::same_chars(c, chars_of("repository").as_slice()) {
        Ok(SourceKind::Repository)
    } else if crate::text::same_chars(c, chars_of("document").as_slice()) {
        Ok(SourceKind::Document)
    } else if crate::text::same_chars(c, chars_of("rss_feed").as_slice()) {
        Ok(SourceKind::RssFeed)
    } else if crate::text::same_chars(c, chars_of("local_file").as_slice()) {
        Ok(SourceKind::LocalFile)
    } else if crate::text::same_chars(c, chars_of("paper").as_slice()) {
        Ok(SourceKind::Paper)
    } else {
        let mut m = string_of(chars_of("unknown kind: ").as_slice());
        append_chars(&mut m, c);
        Err(m)
    }
}

/// Reads a status from its lower-case name; any other text is refused
/// with `unknown status: <text>`.
pub fn parse_status(s: &str) -> (r: Result<SourceStatus, String>)
    ensures
        match status_named(s@) {
            Some(k) => r == Ok::<SourceStatus, String>(k),
            None => r matches Err(m) && m@ == "unknown status: "@ + s@,
        },
{
    proof {
        reveal_strlit("active");
        reveal_strlit("paused");
        reveal_strlit("errored");
    }
    let c = chars_of(s);
    let c = c.as_slice();
    if crate::text::same_chars(c, chars_of("active").as_slice()) {
        Ok(SourceStatus::Active)
    } else if crate::text::same_chars(c, chars_of("paused").as_slice()) {
        Ok(SourceStatus::Paused)
    } else if crate::text::same_chars(c, chars_of("errored").as_slice()) {
        Ok(SourceStatus::Errored)
    } else {
        let mut m = string_of(chars_of("unknown status: ").as_slice());
        append_chars(&mut m, c);
        Err(m)
    }
}

/// The text of an optional parameter (empty where absent).
pub open spec fn param_text(p: Option<String>) -> Seq<char> {
    match p {
        Some(s) => s@,
        None => seq![],
    }
}

/// The kind filter a parameter gives: `Some(None)` where it is absent,
/// `None` where it names no kind.
pub open spec fn kind_param(p: Option<String>) -> Option<Option<SourceKind>> {
    match p {
        None => Some(None),
        Some(k) => match kind_named(k@) {
            Some(x) => Some(Some(x)),
            None => None,
        },
    }
}

/// The status filter a parameter gives: `Some(None)` where it is absent,
/// `None` where it names no status.
pub open spec fn status_param(p: Option<String>) -> Option<Option<SourceStatus>> {
    match p {
        None => Some(None),
        Some(s) => match status_named(s@) {
            Some(x) => Some(Some(x)),
            None => None,
        },
    }
}

impl ListParams {
    /// The kind and status to list by: each absent where the query names
    /// none; a name that is not a kind (checked first) or not a status is
    /// answered `Invalid` with the parse message.
    pub fn filters(&self) -> (r: Result<(Option<SourceKind>, Option<SourceStatus>), ApiError>)
        ensures
            match kind_param(self.kind) {
                None => r matches Err(ApiError::Invalid(m)) && m@ == "unknown kind: "@ + param_text(self.kind),
                Some(k) => match status_param(self.status) {
                    None => r matches Err(ApiError::Invalid(m)) && m@ == "unknown status: "@ + param_text(self.status),
                    Some(s) => r matches Ok(v) && v == (k, s),
                },
            },
    {
        let kind = match &self.kind {
            Some(k) => match parse_kind(k.as_str()) {
                Ok(v) => Some(v),
                Err(m) => {
                    return Err(ApiError::Invalid(m));
                },
            },
            None => None,
        };
        let status = match &self.status {
            Some(s) => match parse_status(s.as_str()) {
                Ok(v) => Some(v),
                Err(m) => {
                    return Err(ApiError::Invalid(m));
                },
            },
            None => None,
        };
        Ok((kind, status))
    }
}

/// The HTTP status of an error.
pub open spec fn status_code_of(e: ApiError) -> u16 {
    match e {
        ApiError::NotFound(_) => 404,
        ApiError::Conflict(_) => 409,
        ApiError::Invalid(_) => 422,
        ApiError::Internal(_) => 500,
    }
}

/// The error tag of an error's JSON body.
pub open spec fn tag_of(e: ApiError) -> Seq<char> {
    match e {
        ApiError::NotFound(_) => "not_found"@,
        ApiError::Conflict(_) => "conflict"@,
        ApiError::Invalid(_) => "invalid"@,
        ApiError::Internal(_) => "internal"@,
    }
}

/// The message an error carries.
pub open spec fn message_of(e: ApiError) -> Seq<char> {
    match e {
        ApiError::NotFound(m) => m@,
        ApiError::Conflict(m) => m@,
        ApiError::Invalid(m) => m@,
        ApiError::Internal(m) => m@,
    }
}

impl ApiError {
    /// The error that a refused source is answered with: `Invalid`, with
    /// the validation message.
    pub fn from_validation(err: &SourceValidationError) -> (r: ApiError)
        ensures
            r matches ApiError::Invalid(m) && m@ == validation_text(*err),
    {
        ApiError::Invalid(err.to_text())
    }

    /// The error that a bad query is answered with: `Invalid`, with the
    /// message.
    pub fn from_message(message: String) -> (r: ApiError)
        ensures
            r matches ApiError::Invalid(m) && m@ == message@,
    {
        ApiError::Invalid(message)
    }

    /// The HTTP status of the answer: 404, 409, 422 or 500.
    pub fn status_code(&self) -> (r: u16)
        ensures
            r == status_code_of(*self),
    {
        match self {
            ApiError::NotFound(_) => 404,
            ApiError::Conflict(_) => 409,
            ApiError::Invalid(_) => 422,
            ApiError::Internal(_) => 500,
        }
    }

    /// The JSON body of the answer: `{"error": <tag>, "message": <text>}`.
    pub fn body(&self) -> (r: String)
        ensures
            r@ == json_string_map(seq![("error"@, tag_of(*self)), ("message"@, message_of(*self))]),
    {
        let (tag, msg) = match self {
            ApiError::NotFound(m) => ("not_found", m),
            ApiError::Conflict(m) => ("conflict", m),
            ApiError::Invalid(m) => ("invalid", m),
            ApiError::Internal(m) => ("internal", m),
        };
        let entries = vec![
            (string_of(chars_of("error").as_slice()), string_of(chars_of(tag).as_slice())),
            (string_of(chars_of("message").as_slice()), string_of(chars_of(msg.as_str()).as_slice())),
        ];
        assert(meta_texts(entries@) =~= seq![("error"@, tag_of(*self)), ("message"@, message_of(*self))]);
        to_json_string_map(&entries)
    }
}

} // verus!
