//! Issue status vocabulary shared by the services.
use vstd::prelude::*;
use crate::text::{str_eq};

verus! {

broadcast use vstd::string::group_string_axioms;

/// `str::to_lowercase`: the Unicode lowercase mapping of a string.
pub uninterp spec fn unicode_lowercase(s: Seq<char>) -> Seq<char>;

/// Whether every character is ASCII.
pub open spec fn ascii_text(s: Seq<char>) -> bool {
    forall|i: int| 0 <= i < s.len() ==> (#[trigger] s[i] as u32) < 0x80
}

/// An ASCII character's lowercase form: `A` to `Z` become `a` to `z`,
/// every other character stays.
pub open spec fn ascii_lower(c: char) -> char {
    if 'A' <= c && c <= 'Z' {
        ((c as u32) + 32) as char
    } else {
        c
    }
}

/// The text with `A` to `Z` lowered.
pub open spec fn ascii_lowered(s: Seq<char>) -> Seq<char> {
    s.map_values(|c: char| ascii_lower(c))
}

/// `str::to_lowercase`. The Unicode mapping is named, not spelled out; on
/// ASCII text it lowers `A` to `Z` and keeps every other character, as the
/// Unicode lowercase mapping of the ASCII range does.
#[verifier::external_body]
pub(crate) fn lowercase(s: &str) -> (r: String)
    ensures
        r@ == unicode_lowercase(s@),
        ascii_text(s@) ==> r@ == ascii_lowered(s@),
{
    s.to_lowercase()
}

/// The lifecycle status stored on every issue.
#[derive(Debug, Clone, Copy, PartialEq, Eq, Structural)]
pub enum BaseStatus {
    Open,
    InProgress,
    Deferred,
    Closed,
}

impl BaseStatus {
    /// Whether the issue is closed.
    pub fn is_closed(&self) -> (r: bool)
        ensures
            r == (*self == BaseStatus::Closed),
    {
        match self {
            BaseStatus::Closed => true,
            _ => false,
        }
    }

    /// The stored spelling of a status.
    pub open spec fn spelling(self) -> Seq<char> {
        match self {
            BaseStatus::Open => "open"@,
            BaseStatus::InProgress => "in_progress"@,
            BaseStatus::Deferred => "deferred"@,
            BaseStatus::Closed => "closed"@,
        }
    }

    /// The stored spelling of a status.
    pub fn as_str(&self) -> (r: &'static str)
        ensures
            r@ == self.spelling(),
    {
        match self {
            BaseStatus::Open => "open",
            BaseStatus::InProgress => "in_progress",
            BaseStatus::Deferred => "deferred",
            BaseStatus::Closed => "closed",
        }
    }
}

/// The status a lowercased spelling names; anything unknown reads as open.
pub open spec fn status_named(t: Seq<char>) -> BaseStatus {
    if t == "open"@ {
        BaseStatus::Open
    } else if t == "in_progress"@ {
        BaseStatus::InProgress
    } else if t == "deferred"@ {
        BaseStatus::Deferred
    } else if t == "closed"@ {
        BaseStatus::Closed
    } else {
        BaseStatus::Open
    }
}

/// Parse a stored status, case-insensitively; unknown spellings fall back
/// to open.
pub fn parse_base_status(s: String) -> (r: BaseStatus)
    ensures
        r == status_named(unicode_lowercase(s@)),
        ascii_text(s@) ==> r == status_named(ascii_lowered(s@)),
{
    let t = lowercase(s.as_str());
    if str_eq(t.as_str(), "open") {
        BaseStatus::Open
    } else if str_eq(t.as_str(), "in_progress") {
        BaseStatus::InProgress
    } else if str_eq(t.as_str(), "deferred") {
        BaseStatus::Deferred
    } else if str_eq(t.as_str(), "closed") {
        BaseStatus::Closed
    } else {
        BaseStatus::Open
    }
}

} // verus!
