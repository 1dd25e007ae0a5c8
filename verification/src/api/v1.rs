//! Data-transfer objects of the service's JSON API, v1 schema generation:
//! opaque string identifiers and structured timestamps.
//!
//! These are plain value holders; nothing in the pipeline reads into them.
//! Serialization, and conversion from a calendar library's timestamp type to
//! [`DateTime`], live with the embedding application.

use vstd::prelude::*;

verus! {

/// An instant in time, as seconds since the Unix epoch plus a sub-second
/// nanosecond part.
#[derive(Clone, Copy, Debug, PartialEq, Eq, Structural)]
pub struct DateTime {
    pub unix_seconds: i64,
    pub nanoseconds: u32,
}

pub type StatusId = String;

pub type AccountId = String;

pub type MentionId = String;

pub type AttachmentId = String;

/// One status in a feed.
#[derive(Debug, PartialEq)]
pub struct Status {
    pub id: StatusId,
    pub uri: String,
    pub url: String,
    pub account: Account,
    pub in_reply_to_id: Option<StatusId>,
    pub in_reply_to_account_id: Option<AccountId>,
    pub reblog: Option<Box<Status>>,
    pub content: String,
    pub created_at: DateTime,
    pub reblogs_count: i32,
    pub favourites_count: i32,
    pub reblogged: Option<bool>,
    pub favourited: Option<bool>,
    pub sensitive: Option<bool>,
    pub spoiler_text: String,
    pub visibility: String,
    pub media_attachments: Vec<Attachment>,
    pub mentions: Vec<Mention>,
    pub tags: Vec<Tag>,
    pub application: Option<Application>,
    pub language: Option<String>,
}

/// A mention of another account inside a status.
#[derive(Clone, Debug, Default, PartialEq)]
pub struct Mention {
    pub id: MentionId,
    pub url: String,
    pub username: String,
    pub acct: String,
}

/// A hashtag attached to a status.
#[derive(Clone, Debug, Default, PartialEq)]
pub struct Tag {
    pub name: String,
    pub url: String,
}

/// The application a status was posted with.
#[derive(Clone, Debug, Default, PartialEq)]
pub struct Application {
    pub name: String,
    pub website: Option<String>,
}

/// An account on the service.
#[derive(Clone, Debug, PartialEq)]
pub struct Account {
    pub id: AccountId,
    pub username: String,
    pub acct: String,
    pub display_name: String,
    pub locked: bool,
    pub created_at: DateTime,
    pub followers_count: i32,
    pub following_count: i32,
    pub statuses_count: i32,
    pub note: String,
    pub url: String,
    pub avatar: String,
    pub avatar_static: String,
    pub header: String,
    pub header_static: String,
}

/// A media attachment of a status.
#[derive(Clone, Debug, Default, PartialEq)]
pub struct Attachment {
    pub id: AttachmentId,
    pub media_type: String,
    pub url: String,
    pub remote_url: Option<String>,
    pub preview_url: String,
    pub text_url: Option<String>,
}

/// A notification aimed at the authenticated account.
#[derive(Debug, PartialEq)]
pub struct Notification {
    pub id: i64,
    pub notification_type: String,
    pub created_at: DateTime,
    pub account: Account,
    pub status: Option<Status>,
}

} // verus!
