//! The records that the chat service returns.
use vstd::prelude::*;

use crate::text::{has_infix, has_suffix, str_contains, str_ends_with};
use crate::window::Timestamp;

verus! {

/// The answer to a request for one page of groups.
#[derive(Debug, Clone)]
pub struct GroupsResponse {
    pub meta: ResponseMeta,
    pub response: Vec<Group>,
}

/// The metadata of an answer.
#[derive(Debug, Clone, Copy, PartialEq, Eq, Structural)]
pub struct ResponseMeta {
    pub code: i64,
}

/// A group's definition.
#[derive(Debug, Clone)]
pub struct Group {
    pub id: String,
    pub name: String,
    pub kind: String,
    pub description: String,
    pub creator_user_id: String,
    pub image_url: Option<String>,
    pub share_url: Option<String>,
    pub created_at: Timestamp,
    pub updated_at: Timestamp,
    pub members: Vec<GroupMember>,
}

/// A member of a [`Group`].
#[derive(Debug, Clone)]
pub struct GroupMember {
    pub user_id: String,
    pub nickname: String,
    pub muted: bool,
    pub image_url: String,
}

/// The answer to a request for one page of messages.
#[derive(Debug, Clone)]
pub struct GroupMessagesResponse {
    pub meta: ResponseMeta,
    pub response: GroupMessagesPage,
}

/// One page of messages of a [`Group`], newest first.
#[derive(Debug, Clone)]
pub struct GroupMessagesPage {
    pub count: i64,
    pub messages: Vec<Message>,
}

/// A message in a [`Group`].
#[derive(Debug, Clone)]
pub struct Message {
    pub id: String,
    pub source_guid: String,
    pub created_at: Timestamp,
    pub user_id: String,
    pub group_id: String,
    pub name: String,
    pub avatar_url: Option<String>,
    pub text: Option<String>,
    pub system: bool,
    /// The identifiers of the users who favorited the message.
    pub favorited_by: Vec<String>,
    pub attachments: Vec<MessageAttachment>,
}

/// An attachment on a [`Message`].
#[derive(Debug, Clone)]
pub enum MessageAttachment {
    Image { url: String },
    LinkedImage { url: String },
    Video { url: String, preview_url: String },
    File { url: String },
    Location { lat: String, lon: String, name: String },
    Split { token: String },
    Emoji { placeholder: String, charmap: Vec<Vec<String>> },
    Reply { user_id: String, reply_id: String, base_reply_id: String },
}

/// The identifier of the last (oldest) message of a page, if it has any.
pub open spec fn last_id(messages: Seq<Message>) -> Option<Seq<char>> {
    if messages.len() == 0 {
        None
    } else {
        Some(messages.last().id@)
    }
}

impl GroupMessagesPage {
    /// The cursor for the page that follows this one: the identifier of this
    /// page's last message, or `None` when the page is empty.
    pub fn next_page_before_id(&self) -> (r: Option<String>)
        ensures
            r matches Some(id) ==> last_id(self.messages@) == Some(id@),
            r is None ==> last_id(self.messages@) is None,
    {
        let n = self.messages.len();
        if n == 0 {
            None
        } else {
            Some(self.messages[n - 1].id.clone())
        }
    }
}

/// The extension under which a media URL is saved, if it is one of the
/// downloadable kinds.
pub open spec fn extension_of(url: Seq<char>) -> Option<Seq<char>> {
    if has_infix(url, ".jpeg."@) {
        Some("jpeg"@)
    } else if has_infix(url, ".png."@) {
        Some("png"@)
    } else if has_suffix(url, ".mp4"@) {
        Some("mp4"@)
    } else {
        None
    }
}

impl MessageAttachment {
    /// The media URL of an image, linked image or video attachment.
    pub open spec fn media_url(&self) -> Option<Seq<char>> {
        match self {
            MessageAttachment::Image { url } => Some(url@),
            MessageAttachment::LinkedImage { url } => Some(url@),
            MessageAttachment::Video { url, .. } => Some(url@),
            _ => None,
        }
    }

    /// The URL and file extension under which this attachment is downloaded.
    pub open spec fn download_spec(&self) -> Option<(Seq<char>, Seq<char>)> {
        match self.media_url() {
            Some(url) => match extension_of(url) {
                Some(ext) => Some((url, ext)),
                None => None,
            },
            None => None,
        }
    }

    /// The URL to download and the file extension to save it under: only
    /// images, linked images and videos are downloaded, and only when the URL
    /// marks them as JPEG, PNG or MP4.
    pub fn get_download_url_and_ext(&self) -> (r: Option<(&str, &str)>)
        ensures
            r matches Some(p) ==> self.download_spec() == Some((p.0@, p.1@)),
            r is None ==> self.download_spec() is None,
    {
        let url = match self {
            MessageAttachment::Image { url } => url,
            MessageAttachment::LinkedImage { url } => url,
            MessageAttachment::Video { url, .. } => url,
            _ => return None,
        }.as_str();

        let ext = if str_contains(url, ".jpeg.") {
            "jpeg"
        } else if str_contains(url, ".png.") {
            "png"
        } else if str_ends_with(url, ".mp4") {
            "mp4"
        } else {
            return None;
        };

        Some((url, ext))
    }
}

} // verus!
