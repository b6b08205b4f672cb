//! Text-card notifications built from a message's parts.
use vstd::prelude::*;
use vstd::string::StringExecFns;

use crate::message::{
    build_description, build_url, card_description, card_url, is_clock_text, local_time_text,
};

verus! {

/// A message of type `textcard` for the WeChat Work message API.
#[derive(Debug, Clone, PartialEq, Eq)]
pub struct TextCardMessage {
    pub touser: Option<String>,
    pub toparty: Option<String>,
    pub totag: Option<String>,
    pub msgtype: String,
    pub agentid: String,
    pub textcard: TextCard,
    pub enable_id_trans: i32,
    pub enable_duplicate_check: i32,
    pub duplicate_check_interval: i32,
    pub uuid: Option<String>,
}

/// The card itself: title, HTML description, link and button text.
#[derive(Debug, Clone, PartialEq, Eq)]
pub struct TextCard {
    pub title: String,
    pub description: String,
    pub url: String,
    pub btntxt: String,
}

/// The card that announces message `uuid` with `title` and `content` to
/// `user` of application `app_id`, stamped with the notice time `time`.
pub open spec fn is_card_for(
    card: TextCardMessage,
    domain: Seq<char>,
    app_id: Seq<char>,
    user: Seq<char>,
    uuid: Seq<char>,
    title: Seq<char>,
    content: Seq<char>,
    time: Seq<char>,
) -> bool {
    &&& card.uuid matches Some(u) && u@ == uuid
    &&& card.touser matches Some(u) && u@ == user
    &&& card.toparty is None
    &&& card.totag is None
    &&& card.msgtype@ == "textcard"@
    &&& card.agentid@ == app_id
    &&& card.textcard.title@ == title
    &&& card.textcard.description@ == card_description(content, time)
    &&& card.textcard.url@ == card_url(domain, uuid)
    &&& card.textcard.btntxt@ == "查看详情"@
    &&& card.enable_id_trans == 0
    &&& card.enable_duplicate_check == 0
    &&& card.duplicate_check_interval == 0
}

impl TextCardMessage {
    /// The card that announces message `uuid` with `title` and `content` to
    /// `user`, stamped with the notice time `time`.
    pub fn new_at(
        domain: &str,
        app_id: &str,
        user: &str,
        uuid: &str,
        title: &str,
        content: &str,
        time: &str,
    ) -> (r: TextCardMessage)
        ensures
            is_card_for(r, domain@, app_id@, user@, uuid@, title@, content@, time@),
    {
        TextCardMessage {
            uuid: Some(String::from_str(uuid)),
            touser: Some(String::from_str(user)),
            toparty: None,
            totag: None,
            msgtype: String::from_str("textcard"),
            agentid: String::from_str(app_id),
            textcard: TextCard {
                title: String::from_str(title),
                description: build_description(content, time),
                url: build_url(domain, uuid),
                btntxt: String::from_str("查看详情"),
            },
            enable_id_trans: 0,
            enable_duplicate_check: 0,
            duplicate_check_interval: 0,
        }
    }

    /// The card that announces message `uuid` with `title` and `content` to
    /// `user`, stamped with the current local time.
    pub fn new(domain: &str, app_id: &str, user: &str, uuid: &str, title: &str, content: &str) -> (r:
        TextCardMessage)
        ensures
            exists|time: Seq<char>|
                is_clock_text(time) && #[trigger] is_card_for(
                    r,
                    domain@,
                    app_id@,
                    user@,
                    uuid@,
                    title@,
                    content@,
                    time,
                ),
    {
        let time = local_time_text();
        TextCardMessage::new_at(domain, app_id, user, uuid, title, content, time.as_str())
    }
}

} // verus!
