//! Text-card notifications and the records kept of the messages sent through
//! the hub.
use vstd::prelude::*;
use vstd::string::StringExecFns;

use crate::wx_corp::SendMessageResult;

verus! {

/// A message of type `textcard` for the WeChat Work message API.
#[derive(Debug, Clone, PartialEq, Eq)]
pub struct TextCardMessage {
    pub touser: Option<String>,
    pub toparty: Option<String>,
    pub totag: Option<String>,
    pub msgtype: String,
    pub agentid: String,
    pub textcard: TextCard,
    pub enable_id_trans: i32,
    pub enable_duplicate_check: i32,
    pub duplicate_check_interval: i32,
    pub uuid: Option<String>,
}

/// The card itself: title, HTML description, link and button text.
#[derive(Debug, Clone, PartialEq, Eq)]
pub struct TextCard {
    pub title: String,
    pub description: String,
    pub url: String,
    pub btntxt: String,
}

/// The record of a message; `send_time` is the text of the time it was sent.
#[derive(Debug, Clone, PartialEq, Eq)]
pub struct Message {
    pub id: Option<i64>,
    pub uuid: Option<String>,
    pub title: Option<String>,
    pub content: Option<String>,
    pub send_time: Option<String>,
}

/// The record of who a message was sent to.
#[derive(Debug, Clone, PartialEq, Eq)]
pub struct MessageReceiver {
    pub id: Option<i64>,
    pub message_id: Option<u64>,
    pub user_id: Option<String>,
}

/// The outcome of a send once the API has answered (or failed to): the
/// answer given to the caller, and whether the records written for the
/// message are to be deleted before the transaction commits.
#[derive(Debug, Clone, PartialEq, Eq)]
pub struct SendSettlement {
    pub response: SendMessageResult,
    pub discard_records: bool,
}

/// The HTML description of a card: the content, then the time of the notice.
pub open spec fn card_description(content: Seq<char>, time: Seq<char>) -> Seq<char> {
    "<div class=\"normal\">"@ + content + "</div><div class=\"gray\">通知时间："@ + time
        + "</div>"@
}

/// The link of a card: the hub's page for the message.
pub open spec fn card_url(domain: Seq<char>, uuid: Seq<char>) -> Seq<char> {
    "https://"@ + domain + "/message/"@ + uuid
}

/// The link of a card is the hub's message address followed by the whole
/// message id: the part before the id does not depend on the id, and the
/// id stands unchanged at the end.
pub proof fn lemma_card_url_parts(domain: Seq<char>, uuid: Seq<char>)
    ensures
        card_url(domain, uuid).len() == ("https://"@ + domain + "/message/"@).len() + uuid.len(),
        card_url(domain, uuid).subrange(0, ("https://"@ + domain + "/message/"@).len() as int) == "https://"@
            + domain + "/message/"@,
        card_url(domain, uuid).subrange(
            ("https://"@ + domain + "/message/"@).len() as int,
            card_url(domain, uuid).len() as int,
        ) == uuid,
{
    let head = "https://"@ + domain + "/message/"@;
    assert(card_url(domain, uuid) =~= head + uuid);
    assert((head + uuid).subrange(0, head.len() as int) =~= head);
    assert((head + uuid).subrange(head.len() as int, (head + uuid).len() as int) =~= uuid);
}

/// The description of a card holds the whole content and the whole notice
/// time, each in its place between fixed markup.
pub proof fn lemma_card_description_parts(content: Seq<char>, time: Seq<char>)
    ensures
        ({
            let open = "<div class=\"normal\">"@;
            let middle = "</div><div class=\"gray\">通知时间："@;
            let close = "</div>"@;
            let d = card_description(content, time);
            let a = open.len() as int;
            let b = a + content.len();
            let c = b + middle.len();
            let e = c + time.len();
            &&& d.len() == e + close.len()
            &&& d.subrange(0, a) == open
            &&& d.subrange(a, b) == content
            &&& d.subrange(b, c) == middle
            &&& d.subrange(c, e) == time
            &&& d.subrange(e, d.len() as int) == close
        }),
{
    let open = "<div class=\"normal\">"@;
    let middle = "</div><div class=\"gray\">通知时间："@;
    let close = "</div>"@;
    let d = card_description(content, time);
    assert(d =~= open + content + middle + time + close);
    let a = open.len() as int;
    let b = a + content.len();
    let c = b + middle.len();
    let e = c + time.len();
    assert(d.subrange(0, a) =~= open);
    assert(d.subrange(a, b) =~= content);
    assert(d.subrange(b, c) =~= middle);
    assert(d.subrange(c, e) =~= time);
    assert(d.subrange(e, d.len() as int) =~= close);
}

/// The card that goes to `user` of application `app_id` with the given title,
/// content, message id and notice time; `uuid` is the card's own id field.
pub open spec fn is_card_for(
    card: TextCardMessage,
    domain: Seq<char>,
    app_id: Seq<char>,
    user: Seq<char>,
    uuid: Seq<char>,
    title: Seq<char>,
    content: Seq<char>,
    time: Seq<char>,
) -> bool {
    &&& card.touser matches Some(u) && u@ == user
    &&& card.toparty is None
    &&& card.totag is None
    &&& card.msgtype@ == "textcard"@
    &&& card.agentid@ == app_id
    &&& card.textcard.title@ == title
    &&& card.textcard.description@ == card_description(content, time)
    &&& card.textcard.url@ == card_url(domain, uuid)
    &&& card.textcard.btntxt@ == "查看详情"@
    &&& card.enable_id_trans == 0
    &&& card.enable_duplicate_check == 0
    &&& card.duplicate_check_interval == 0
}

/// An ASCII decimal digit.
pub open spec fn is_digit(c: char) -> bool {
    '0' <= c <= '9'
}

/// The shape of a time printed with `%Y-%m-%d %H:%M:%S`: a year of at least
/// four characters, then `-MM-DD HH:MM:SS` in two-digit fields.
pub open spec fn is_clock_text(t: Seq<char>) -> bool {
    let n = t.len() as int;
    &&& t.len() >= 19
    &&& t[n - 15] == '-' && is_digit(t[n - 14]) && is_digit(t[n - 13])
    &&& t[n - 12] == '-' && is_digit(t[n - 11]) && is_digit(t[n - 10])
    &&& t[n - 9] == ' ' && is_digit(t[n - 8]) && is_digit(t[n - 7])
    &&& t[n - 6] == ':' && is_digit(t[n - 5]) && is_digit(t[n - 4])
    &&& t[n - 3] == ':' && is_digit(t[n - 2]) && is_digit(t[n - 1])
}

/// The local time, formatted `%Y-%m-%d %H:%M:%S`.
///
/// `chrono::Local::now().format(..)` printed. Claimed: the shape of the
/// text, as chrono's formatter writes it (the year in at least four
/// characters, the other fields zero-padded to two digits). Which time it is
/// depends on the clock and the machine's time zone and is not claimed.
#[verifier::external_body]
pub(crate) fn local_time_text() -> (r: String)
    ensures
        is_clock_text(r@),
{
    chrono::Local::now().format("%Y-%m-%d %H:%M:%S").to_string()
}

pub(crate) fn build_description(content: &str, time: &str) -> (r: String)
    ensures
        r@ == card_description(content@, time@),
{
    let mut text = String::from_str("<div class=\"normal\">");
    text.append(content);
    text.append("</div><div class=\"gray\">通知时间：");
    text.append(time);
    text.append("</div>");
    text
}

pub(crate) fn build_url(domain: &str, uuid: &str) -> (r: String)
    ensures
        r@ == card_url(domain@, uuid@),
{
    let mut text = String::from_str("https://");
    text.append(domain);
    text.append("/message/");
    text.append(uuid);
    text
}

fn build_card(
    domain: &str,
    app_id: &str,
    user: &str,
    uuid: &str,
    title: String,
    content: &str,
    time: &str,
) -> (r: TextCardMessage)
    ensures
        is_card_for(r, domain@, app_id@, user@, uuid@, title@, content@, time@),
        r.uuid is None,
{
    TextCardMessage {
        uuid: None,
        touser: Some(String::from_str(user)),
        toparty: None,
        totag: None,
        msgtype: String::from_str("textcard"),
        agentid: String::from_str(app_id),
        textcard: TextCard {
            title,
            description: build_description(content, time),
            url: build_url(domain, uuid),
            btntxt: String::from_str("查看详情"),
        },
        enable_id_trans: 0,
        enable_duplicate_check: 0,
        duplicate_check_interval: 0,
    }
}

/// The title of a message, empty where it has none.
pub open spec fn title_or_empty(title: Option<String>) -> Seq<char> {
    match title {
        Some(t) => t@,
        None => Seq::empty(),
    }
}

impl TextCardMessage {
    /// The card that announces `message` to `user`, stamped with the notice
    /// time `time`. The message must have an id and a content.
    pub fn new_at(domain: &str, app_id: &str, user: &str, message: &Message, time: &str) -> (r:
        TextCardMessage)
        requires
            message.uuid is Some,
            message.content is Some,
        ensures
            is_card_for(
                r,
                domain@,
                app_id@,
                user@,
                message.uuid->0@,
                title_or_empty(message.title),
                message.content->0@,
                time@,
            ),
            r.uuid == message.uuid,
    {
        let title = match &message.title {
            Some(t) => t.clone(),
            None => String::new(),
        };
        let uuid = match &message.uuid {
            Some(u) => u,
            None => unreached(),
        };
        let content = match &message.content {
            Some(c) => c,
            None => unreached(),
        };
        let mut card = build_card(domain, app_id, user, uuid.as_str(), title, content.as_str(), time);
        card.uuid = Some(uuid.clone());
        card
    }

    /// The card that announces `message` to `user`, stamped with the current
    /// local time. The message must have an id and a content.
    pub fn new(domain: &str, app_id: &str, user: &str, message: &Message) -> (r: TextCardMessage)
        requires
            message.uuid is Some,
            message.content is Some,
        ensures
            exists|time: Seq<char>|
                is_clock_text(time) && #[trigger] is_card_for(
                    r,
                    domain@,
                    app_id@,
                    user@,
                    message.uuid->0@,
                    title_or_empty(message.title),
                    message.content->0@,
                    time,
                ),
            r.uuid == message.uuid,
    {
        let time = local_time_text();
        TextCardMessage::new_at(domain, app_id, user, message, time.as_str())
    }
}

impl Message {
    /// The record of a message about to be sent: no row id yet, the given
    /// id, title, content and send time.
    pub fn for_sending(uuid: String, title: &str, content: &str, send_time: String) -> (r: Message)
        ensures
            r.id is None,
            r.uuid == Some(uuid),
            r.title matches Some(t) && t@ == title@,
            r.content matches Some(c) && c@ == content@,
            r.send_time == Some(send_time),
    {
        Message {
            id: None,
            uuid: Some(uuid),
            title: Some(String::from_str(title)),
            content: Some(String::from_str(content)),
            send_time: Some(send_time),
        }
    }
}

impl MessageReceiver {
    /// The record that message `message_id` went to `username`.
    pub fn for_message(message_id: u64, username: &str) -> (r: MessageReceiver)
        ensures
            r.id is None,
            r.message_id == Some(message_id),
            r.user_id matches Some(u) && u@ == username@,
    {
        MessageReceiver { id: None, message_id: Some(message_id), user_id: Some(String::from_str(username)) }
    }
}

/// The text of the answer to a send that failed.
pub open spec fn send_failure_text() -> Seq<char> {
    "消息发送失败"@
}

/// The answer given when the API could not be reached: error code -1 and
/// nothing else.
pub fn send_failure_result() -> (r: SendMessageResult)
    ensures
        r.errcode == -1,
        r.errmsg@ == send_failure_text(),
        r.invaliduser is None,
        r.invalidparty is None,
        r.invalidtag is None,
        r.unlicenseduser is None,
        r.msgid is None,
        r.response_code is None,
{
    SendMessageResult {
        errcode: -1,
        errmsg: String::from_str("消息发送失败"),
        invaliduser: None,
        invalidparty: None,
        invalidtag: None,
        unlicenseduser: None,
        msgid: None,
        response_code: None,
    }
}

/// Settles a send on the API's answer (`None` where the request failed): the
/// records of the message are kept exactly when the API reports success, and
/// the caller is answered with the API's reply, or with the failure answer
/// where there was none.
pub fn settle_send(reply: Option<SendMessageResult>) -> (r: SendSettlement)
    ensures
        r.discard_records == !(reply matches Some(s) && s.errcode == 0),
        reply matches Some(s) ==> r.response == s,
        reply is None ==> {
            &&& r.response.errcode == -1
            &&& r.response.errmsg@ == send_failure_text()
            &&& r.response.invaliduser is None
            &&& r.response.invalidparty is None
            &&& r.response.invalidtag is None
            &&& r.response.unlicenseduser is None
            &&& r.response.msgid is None
            &&& r.response.response_code is None
        },
{
    match reply {
        Some(result) => {
            let discard = !result.is_success();
            SendSettlement { response: result, discard_records: discard }
        },
        None => SendSettlement { response: send_failure_result(), discard_records: true },
    }
}

} // verus!
