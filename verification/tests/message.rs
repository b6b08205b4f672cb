use message_hub::message::{
    send_failure_result, settle_send, Message, MessageReceiver, TextCard, TextCardMessage,
};
use message_hub::service::auth::check_token;
use message_hub::service::message::TextCardMessage as ServiceCard;
use message_hub::user::{User, UserService, USER_CACHE_TTL_SECS};
use message_hub::wx_corp::SendMessageResult;

fn record() -> Message {
    Message {
        id: Some(7),
        uuid: Some("u-1".to_string()),
        title: Some("Build".to_string()),
        content: Some("passed".to_string()),
        send_time: None,
    }
}

#[test]
fn text_card_new_at_builds_the_card() {
    let card = TextCardMessage::new_at("hub.example.com", "1000002", "zhangsan", &record(), "2024-01-02 03:04:05");
    assert_eq!(
        card,
        TextCardMessage {
            touser: Some("zhangsan".to_string()),
            toparty: None,
            totag: None,
            msgtype: "textcard".to_string(),
            agentid: "1000002".to_string(),
            textcard: TextCard {
                title: "Build".to_string(),
                description: "<div class=\"normal\">passed</div><div class=\"gray\">通知时间：2024-01-02 03:04:05</div>".to_string(),
                url: "https://hub.example.com/message/u-1".to_string(),
                btntxt: "查看详情".to_string(),
            },
            enable_id_trans: 0,
            enable_duplicate_check: 0,
            duplicate_check_interval: 0,
            uuid: Some("u-1".to_string()),
        }
    );
}

#[test]
fn text_card_without_title_has_empty_title() {
    let mut message = record();
    message.title = None;
    let card = TextCardMessage::new("d", "1", "u", &message);
    assert_eq!(card.textcard.title, "");
    assert!(card.textcard.description.starts_with("<div class=\"normal\">passed</div><div class=\"gray\">通知时间："));
    assert!(card.textcard.description.ends_with("</div>"));
    let prefix = "<div class=\"normal\">passed</div><div class=\"gray\">通知时间：";
    let time = &card.textcard.description[prefix.len()..card.textcard.description.len() - "</div>".len()];
    assert!(time.len() >= 19);
    let tail: Vec<char> = time.chars().rev().take(15).collect::<Vec<char>>().into_iter().rev().collect();
    for (i, c) in tail.iter().enumerate() {
        match i {
            0 | 3 => assert_eq!(*c, '-'),
            6 => assert_eq!(*c, ' '),
            9 | 12 => assert_eq!(*c, ':'),
            _ => assert!(c.is_ascii_digit()),
        }
    }
    assert_eq!(card.textcard.url, "https://d/message/u-1");
}

#[test]
fn service_text_card_new_builds_the_card() {
    let card = ServiceCard::new_at("d.com", "42", "lisi", "id-9", "Hi", "body", "T");
    assert_eq!(card.uuid, Some("id-9".to_string()));
    assert_eq!(card.touser, Some("lisi".to_string()));
    assert_eq!(card.agentid, "42");
    assert_eq!(card.msgtype, "textcard");
    assert_eq!(card.textcard.title, "Hi");
    assert_eq!(card.textcard.description, "<div class=\"normal\">body</div><div class=\"gray\">通知时间：T</div>");
    assert_eq!(card.textcard.url, "https://d.com/message/id-9");
    assert_eq!(card.textcard.btntxt, "查看详情");
    let now = ServiceCard::new("d.com", "42", "lisi", "id-9", "Hi", "body");
    assert_eq!(now.textcard.url, "https://d.com/message/id-9");
}

#[test]
fn records_of_a_send() {
    let message = Message::for_sending("u-2".to_string(), "t", "c", "2024-01-01 00:00:00".to_string());
    assert_eq!(message.id, None);
    assert_eq!(message.uuid, Some("u-2".to_string()));
    assert_eq!(message.title, Some("t".to_string()));
    assert_eq!(message.content, Some("c".to_string()));
    let receiver = MessageReceiver::for_message(12, "wangwu");
    assert_eq!(receiver, MessageReceiver { id: None, message_id: Some(12), user_id: Some("wangwu".to_string()) });
}

fn reply(errcode: i32) -> SendMessageResult {
    SendMessageResult {
        errcode,
        errmsg: "x".to_string(),
        invaliduser: Some("nobody".to_string()),
        invalidparty: None,
        invalidtag: None,
        unlicenseduser: None,
        msgid: None,
        response_code: None,
    }
}

#[test]
fn settle_send_keeps_records_only_on_success() {
    let ok = settle_send(Some(reply(0)));
    assert!(!ok.discard_records);
    assert_eq!(ok.response, reply(0));
    let refused = settle_send(Some(reply(81013)));
    assert!(refused.discard_records);
    assert_eq!(refused.response, reply(81013));
    let failed = settle_send(None);
    assert!(failed.discard_records);
    assert_eq!(failed.response, send_failure_result());
    assert_eq!(failed.response.errcode, -1);
    assert_eq!(failed.response.errmsg, "消息发送失败");
    assert_eq!(failed.response.msgid, None);
    assert_eq!(failed.response.invaliduser, None);
}

#[test]
fn check_token_authenticates_known_tokens_only() {
    assert_eq!(check_token(Ok(Some("alice".to_string()))), (true, "alice".to_string()));
    assert_eq!(check_token(Ok(None)), (false, "auth failed".to_string()));
    assert_eq!(check_token(Err(())), (false, "auth failed".to_string()));
}

fn user(errcode: i32) -> User {
    User {
        errcode,
        errmsg: if errcode == 0 { "ok".to_string() } else { "invalid userid".to_string() },
        userid: Some("zhangsan".to_string()),
        name: Some("张三".to_string()),
        department: Some(vec!["1".to_string()]),
        order: None,
        position: None,
        mobile: None,
        gender: Some("1".to_string()),
        email: None,
        biz_mail: None,
        is_leader_in_dept: None,
        direct_leader: Some(vec![3]),
        avatar: None,
        thumb_avatar: None,
        telephone: None,
        alias: None,
        status: Some(1),
        address: None,
        open_userid: None,
        main_department: None,
    }
}

#[test]
fn user_cache_key_and_acceptance() {
    assert_eq!(UserService::cache_key("zhangsan"), "App:Message:U:zhangsan");
    assert_eq!(USER_CACHE_TTL_SECS, 1800);
    assert_eq!(UserService::accept_fetched(user(0)), Ok(user(0)));
    assert_eq!(UserService::accept_fetched(user(60111)), Err("invalid userid".to_string()));
}
