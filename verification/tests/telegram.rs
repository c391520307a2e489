use order_dashboard::models::{BroadcastAttachment, BroadcastPart, ClientTelegramChat, TelegramChat, TelegramResult};
use order_dashboard::telegram::{
    api, broadcast_parts, broadcast_sends, chat_recipients, client_ids, find_part, group_chat_id,
    group_fallback_name, message_params, mime_from_ext, part_kind, recipient_kind, reply_result,
    send_record, tally_records, unique_chats, BroadcastTally, PartKind, RecipientKind, SendOutcome,
};

#[test]
fn method_urls() {
    assert_eq!(api("123:abc", "getMe"), "https://api.telegram.org/bot123:abc/getMe");
}

#[test]
fn mime_types_by_extension() {
    assert_eq!(mime_from_ext("JPG"), "image/jpeg");
    assert_eq!(mime_from_ext("jpeg"), "image/jpeg");
    assert_eq!(mime_from_ext("Pdf"), "application/pdf");
    assert_eq!(mime_from_ext("zip"), "application/zip");
    assert_eq!(mime_from_ext("exe"), "application/octet-stream");
    assert_eq!(mime_from_ext(""), "application/octet-stream");
}

#[test]
fn message_parameters() {
    let p = message_params("-100", "hi", "", false);
    assert_eq!(p, vec![("chat_id", "-100".to_string()), ("text", "hi".to_string())]);
    let q = message_params("1", "t", "HTML", true);
    assert_eq!(
        q,
        vec![
            ("chat_id", "1".to_string()),
            ("text", "t".to_string()),
            ("parse_mode", "HTML".to_string()),
            ("disable_web_page_preview", "true".to_string()),
        ]
    );
}

#[test]
fn part_kinds() {
    assert_eq!(part_kind("photo"), PartKind::Photo);
    assert_eq!(part_kind("document"), PartKind::Document);
    assert_eq!(part_kind("text"), PartKind::Text);
    assert_eq!(part_kind("Photo"), PartKind::Text);
}

#[test]
fn replies() {
    let ok = reply_result(Some(true), Some(9), Some("ignored".to_string()));
    assert!(ok.ok);
    assert_eq!(ok.message_id, Some(9));
    assert_eq!(ok.error, None);
    let bad = reply_result(Some(false), Some(9), Some("chat not found".to_string()));
    assert!(!bad.ok);
    assert_eq!(bad.message_id, None);
    assert_eq!(bad.error.as_deref(), Some("chat not found"));
    let none = reply_result(None, None, None);
    assert_eq!(none.error.as_deref(), Some("Telegram error"));
}

#[test]
fn send_records_and_tally() {
    let a = send_record(SendOutcome::PartMissing);
    assert_eq!((a.status, a.error.as_str(), a.message_id), ("failed", "Part not found", None));
    let b = send_record(SendOutcome::Answered(TelegramResult { ok: true, message_id: Some(3), error: None }));
    assert_eq!((b.status, b.error.as_str(), b.message_id), ("sent", "", Some(3)));
    let c = send_record(SendOutcome::Answered(TelegramResult { ok: false, message_id: Some(3), error: None }));
    assert_eq!((c.status, c.error.as_str(), c.message_id), ("failed", "Telegram error", None));
    let d = send_record(SendOutcome::Failed("timeout".to_string()));
    assert_eq!((d.status, d.error.as_str()), ("failed", "timeout"));

    let mut t = BroadcastTally::new();
    assert_eq!(t.final_status(), "done");
    t.count(&b);
    assert_eq!(t.final_status(), "done");
    t.count(&a);
    t.count(&d);
    assert_eq!((t.sent, t.failed), (1, 2));
    assert_eq!(t.final_status(), "partial_fail");
}

#[test]
fn recipient_kinds() {
    assert_eq!(recipient_kind("group"), Ok(RecipientKind::Group));
    assert_eq!(recipient_kind("clients"), Ok(RecipientKind::Clients));
    assert_eq!(recipient_kind("tag"), Ok(RecipientKind::Tag));
    assert_eq!(recipient_kind("all"), Err("Unknown recipient type: all".to_string()));
}

#[test]
fn group_ids() {
    assert_eq!(group_chat_id("-1001234567890"), Ok(-1001234567890));
    assert_eq!(group_chat_id("+42"), Ok(42));
    assert_eq!(group_chat_id("-9223372036854775808"), Ok(i64::MIN));
    assert_eq!(group_chat_id("9223372036854775808"), Err("Invalid group chat_id".to_string()));
    assert_eq!(group_chat_id("-+1"), Err("Invalid group chat_id".to_string()));
    assert_eq!(group_chat_id(""), Err("Invalid group chat_id".to_string()));
    assert_eq!(group_fallback_name(-100), "Group -100");
    assert_eq!(group_fallback_name(7), "Group 7");
}

#[test]
fn client_id_lists() {
    assert_eq!(client_ids(" a, b ,,c "), vec!["a".to_string(), "b".to_string(), "c".to_string()]);
    assert_eq!(client_ids(""), Vec::<String>::new());
    assert_eq!(client_ids("\u{3000}x\t"), vec!["x".to_string()]);
}

fn chat(chat_id: &str, label: &str) -> ClientTelegramChat {
    ClientTelegramChat { id: String::new(), client_id: String::new(), chat_id: chat_id.to_string(), label: label.to_string() }
}

#[test]
fn client_chat_recipients() {
    let r = chat_recipients("Acme", &[chat("11", ""), chat("x", "bad"), chat("0", "zero"), chat("-5", "desk")]);
    assert_eq!(r, vec![(11, "Acme".to_string()), (-5, "Acme (desk)".to_string())]);
}

fn tg(id: i64, kind: &str) -> TelegramChat {
    TelegramChat { id, kind: kind.to_string(), title: None, username: None }
}

#[test]
fn unique_chats_keep_first_sight() {
    let r = unique_chats(vec![tg(1, "group"), tg(2, "private"), tg(1, "channel"), tg(3, "group"), tg(2, "x")]);
    let got: Vec<(i64, String)> = r.into_iter().map(|c| (c.id, c.kind)).collect();
    assert_eq!(got, vec![(1, "group".to_string()), (2, "private".to_string()), (3, "group".to_string())]);
}

#[test]
fn broadcast_parts_text_first() {
    let atts = vec![
        BroadcastAttachment { kind: "photo".into(), file_path: "/a.jpg".into(), caption: "A".into() },
        BroadcastAttachment { kind: "document".into(), file_path: "/b.pdf".into(), caption: "".into() },
    ];
    let ids: Vec<String> = (0..3).map(|i| format!("p{}", i)).collect();
    let parts = broadcast_parts("b1", "hello", &atts, &ids);
    let got: Vec<(String, String, String, String, i32)> = parts
        .iter()
        .map(|p| (p.id.clone(), p.part_type.clone(), p.file_path.clone(), p.caption.clone(), p.sort_order))
        .collect();
    assert_eq!(
        got,
        vec![
            ("p0".into(), "text".into(), "".into(), "hello".into(), 0),
            ("p1".into(), "photo".into(), "/a.jpg".into(), "A".into(), 1),
            ("p2".into(), "document".into(), "/b.pdf".into(), "".into(), 2),
        ]
    );
    assert!(parts.iter().all(|p| p.broadcast_id == "b1"));
    let no_text = broadcast_parts("b1", "  \n", &atts, &ids);
    assert_eq!(no_text.len(), 2);
    assert_eq!((no_text[0].id.as_str(), no_text[0].sort_order), ("p0", 0));
}

#[test]
fn broadcast_sends_per_recipient_and_part() {
    let parts = vec![
        BroadcastPart { id: "p0".into(), broadcast_id: "b".into(), part_type: "text".into(), file_path: String::new(), caption: "x".into(), sort_order: 0 },
        BroadcastPart { id: "p1".into(), broadcast_id: "b".into(), part_type: "photo".into(), file_path: "/f".into(), caption: String::new(), sort_order: 1 },
    ];
    let recipients = vec![(10i64, "Ann".to_string()), (20i64, "Bob".to_string())];
    let ids: Vec<String> = (0..4).map(|i| format!("s{}", i)).collect();
    let sends = broadcast_sends("b", &recipients, &parts, &ids).unwrap();
    let got: Vec<(String, String, i64, String, String)> = sends
        .iter()
        .map(|s| (s.id.clone(), s.part_id.clone(), s.chat_id, s.client_name.clone(), s.status.clone()))
        .collect();
    assert_eq!(
        got,
        vec![
            ("s0".into(), "p0".into(), 10, "Ann".into(), "pending".into()),
            ("s1".into(), "p1".into(), 10, "Ann".into(), "pending".into()),
            ("s2".into(), "p0".into(), 20, "Bob".into(), "pending".into()),
            ("s3".into(), "p1".into(), 20, "Bob".into(), "pending".into()),
        ]
    );
    assert!(sends.iter().all(|s| s.message_id.is_none() && s.attempt_count == 0 && s.error_msg.is_empty()));
    assert_eq!(
        broadcast_sends("b", &[], &parts, &ids).unwrap_err(),
        "No recipients found. Check client Telegram chats are configured."
    );
}

#[test]
fn tally_counts_every_record() {
    let records = vec![
        send_record(SendOutcome::PartMissing),
        send_record(SendOutcome::Answered(TelegramResult { ok: true, message_id: Some(9), error: None })),
        send_record(SendOutcome::Failed("timeout".to_string())),
        send_record(SendOutcome::Answered(TelegramResult { ok: true, message_id: Some(10), error: None })),
        send_record(SendOutcome::Answered(TelegramResult { ok: false, message_id: None, error: None })),
    ];
    let t = tally_records(&records);
    assert_eq!((t.sent, t.failed), (2, 3));
    assert_eq!(t.sent + t.failed, records.len());
    let empty = tally_records(&Vec::new());
    assert_eq!((empty.sent, empty.failed), (0, 0));
}

#[test]
fn sends_find_their_part_by_id() {
    let part = |id: &str| BroadcastPart {
        id: id.into(),
        broadcast_id: "b".into(),
        part_type: "text".into(),
        file_path: String::new(),
        caption: String::new(),
        sort_order: 0,
    };
    let parts = vec![part("p0"), part("p1"), part("p1")];
    assert_eq!(find_part(&parts, "p1"), Some(1));
    assert_eq!(find_part(&parts, "p0"), Some(0));
    assert_eq!(find_part(&parts, "p9"), None);
    assert_eq!(find_part(&[], "p0"), None);
}
