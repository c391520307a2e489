//! Telegram Bot API: method URLs, request parameters, reply handling,
//! broadcast recipients and delivery records.

use vstd::prelude::*;
use crate::decimal::{i64_decimal, parse_i64_chars, parse_signed, signed_decimal};
use crate::models::{BroadcastAttachment, BroadcastPart, BroadcastSend, ClientTelegramChat, TelegramChat, TelegramResult};
use crate::text::{
    all_ascii, ascii_lower, append_chars, append_str, chars_of, split_char, split_chars, str_eq,
    string_from_chars, to_lowercase, trim_chars, trimmed, unicode_lowercase,
};

verus! {

/// The URL of a Bot API method.
pub fn api(token: &str, method: &str) -> (r: String)
    ensures
        r@ == "https://api.telegram.org/bot"@ + token@ + "/"@ + method@,
{
    let mut v: Vec<char> = Vec::new();
    append_str(&mut v, "https://api.telegram.org/bot");
    append_str(&mut v, token);
    append_str(&mut v, "/");
    append_str(&mut v, method);
    assert(v@ =~= "https://api.telegram.org/bot"@ + token@ + "/"@ + method@);
    string_from_chars(v.as_slice())
}

/// The MIME type of a lowercased file extension.
pub open spec fn mime_of(ext: Seq<char>) -> Seq<char> {
    if ext == "jpg"@ || ext == "jpeg"@ {
        "image/jpeg"@
    } else if ext == "png"@ {
        "image/png"@
    } else if ext == "gif"@ {
        "image/gif"@
    } else if ext == "webp"@ {
        "image/webp"@
    } else if ext == "pdf"@ {
        "application/pdf"@
    } else if ext == "csv"@ {
        "text/csv"@
    } else if ext == "txt"@ {
        "text/plain"@
    } else if ext == "json"@ {
        "application/json"@
    } else if ext == "zip"@ {
        "application/zip"@
    } else {
        "application/octet-stream"@
    }
}

/// The MIME type of a file extension, compared without regard to case.
pub fn mime_from_ext(ext: &str) -> (r: &'static str)
    ensures
        r@ == mime_of(unicode_lowercase(ext@)),
        all_ascii(ext@) ==> r@ == mime_of(ascii_lower(ext@)),
{
    let l = to_lowercase(ext);
    let e = l.as_str();
    if str_eq(e, "jpg") || str_eq(e, "jpeg") {
        "image/jpeg"
    } else if str_eq(e, "png") {
        "image/png"
    } else if str_eq(e, "gif") {
        "image/gif"
    } else if str_eq(e, "webp") {
        "image/webp"
    } else if str_eq(e, "pdf") {
        "application/pdf"
    } else if str_eq(e, "csv") {
        "text/csv"
    } else if str_eq(e, "txt") {
        "text/plain"
    } else if str_eq(e, "json") {
        "application/json"
    } else if str_eq(e, "zip") {
        "application/zip"
    } else {
        "application/octet-stream"
    }
}

/// The form parameters of `sendMessage`: chat and text, then the parse
/// mode where one is given, then the preview switch where it is set.
pub open spec fn message_params_of(
    chat_id: Seq<char>,
    text: Seq<char>,
    parse_mode: Seq<char>,
    disable_preview: bool,
) -> Seq<(Seq<char>, Seq<char>)> {
    let base = seq![("chat_id"@, chat_id), ("text"@, text)];
    let with_mode = if parse_mode.len() > 0 {
        base.push(("parse_mode"@, parse_mode))
    } else {
        base
    };
    if disable_preview {
        with_mode.push(("disable_web_page_preview"@, "true"@))
    } else {
        with_mode
    }
}

/// Builds the form parameters of `sendMessage`.
pub fn message_params(chat_id: &str, text: &str, parse_mode: &str, disable_preview: bool) -> (r: Vec<(&'static str, String)>)
    ensures
        r@.map_values(|p: (&'static str, String)| (p.0@, p.1@)) == message_params_of(
            chat_id@,
            text@,
            parse_mode@,
            disable_preview,
        ),
{
    let mut params: Vec<(&'static str, String)> = Vec::new();
    params.push(("chat_id", string_from_chars(chars_of(chat_id).as_slice())));
    params.push(("text", string_from_chars(chars_of(text).as_slice())));
    if !parse_mode.is_empty() {
        params.push(("parse_mode", string_from_chars(chars_of(parse_mode).as_slice())));
    }
    if disable_preview {
        params.push(("disable_web_page_preview", string_from_chars(chars_of("true").as_slice())));
    }
    assert(params@.map_values(|p: (&'static str, String)| (p.0@, p.1@)) =~= message_params_of(
        chat_id@,
        text@,
        parse_mode@,
        disable_preview,
    ));
    params
}

/// How a broadcast part is delivered.
#[derive(Debug, Clone, Copy, PartialEq, Eq, Structural)]
pub enum PartKind {
    /// `sendPhoto` with the caption.
    Photo,
    /// `sendDocument` with the caption.
    Document,
    /// `sendMessage` with the caption as the text.
    Text,
}

/// The delivery of a part of type `part_type`: `"photo"` and `"document"`
/// send the file, anything else sends the caption as a message.
pub fn part_kind(part_type: &str) -> (r: PartKind)
    ensures
        r == (if part_type@ == "photo"@ {
            PartKind::Photo
        } else if part_type@ == "document"@ {
            PartKind::Document
        } else {
            PartKind::Text
        }),
{
    if str_eq(part_type, "photo") {
        PartKind::Photo
    } else if str_eq(part_type, "document") {
        PartKind::Document
    } else {
        PartKind::Text
    }
}

/// The outcome of a send from the reply's `ok`, `result.message_id` and
/// `description`: a success only where `ok` is `true`; a failure carries the
/// description, or `"Telegram error"` where there is none.
pub fn reply_result(ok: Option<bool>, message_id: Option<i64>, description: Option<String>) -> (r: TelegramResult)
    ensures
        r.ok == (ok == Some(true)),
        r.ok ==> r.message_id == message_id && r.error is None,
        !r.ok ==> r.message_id is None && (r.error matches Some(e) && e@ == (match description {
            Some(d) => d@,
            None => "Telegram error"@,
        })),
{
    if ok == Some(true) {
        TelegramResult { ok: true, message_id, error: None }
    } else {
        let e = match description {
            Some(d) => d,
            None => string_from_chars(chars_of("Telegram error").as_slice()),
        };
        TelegramResult { ok: false, message_id: None, error: Some(e) }
    }
}

/// What came of one attempt to deliver a broadcast part.
pub enum SendOutcome {
    /// The send names a part that the broadcast does not have.
    PartMissing,
    /// Telegram answered.
    Answered(TelegramResult),
    /// The request failed; its error text.
    Failed(String),
}

/// What is recorded of a send: its status, its error text and the message id.
pub struct SendRecord {
    pub status: &'static str,
    pub error: String,
    pub message_id: Option<i64>,
}

/// The record of a send: `"sent"` with the message id where Telegram
/// accepted it, else `"failed"` with the reason (`"Part not found"`,
/// Telegram's error or `"Telegram error"`, or the request's error).
pub fn send_record(outcome: SendOutcome) -> (r: SendRecord)
    ensures
        match outcome {
            SendOutcome::PartMissing => r.status@ == "failed"@ && r.error@ == "Part not found"@
                && r.message_id is None,
            SendOutcome::Answered(res) => if res.ok {
                r.status@ == "sent"@ && r.error@ == Seq::<char>::empty() && r.message_id == res.message_id
            } else {
                r.status@ == "failed"@ && r.error@ == (match res.error {
                    Some(e) => e@,
                    None => "Telegram error"@,
                }) && r.message_id is None
            },
            SendOutcome::Failed(e) => r.status@ == "failed"@ && r.error@ == e@ && r.message_id is None,
        },
{
    match outcome {
        SendOutcome::PartMissing => SendRecord {
            status: "failed",
            error: string_from_chars(chars_of("Part not found").as_slice()),
            message_id: None,
        },
        SendOutcome::Answered(res) => {
            if res.ok {
                SendRecord { status: "sent", error: String::new(), message_id: res.message_id }
            } else {
                let e = match res.error {
                    Some(e) => e,
                    None => string_from_chars(chars_of("Telegram error").as_slice()),
                };
                SendRecord { status: "failed", error: e, message_id: None }
            }
        },
        SendOutcome::Failed(e) => SendRecord { status: "failed", error: e, message_id: None },
    }
}

/// Counts of the sends of one broadcast run.
pub struct BroadcastTally {
    pub sent: usize,
    pub failed: usize,
}

impl BroadcastTally {
    /// No send counted yet.
    pub fn new() -> (t: Self)
        ensures
            t.sent == 0 && t.failed == 0,
    {
        BroadcastTally { sent: 0, failed: 0 }
    }

    /// Counts a send by its record's status.
    pub fn count(&mut self, record: &SendRecord)
        requires
            old(self).sent + old(self).failed < usize::MAX,
        ensures
            record.status@ == "sent"@ ==> final(self).sent == old(self).sent + 1 && final(self).failed
                == old(self).failed,
            record.status@ != "sent"@ ==> final(self).failed == old(self).failed + 1 && final(self).sent
                == old(self).sent,
    {
        if str_eq(record.status, "sent") {
            self.sent = self.sent + 1;
        } else {
            self.failed = self.failed + 1;
        }
    }

    /// The broadcast's status after the run: `"done"` where nothing failed,
    /// else `"partial_fail"`.
    pub fn final_status(&self) -> (r: &'static str)
        ensures
            r@ == (if self.failed == 0 { "done"@ } else { "partial_fail"@ }),
    {
        if self.failed == 0 {
            "done"
        } else {
            "partial_fail"
        }
    }
}

/// The counts (sent, failed) after counting records with these statuses
/// from none.
pub open spec fn tally_of(statuses: Seq<Seq<char>>) -> (nat, nat)
    decreases statuses.len(),
{
    if statuses.len() == 0 {
        (0, 0)
    } else {
        let (sent, failed) = tally_of(statuses.drop_last());
        if statuses.last() == "sent"@ { (sent + 1, failed) } else { (sent, failed + 1) }
    }
}

/// The statuses of a run's records.
pub open spec fn statuses_of(records: Seq<SendRecord>) -> Seq<Seq<char>> {
    records.map_values(|r: SendRecord| r.status@)
}

/// Every send of a run is counted once: the sent and the failed add up to
/// the number of sends.
pub proof fn lemma_tally_counts_every_send(statuses: Seq<Seq<char>>)
    ensures
        tally_of(statuses).0 + tally_of(statuses).1 == statuses.len(),
    decreases statuses.len(),
{
    if statuses.len() > 0 {
        lemma_tally_counts_every_send(statuses.drop_last());
    }
}

/// Counts the records of a broadcast run: as many sent as have status
/// `"sent"`, the rest failed, so that the two add up to the number of
/// records.
pub fn tally_records(records: &Vec<SendRecord>) -> (t: BroadcastTally)
    ensures
        (t.sent as nat, t.failed as nat) == tally_of(statuses_of(records@)),
        t.sent + t.failed == records@.len(),
{
    let ghost all = statuses_of(records@);
    let mut t = BroadcastTally::new();
    let mut i: usize = 0;
    while i < records.len()
        invariant
            i <= records@.len(),
            all == statuses_of(records@),
            (t.sent as nat, t.failed as nat) == tally_of(all.subrange(0, i as int)),
            t.sent + t.failed == i,
        decreases records.len() - i,
    {
        proof {
            assert(all.subrange(0, i + 1).drop_last() =~= all.subrange(0, i as int));
            assert(all.subrange(0, i + 1).last() == records@[i as int].status@);
        }
        t.count(&records[i]);
        i = i + 1;
    }
    assert(all.subrange(0, records@.len() as int) =~= all);
    t
}

/// Whom a broadcast goes to.
#[derive(Debug, Clone, Copy, PartialEq, Eq, Structural)]
pub enum RecipientKind {
    /// One group chat by id.
    Group,
    /// The chats of a comma-separated list of clients.
    Clients,
    /// The chats of every client with a tag.
    Tag,
}

/// The recipient kind that a type name selects; `"Unknown recipient type: "`
/// and the name for any other.
pub fn recipient_kind(recip_type: &str) -> (r: Result<RecipientKind, String>)
    ensures
        recip_type@ == "group"@ ==> r == Ok::<RecipientKind, String>(RecipientKind::Group),
        recip_type@ == "clients"@ ==> r == Ok::<RecipientKind, String>(RecipientKind::Clients),
        recip_type@ == "tag"@ ==> r == Ok::<RecipientKind, String>(RecipientKind::Tag),
        recip_type@ != "group"@ && recip_type@ != "clients"@ && recip_type@ != "tag"@ ==> (r matches Err(
            e,
        ) && e@ == "Unknown recipient type: "@ + recip_type@),
{
    proof {
        reveal_strlit("group");
        reveal_strlit("clients");
        reveal_strlit("tag");
        assert("group"@.len() != "clients"@.len());
        assert("group"@.len() != "tag"@.len());
        assert("clients"@.len() != "tag"@.len());
    }
    if str_eq(recip_type, "group") {
        Ok(RecipientKind::Group)
    } else if str_eq(recip_type, "clients") {
        Ok(RecipientKind::Clients)
    } else if str_eq(recip_type, "tag") {
        Ok(RecipientKind::Tag)
    } else {
        let mut v: Vec<char> = Vec::new();
        append_str(&mut v, "Unknown recipient type: ");
        append_str(&mut v, recip_type);
        Err(string_from_chars(v.as_slice()))
    }
}

/// The chat id of a group recipient; `"Invalid group chat_id"` where the
/// text is not an `i64`.
pub fn group_chat_id(recip_value: &str) -> (r: Result<i64, String>)
    ensures
        match r {
            Ok(id) => parse_signed(recip_value@, i64::MAX as nat) == Some(id as int),
            Err(e) => parse_signed(recip_value@, i64::MAX as nat) is None && e@ == "Invalid group chat_id"@,
        },
{
    let c = chars_of(recip_value);
    match parse_i64_chars(c.as_slice()) {
        Some(id) => Ok(id),
        None => Err(string_from_chars(chars_of("Invalid group chat_id").as_slice())),
    }
}

/// The name shown for a group chat that is not among the known chats.
pub fn group_fallback_name(chat_id: i64) -> (r: String)
    ensures
        r@ == "Group "@ + signed_decimal(chat_id as int),
{
    let mut v: Vec<char> = Vec::new();
    append_str(&mut v, "Group ");
    let d = i64_decimal(chat_id);
    append_chars(&mut v, d.as_slice());
    string_from_chars(v.as_slice())
}

/// The trimmed, non-empty pieces.
pub open spec fn nonempty_trimmed(pieces: Seq<Seq<char>>) -> Seq<Seq<char>>
    decreases pieces.len(),
{
    if pieces.len() == 0 {
        Seq::empty()
    } else {
        let rest = nonempty_trimmed(pieces.drop_last());
        let t = trimmed(pieces.last());
        if t.len() > 0 {
            rest.push(t)
        } else {
            rest
        }
    }
}

/// The client ids of a comma-separated list: each piece trimmed, empty
/// pieces left out.
pub fn client_ids(recip_value: &str) -> (r: Vec<String>)
    ensures
        r@.map_values(|s: String| s@) == nonempty_trimmed(split_char(recip_value@, ',')),
{
    let c = chars_of(recip_value);
    let pieces = split_chars(c.as_slice(), ',');
    let ghost ps = pieces@.map_values(|p: Vec<char>| p@);
    let mut out: Vec<String> = Vec::new();
    let mut i: usize = 0;
    while i < pieces.len()
        invariant
            i <= pieces@.len(),
            ps == pieces@.map_values(|p: Vec<char>| p@),
            out@.map_values(|s: String| s@) == nonempty_trimmed(ps.subrange(0, i as int)),
        decreases pieces.len() - i,
    {
        let t = trim_chars(pieces[i].as_slice());
        let ghost before = out@.map_values(|s: String| s@);
        proof {
            assert(ps.subrange(0, i + 1).drop_last() =~= ps.subrange(0, i as int));
            assert(ps.subrange(0, i + 1).last() == pieces@[i as int]@);
        }
        if t.len() > 0 {
            out.push(string_from_chars(t.as_slice()));
            assert(out@.map_values(|s: String| s@) =~= before.push(t@));
        }
        i = i + 1;
    }
    assert(ps.subrange(0, pieces@.len() as int) =~= ps);
    out
}

/// The label of a client's chat: the client's name, with the chat's label
/// in brackets where it has one.
pub open spec fn chat_label(name: Seq<char>, label: Seq<char>) -> Seq<char> {
    if label.len() == 0 {
        name
    } else {
        name + " ("@ + label + ")"@
    }
}

/// The id of a stored chat, 0 where its text is not an `i64`.
pub open spec fn stored_chat_id(chat_id: Seq<char>) -> int {
    match parse_signed(chat_id, i64::MAX as nat) {
        Some(v) => v,
        None => 0,
    }
}

/// The recipients among a client's chats: those whose id reads as a
/// nonzero `i64`, each with its label.
pub open spec fn chat_recipients_of(name: Seq<char>, chats: Seq<(Seq<char>, Seq<char>)>) -> Seq<(int, Seq<char>)>
    decreases chats.len(),
{
    if chats.len() == 0 {
        Seq::empty()
    } else {
        let rest = chat_recipients_of(name, chats.drop_last());
        let id = stored_chat_id(chats.last().0);
        if id != 0 {
            rest.push((id, chat_label(name, chats.last().1)))
        } else {
            rest
        }
    }
}

/// The recipients (chat id and label) among the chats of a client named `name`.
pub fn chat_recipients(name: &str, chats: &[ClientTelegramChat]) -> (r: Vec<(i64, String)>)
    ensures
        r@.map_values(|e: (i64, String)| (e.0 as int, e.1@)) == chat_recipients_of(
            name@,
            chats@.map_values(|c: ClientTelegramChat| (c.chat_id@, c.label@)),
        ),
{
    let ghost cs = chats@.map_values(|c: ClientTelegramChat| (c.chat_id@, c.label@));
    let mut out: Vec<(i64, String)> = Vec::new();
    let mut i: usize = 0;
    while i < chats.len()
        invariant
            i <= chats@.len(),
            cs == chats@.map_values(|c: ClientTelegramChat| (c.chat_id@, c.label@)),
            out@.map_values(|e: (i64, String)| (e.0 as int, e.1@)) == chat_recipients_of(
                name@,
                cs.subrange(0, i as int),
            ),
        decreases chats.len() - i,
    {
        let ghost before = out@.map_values(|e: (i64, String)| (e.0 as int, e.1@));
        proof {
            assert(cs.subrange(0, i + 1).drop_last() =~= cs.subrange(0, i as int));
            assert(cs.subrange(0, i + 1).last() == cs[i as int]);
        }
        let idc = chars_of(chats[i].chat_id.as_str());
        let id: i64 = match parse_i64_chars(idc.as_slice()) {
            Some(v) => v,
            None => 0,
        };
        if id != 0 {
            let mut v: Vec<char> = Vec::new();
            append_str(&mut v, name);
            if !chats[i].label.as_str().is_empty() {
                append_str(&mut v, " (");
                append_str(&mut v, chats[i].label.as_str());
                append_str(&mut v, ")");
            }
            proof {
                assert(v@ =~= chat_label(name@, chats[i as int].label@));
            }
            out.push((id, string_from_chars(v.as_slice())));
            assert(out@.map_values(|e: (i64, String)| (e.0 as int, e.1@)) =~= before.push(
                (id as int, chat_label(name@, chats[i as int].label@)),
            ));
        }
        i = i + 1;
    }
    assert(cs.subrange(0, chats@.len() as int) =~= cs);
    out
}

/// The ids of chats, in order.
pub open spec fn chat_ids(chats: Seq<TelegramChat>) -> Seq<i64> {
    chats.map_values(|c: TelegramChat| c.id)
}

/// The chats in order of first sight, each id kept once, with what was
/// seen of it first.
pub open spec fn first_per_id(chats: Seq<TelegramChat>) -> Seq<TelegramChat>
    decreases chats.len(),
{
    if chats.len() == 0 {
        Seq::empty()
    } else {
        let rest = first_per_id(chats.drop_last());
        if rest.map_values(|c: TelegramChat| c.id).contains(chats.last().id) {
            rest
        } else {
            rest.push(chats.last())
        }
    }
}

/// The distinct chats among those found in updates, the first sight of
/// each id winning.
pub fn unique_chats(found: Vec<TelegramChat>) -> (r: Vec<TelegramChat>)
    ensures
        r@ == first_per_id(found@),
{
    let mut found = found;
    let ghost all = found@;
    assert(all.len() == found.len());
    let mut out: Vec<TelegramChat> = Vec::new();
    let mut i: usize = 0;
    while found.len() > 0
        invariant
            i + found@.len() == all.len(),
            all.len() <= usize::MAX,
            found@ == all.subrange(i as int, all.len() as int),
            out@ == first_per_id(all.subrange(0, i as int)),
        decreases found.len(),
    {
        let c = found.remove(0);
        proof {
            assert(all.subrange(0, i + 1).drop_last() =~= all.subrange(0, i as int));
            assert(all.subrange(0, i + 1).last() == c);
            assert(found@ =~= all.subrange(i + 1, all.len() as int));
        }
        let mut seen = false;
        let mut j: usize = 0;
        while j < out.len()
            invariant
                j <= out@.len(),
                seen == out@.subrange(0, j as int).map_values(|x: TelegramChat| x.id).contains(c.id),
            decreases out.len() - j,
        {
            let ghost ids_old = out@.subrange(0, j as int).map_values(|x: TelegramChat| x.id);
            let ghost ids_new = out@.subrange(0, j + 1).map_values(|x: TelegramChat| x.id);
            proof {
                assert(ids_new =~= ids_old.push(out@[j as int].id));
                assert(ids_new.contains(c.id) <==> (ids_old.contains(c.id) || out@[j as int].id == c.id)) by {
                    if ids_new.contains(c.id) {
                        let k = choose|k: int| 0 <= k < ids_new.len() && ids_new[k] == c.id;
                        if k < j {
                            assert(ids_old[k] == c.id);
                        }
                    }
                    if ids_old.contains(c.id) {
                        let k = choose|k: int| 0 <= k < ids_old.len() && ids_old[k] == c.id;
                        assert(ids_new[k] == c.id);
                    }
                    if out@[j as int].id == c.id {
                        assert(ids_new[j as int] == c.id);
                    }
                }
            }
            if out[j].id == c.id {
                seen = true;
            }
            j = j + 1;
        }
        assert(out@.subrange(0, out@.len() as int) =~= out@);
        if !seen {
            out.push(c);
        }
        i = i + 1;
    }
    assert(all.subrange(0, i as int) =~= all);
    out
}

/// The chats kept from updates have distinct ids, and every id seen is
/// kept.
pub proof fn lemma_unique_chats_cover(chats: Seq<TelegramChat>)
    ensures
        chat_ids(first_per_id(chats)).no_duplicates(),
        forall|id: i64| #[trigger] chat_ids(chats).contains(id)
            <==> chat_ids(first_per_id(chats)).contains(id),
    decreases chats.len(),
{
    if chats.len() > 0 {
        lemma_unique_chats_cover(chats.drop_last());
        let rest = first_per_id(chats.drop_last());
        let rest_ids = chat_ids(rest);
        let all_ids = chat_ids(chats);
        let before_ids = chat_ids(chats.drop_last());
        let last = chats.last();
        assert(all_ids =~= before_ids.push(last.id));
        if !rest_ids.contains(last.id) {
            assert(chat_ids(rest.push(last)) =~= rest_ids.push(last.id));
        }
        let out_ids = chat_ids(first_per_id(chats));
        assert forall|id: i64| #[trigger] all_ids.contains(id) <==> out_ids.contains(id) by {
            if all_ids.contains(id) {
                let k = choose|k: int| 0 <= k < all_ids.len() && all_ids[k] == id;
                let in_rest = rest_ids.contains(id);
                if k < before_ids.len() {
                    assert(before_ids[k] == id);
                    assert(before_ids.contains(id));
                    assert(in_rest);
                }
                if in_rest {
                    let m = choose|m: int| 0 <= m < rest_ids.len() && rest_ids[m] == id;
                    assert(out_ids[m] == id);
                } else {
                    assert(id == last.id);
                    assert(out_ids[rest_ids.len() as int] == id);
                }
            }
            if out_ids.contains(id) {
                let k = choose|k: int| 0 <= k < out_ids.len() && out_ids[k] == id;
                if k < rest_ids.len() {
                    assert(rest_ids[k] == id);
                    assert(before_ids.contains(id));
                    let m = choose|m: int| 0 <= m < before_ids.len() && before_ids[m] == id;
                    assert(all_ids[m] == id);
                } else {
                    assert(all_ids[all_ids.len() - 1] == id);
                }
            }
        }
    }
}

/// The parts of a broadcast as type, file and caption: the text body first
/// where it is not blank, then each attachment.
pub open spec fn planned_parts(text_body: Seq<char>, attachments: Seq<BroadcastAttachment>) -> Seq<(Seq<char>, Seq<char>, Seq<char>)> {
    let atts = attachments.map_values(|a: BroadcastAttachment| (a.kind@, a.file_path@, a.caption@));
    if trimmed(text_body).len() > 0 {
        seq![("text"@, Seq::<char>::empty(), text_body)] + atts
    } else {
        atts
    }
}

fn copy_str(s: &str) -> (r: String)
    ensures
        r@ == s@,
{
    string_from_chars(chars_of(s).as_slice())
}

/// The parts of a new broadcast, in order, the `i`th with id `part_ids[i]`
/// and sort order `i`.
pub fn broadcast_parts(
    broadcast_id: &str,
    text_body: &str,
    attachments: &[BroadcastAttachment],
    part_ids: &[String],
) -> (r: Vec<BroadcastPart>)
    requires
        part_ids@.len() > attachments@.len(),
        attachments@.len() < i32::MAX,
    ensures
        r@.len() == planned_parts(text_body@, attachments@).len(),
        forall|i: int| 0 <= i < r@.len() ==> {
            let p = #[trigger] r@[i];
            &&& p.id@ == part_ids@[i]@
            &&& p.broadcast_id@ == broadcast_id@
            &&& (p.part_type@, p.file_path@, p.caption@) == planned_parts(text_body@, attachments@)[i]
            &&& p.sort_order == i
        },
{
    let ghost plan = planned_parts(text_body@, attachments@);
    let ghost atts = attachments@.map_values(|a: BroadcastAttachment| (a.kind@, a.file_path@, a.caption@));
    let mut parts: Vec<BroadcastPart> = Vec::new();
    let mut sort: i32 = 0;
    let body_chars = chars_of(text_body);
    let t = trim_chars(body_chars.as_slice());
    let has_text = t.len() > 0;
    if has_text {
        parts.push(BroadcastPart {
            id: part_ids[0].clone(),
            broadcast_id: copy_str(broadcast_id),
            part_type: copy_str("text"),
            file_path: String::new(),
            caption: copy_str(text_body),
            sort_order: 0,
        });
        sort = 1;
    }
    let ghost offset: int = if has_text { 1 } else { 0 };
    assert(plan == (if has_text { seq![("text"@, Seq::<char>::empty(), text_body@)] + atts } else { atts }));
    let mut k: usize = 0;
    while k < attachments.len()
        invariant
            k <= attachments@.len(),
            attachments@.len() < i32::MAX,
            part_ids@.len() > attachments@.len(),
            sort == offset + k,
            parts@.len() == offset + k,
            0 <= offset <= 1,
            plan.len() == offset + attachments@.len(),
            forall|j: int| 0 <= j < attachments@.len() ==> plan[offset + j] == (
                (#[trigger] attachments@[j]).kind@,
                attachments@[j].file_path@,
                attachments@[j].caption@,
            ),
            forall|i: int| 0 <= i < parts@.len() ==> {
                let p = #[trigger] parts@[i];
                &&& p.id@ == part_ids@[i]@
                &&& p.broadcast_id@ == broadcast_id@
                &&& (p.part_type@, p.file_path@, p.caption@) == plan[i]
                &&& p.sort_order == i
            },
        decreases attachments.len() - k,
    {
        let att = &attachments[k];
        parts.push(BroadcastPart {
            id: part_ids[sort as usize].clone(),
            broadcast_id: copy_str(broadcast_id),
            part_type: att.kind.clone(),
            file_path: att.file_path.clone(),
            caption: att.caption.clone(),
            sort_order: sort,
        });
        sort = sort + 1;
        k = k + 1;
    }
    parts
}

/// Whether `s` is a pending send with id `id` of the part with id `part_id`
/// of broadcast `broadcast_id` to `recipient` (chat id and name).
pub open spec fn is_pending_send(
    s: BroadcastSend,
    id: Seq<char>,
    broadcast_id: Seq<char>,
    part_id: Seq<char>,
    recipient: (i64, String),
) -> bool {
    &&& s.id@ == id
    &&& s.broadcast_id@ == broadcast_id
    &&& s.part_id@ == part_id
    &&& s.chat_id == recipient.0
    &&& s.client_name@ == recipient.1@
    &&& s.status@ == "pending"@
    &&& s.error_msg@ == Seq::<char>::empty()
    &&& s.message_id is None
    &&& s.attempt_count == 0
    &&& s.last_attempt == 0
}

/// The sends of a broadcast: one pending send per recipient and part,
/// recipient by recipient, the `n`th with id `send_ids[n]`; where there is
/// no recipient, `"No recipients found. Check client Telegram chats are configured."`.
pub fn broadcast_sends(
    broadcast_id: &str,
    recipients: &[(i64, String)],
    parts: &[BroadcastPart],
    send_ids: &[String],
) -> (r: Result<Vec<BroadcastSend>, String>)
    requires
        send_ids@.len() >= recipients@.len() * parts@.len(),
    ensures
        recipients@.len() == 0 <==> r is Err,
        r matches Err(e) ==> e@ == "No recipients found. Check client Telegram chats are configured."@,
        r matches Ok(sends) ==> {
            &&& sends@.len() == recipients@.len() * parts@.len()
            &&& forall|n: int| 0 <= n < sends@.len() ==> is_pending_send(
                #[trigger] sends@[n],
                send_ids@[n]@,
                broadcast_id@,
                parts@[n % parts@.len() as int].id@,
                recipients@[n / parts@.len() as int],
            )
        },
{
    if recipients.len() == 0 {
        return Err(copy_str("No recipients found. Check client Telegram chats are configured."));
    }
    let np = parts.len();
    let ids_len = send_ids.len();
    let mut sends: Vec<BroadcastSend> = Vec::new();
    let mut a: usize = 0;
    while a < recipients.len()
        invariant
            a <= recipients@.len(),
            np == parts@.len(),
            send_ids@.len() >= recipients@.len() * np,
            ids_len == send_ids@.len(),
            sends@.len() == a * np,
            forall|n: int| 0 <= n < sends@.len() ==> is_pending_send(
                #[trigger] sends@[n],
                send_ids@[n]@,
                broadcast_id@,
                parts@[n % np as int].id@,
                recipients@[n / np as int],
            ),
        decreases recipients.len() - a,
    {
        let mut b: usize = 0;
        while b < np
            invariant
                a < recipients@.len(),
                b <= np,
                np == parts@.len(),
                send_ids@.len() >= recipients@.len() * np,
                ids_len == send_ids@.len(),
                sends@.len() == a * np + b,
                forall|n: int| 0 <= n < sends@.len() ==> is_pending_send(
                    #[trigger] sends@[n],
                    send_ids@[n]@,
                    broadcast_id@,
                    parts@[n % np as int].id@,
                    recipients@[n / np as int],
                ),
            decreases np - b,
        {
            proof {
                assert(a * np + b < recipients@.len() * np) by (nonlinear_arith)
                    requires a < recipients@.len(), b < np;
                assert(0 <= a * np) by (nonlinear_arith);
            }
            let n = a * np + b;
            proof {
                vstd::arithmetic::div_mod::lemma_fundamental_div_mod_converse(
                    n as int,
                    np as int,
                    a as int,
                    b as int,
                );
            }
            let s = BroadcastSend {
                id: send_ids[n].clone(),
                broadcast_id: copy_str(broadcast_id),
                part_id: parts[b].id.clone(),
                chat_id: recipients[a].0,
                client_name: recipients[a].1.clone(),
                status: copy_str("pending"),
                error_msg: String::new(),
                message_id: None,
                attempt_count: 0,
                last_attempt: 0,
            };
            sends.push(s);
            b = b + 1;
        }
        proof {
            assert((a + 1) * np == a * np + np) by (nonlinear_arith);
        }
        a = a + 1;
    }
    Ok(sends)
}

/// The part a send delivers: the first part whose id is `part_id`, if any.
pub fn find_part(parts: &[BroadcastPart], part_id: &str) -> (r: Option<usize>)
    ensures
        match r {
            Some(i) => i < parts@.len() && parts@[i as int].id@ == part_id@
                && forall|j: int| 0 <= j < i ==> parts@[j].id@ != part_id@,
            None => forall|j: int| 0 <= j < parts@.len() ==> parts@[j].id@ != part_id@,
        },
{
    let mut i: usize = 0;
    while i < parts.len()
        invariant
            i <= parts@.len(),
            forall|j: int| 0 <= j < i ==> parts@[j].id@ != part_id@,
        decreases parts.len() - i,
    {
        if str_eq(parts[i].id.as_str(), part_id) {
            return Some(i);
        }
        i = i + 1;
    }
    None
}

} // verus!
