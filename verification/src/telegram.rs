//! What the Bot API is asked, and what its answers say.

use crate::json::{
    json_models, json_text, law_a_member_is_found_by_its_name, lemma_json_models,
    lemma_member_models, member_models, parse_json, Json, JsonModel,
};
use crate::number::{decimal_i64, decimal_int};
use crate::redact::{scrub, scrubbed};
use crate::text::{opt_view, trim, trimmed};
use vstd::prelude::*;

verus! {

/// A downloadable attachment of a message.
pub struct Attachment {
    pub file_id: String,
    pub file_name: Option<String>,
    /// Size in bytes as Telegram reports it, or 0 where the message omits it.
    pub file_size: i64,
}

/// What an [`Attachment`] holds.
#[verifier::ext_equal]
pub struct AttachmentModel {
    pub file_id: Seq<char>,
    pub file_name: Option<Seq<char>>,
    pub file_size: i64,
}

impl View for Attachment {
    type V = AttachmentModel;

    open spec fn view(&self) -> AttachmentModel {
        AttachmentModel {
            file_id: self.file_id@,
            file_name: opt_view(self.file_name),
            file_size: self.file_size,
        }
    }
}

/// What an optional attachment holds.
pub open spec fn attachment_view(a: Option<Attachment>) -> Option<AttachmentModel> {
    match a {
        Some(a) => Some(a@),
        None => None,
    }
}

/// The number, or `default` where there is none.
pub open spec fn int_or(v: JsonModel, default: i64) -> i64 {
    match v.whole() {
        Some(n) => n,
        None => default,
    }
}

/// The text, or `default` where there is none.
pub open spec fn text_or(v: JsonModel, default: Seq<char>) -> Seq<char> {
    match v.text() {
        Some(t) => t,
        None => default,
    }
}

/// The text, or `default` where there is none.
fn read_text_or(v: &Json, default: &str) -> (r: String)
    ensures
        r@ == text_or(v@, default@),
{
    match v.as_str() {
        Some(t) => t.to_owned(),
        None => default.to_owned(),
    }
}

/// The number, or `default` where there is none.
fn read_int_or(v: &Json, default: i64) -> (r: i64)
    ensures
        r == int_or(v@, default),
{
    match v.as_i64() {
        Some(n) => n,
        None => default,
    }
}

/// The file that an object describes: it has one where it has a `file_id`.
pub open spec fn described(obj: JsonModel) -> Option<AttachmentModel> {
    match obj.at("file_id"@).text() {
        Some(id) => Some(
            AttachmentModel {
                file_id: id,
                file_name: obj.at("file_name"@).text(),
                file_size: int_or(obj.at("file_size"@), 0),
            },
        ),
        None => None,
    }
}

/// The file that an object of a kind without file names describes.
pub open spec fn described_nameless(obj: JsonModel) -> Option<AttachmentModel> {
    match described(obj) {
        Some(a) => Some(AttachmentModel { file_name: None, ..a }),
        None => None,
    }
}

/// The largest of a photo's sizes: the last one.
pub open spec fn largest_photo(msg: JsonModel) -> JsonModel {
    match msg.at("photo"@).items() {
        Some(sizes) => if sizes.len() > 0 {
            sizes.last()
        } else {
            JsonModel::Null
        },
        None => JsonModel::Null,
    }
}

/// The attachment of a message: the first of its documents, videos, audio files,
/// voice notes, animations and video notes, then its largest photo, then its
/// sticker.
pub open spec fn attachment_of(msg: JsonModel) -> Option<AttachmentModel> {
    if described(msg.at("document"@)) is Some {
        described(msg.at("document"@))
    } else if described(msg.at("video"@)) is Some {
        described(msg.at("video"@))
    } else if described(msg.at("audio"@)) is Some {
        described(msg.at("audio"@))
    } else if described(msg.at("voice"@)) is Some {
        described(msg.at("voice"@))
    } else if described(msg.at("animation"@)) is Some {
        described(msg.at("animation"@))
    } else if described(msg.at("video_note"@)) is Some {
        described(msg.at("video_note"@))
    } else if described(largest_photo(msg)) is Some {
        described_nameless(largest_photo(msg))
    } else {
        described_nameless(msg.at("sticker"@))
    }
}

/// The file that an object describes.
fn read_file(obj: &Json) -> (r: Option<Attachment>)
    ensures
        attachment_view(r) == described(obj@),
{
    match obj.at("file_id").as_str() {
        Some(id) => {
            let file_name = match obj.at("file_name").as_str() {
                Some(name) => Some(name.to_owned()),
                None => None,
            };
            Some(
                Attachment {
                    file_id: id.to_owned(),
                    file_name,
                    file_size: read_int_or(obj.at("file_size"), 0),
                },
            )
        },
        None => None,
    }
}

/// The file that an object of a kind without file names describes.
fn read_nameless(obj: &Json) -> (r: Option<Attachment>)
    ensures
        attachment_view(r) == described_nameless(obj@),
{
    match read_file(obj) {
        Some(a) => Some(Attachment { file_name: None, ..a }),
        None => None,
    }
}

/// Pulls the first downloadable attachment out of a message, with its suggested
/// file name (where the message gives one) and its reported size. The common
/// kinds of attachment are tried in order of priority.
pub fn extract_attachment(msg: &Json) -> (r: Option<Attachment>)
    ensures
        attachment_view(r) == attachment_of(msg@),
{
    let document = read_file(msg.at("document"));
    if document.is_some() {
        return document;
    }
    let video = read_file(msg.at("video"));
    if video.is_some() {
        return video;
    }
    let audio = read_file(msg.at("audio"));
    if audio.is_some() {
        return audio;
    }
    let voice = read_file(msg.at("voice"));
    if voice.is_some() {
        return voice;
    }
    let animation = read_file(msg.at("animation"));
    if animation.is_some() {
        return animation;
    }
    let video_note = read_file(msg.at("video_note"));
    if video_note.is_some() {
        return video_note;
    }
    // Photos arrive as an array of sizes.
    if let Some(sizes) = msg.at("photo").as_array() {
        proof {
            lemma_json_models(sizes@);
        }
        if sizes.len() > 0 {
            let photo = read_nameless(&sizes[sizes.len() - 1]);
            if photo.is_some() {
                return photo;
            }
        }
    }
    read_nameless(msg.at("sticker"))
}

/// One update of a bot, as far as the bot acts on it.
pub struct Update {
    pub update_id: Option<i64>,
    /// The sender, or 0 where the message names none.
    pub from_id: i64,
    /// The chat to answer in, which is the sender's own where none is named.
    pub chat_id: i64,
    pub message_id: i64,
    /// The caption, trimmed; empty where there is none.
    pub caption: String,
    pub attachment: Option<Attachment>,
    pub text: Option<String>,
}

/// What an [`Update`] holds.
#[verifier::ext_equal]
pub struct UpdateModel {
    pub update_id: Option<i64>,
    pub from_id: i64,
    pub chat_id: i64,
    pub message_id: i64,
    pub caption: Seq<char>,
    pub attachment: Option<AttachmentModel>,
    pub text: Option<Seq<char>>,
}

impl View for Update {
    type V = UpdateModel;

    open spec fn view(&self) -> UpdateModel {
        UpdateModel {
            update_id: self.update_id,
            from_id: self.from_id,
            chat_id: self.chat_id,
            message_id: self.message_id,
            caption: self.caption@,
            attachment: attachment_view(self.attachment),
            text: opt_view(self.text),
        }
    }
}

/// The update that a JSON object describes.
pub open spec fn update_of(update: JsonModel) -> UpdateModel {
    let msg = update.at("message"@);
    let from_id = int_or(msg.at("from"@).at("id"@), 0);
    UpdateModel {
        update_id: update.at("update_id"@).whole(),
        from_id,
        chat_id: int_or(msg.at("chat"@).at("id"@), from_id),
        message_id: int_or(msg.at("message_id"@), 0),
        caption: trimmed(text_or(msg.at("caption"@), ""@)),
        attachment: attachment_of(msg),
        text: msg.at("text"@).text(),
    }
}

/// Reads one update.
pub fn read_update(update: &Json) -> (r: Update)
    ensures
        r@ == update_of(update@),
{
    let msg = update.at("message");
    let from_id = read_int_or(msg.at("from").at("id"), 0);
    let text = match msg.at("text").as_str() {
        Some(t) => Some(t.to_owned()),
        None => None,
    };
    let caption = read_text_or(msg.at("caption"), "");
    Update {
        update_id: update.at("update_id").as_i64(),
        from_id,
        chat_id: read_int_or(msg.at("chat").at("id"), from_id),
        message_id: read_int_or(msg.at("message_id"), 0),
        caption: trim(caption.as_str()).to_owned(),
        attachment: extract_attachment(msg),
        text,
    }
}

/// What is said of an answer that is no JSON document.
pub const UNREADABLE: &'static str = "error decoding response body";

/// The server says that it did what it was asked.
pub open spec fn accepted(answer: JsonModel) -> bool {
    answer.at("ok"@).flag() == Some(true)
}

/// Whether the server says that it did what it was asked.
pub fn is_accepted(answer: &Json) -> (r: bool)
    ensures
        r == accepted(answer@),
{
    match answer.at("ok").as_bool() {
        Some(ok) => ok,
        None => false,
    }
}

/// Whether the bytes of an answer say that a message was accepted; they do not
/// where they are no JSON document.
pub fn message_accepted(bytes: &[u8]) -> (r: bool)
    ensures
        r == (json_text(bytes@) is Some && accepted(json_text(bytes@)->0)),
{
    match parse_json(bytes) {
        Some(answer) => is_accepted(&answer),
        None => false,
    }
}

/// A result in terms of what its strings hold.
pub open spec fn result_view(r: Result<String, String>) -> Result<Seq<char>, Seq<char>> {
    match r {
        Ok(s) => Ok(s@),
        Err(e) => Err(e@),
    }
}

/// What an answer to `getMe` says: the bot's user name, or why there is none.
pub open spec fn me_of(answer: JsonModel) -> Result<Seq<char>, Seq<char>> {
    if accepted(answer) {
        Ok(text_or(answer.at("result"@).at("username"@), "unknown"@))
    } else {
        Err(text_or(answer.at("description"@), "invalid token"@))
    }
}

/// Reads an answer to `getMe`.
pub fn read_me(answer: &Json) -> (r: Result<String, String>)
    ensures
        result_view(r) == me_of(answer@),
{
    if !is_accepted(answer) {
        return Err(read_text_or(answer.at("description"), "invalid token"));
    }
    Ok(read_text_or(answer.at("result").at("username"), "unknown"))
}

/// Reads the bytes of an answer to `getMe` for `token`.
pub fn read_me_bytes(bytes: &[u8], token: &str) -> (r: Result<String, String>)
    ensures
        result_view(r) == (match json_text(bytes@) {
            Some(answer) => me_of(answer),
            None => Err(scrubbed(UNREADABLE@, token@)),
        }),
{
    match parse_json(bytes) {
        Some(answer) => read_me(&answer),
        None => Err(scrub(UNREADABLE.to_owned(), token)),
    }
}

/// What an answer to `getUpdates` comes to.
pub enum Updates {
    /// The server refused: what to say of it, and how many seconds to wait.
    Refused { message: String, wait: u64 },
    /// The updates, in order.
    Batch(Vec<Update>),
    /// The server agreed and sent no list.
    Nothing,
}

/// What an [`Updates`] holds.
pub enum UpdatesModel {
    Refused { message: Seq<char>, wait: u64 },
    Batch(Seq<UpdateModel>),
    Nothing,
}

/// What a list of updates holds.
pub open spec fn update_models(updates: Seq<Update>) -> Seq<UpdateModel> {
    updates.map_values(|u: Update| u@)
}

impl View for Updates {
    type V = UpdatesModel;

    open spec fn view(&self) -> UpdatesModel {
        match self {
            Updates::Refused { message, wait } => UpdatesModel::Refused {
                message: message@,
                wait: *wait,
            },
            Updates::Batch(updates) => UpdatesModel::Batch(update_models(updates@)),
            Updates::Nothing => UpdatesModel::Nothing,
        }
    }
}

/// The code of an answer that says that someone else is polling with this token.
pub const CONFLICT: i64 = 409;

/// Seconds to wait after a refused or failed poll.
pub const RETRY_WAIT: u64 = 5;

/// Seconds to wait after a conflict, which does not clear on its own.
pub const CONFLICT_WAIT: u64 = 15;

/// What is said of a conflict.
pub open spec fn conflict_text(description: Seq<char>) -> Seq<char> {
    "conflict: this token is already being polled elsewhere ("@ + description + ")"@
}

/// What an answer to `getUpdates` says.
pub open spec fn updates_of(answer: JsonModel) -> UpdatesModel {
    if accepted(answer) {
        match answer.at("result"@).items() {
            Some(items) => UpdatesModel::Batch(items.map_values(|u: JsonModel| update_of(u))),
            None => UpdatesModel::Nothing,
        }
    } else {
        let description = text_or(answer.at("description"@), "getUpdates error"@);
        if int_or(answer.at("error_code"@), 0) == CONFLICT {
            UpdatesModel::Refused { message: conflict_text(description), wait: CONFLICT_WAIT }
        } else {
            UpdatesModel::Refused { message: description, wait: RETRY_WAIT }
        }
    }
}

/// Reads an answer to `getUpdates`.
pub fn read_updates(answer: &Json) -> (r: Updates)
    ensures
        r@ == updates_of(answer@),
{
    if !is_accepted(answer) {
        let description = read_text_or(answer.at("description"), "getUpdates error");
        if read_int_or(answer.at("error_code"), 0) == CONFLICT {
            let mut message = "conflict: this token is already being polled elsewhere (".to_owned();
            message.append(description.as_str());
            message.append(")");
            return Updates::Refused { message, wait: CONFLICT_WAIT };
        }
        return Updates::Refused { message: description, wait: RETRY_WAIT };
    }
    match answer.at("result").as_array() {
        Some(items) => {
            let ghost want = json_models(items@).map_values(|u: JsonModel| update_of(u));
            let mut updates: Vec<Update> = Vec::new();
            let mut i: usize = 0;
            proof {
                lemma_json_models(items@);
            }
            while i < items.len()
                invariant
                    i <= items@.len(),
                    updates@.len() == i,
                    want.len() == items@.len(),
                    forall|k: int|
                        0 <= k < items@.len() ==> #[trigger] want[k] == update_of(items@[k]@),
                    forall|k: int| 0 <= k < i ==> (#[trigger] updates@[k])@ == want[k],
                decreases items@.len() - i,
            {
                assert(want[i as int] == update_of(items@[i as int]@));
                updates.push(read_update(&items[i]));
                i += 1;
            }
            assert(update_models(updates@) =~= want);
            Updates::Batch(updates)
        },
        None => Updates::Nothing,
    }
}

/// Reads the bytes of an answer to `getUpdates` for `token`.
pub fn read_updates_bytes(bytes: &[u8], token: &str) -> (r: Updates)
    ensures
        r@ == (match json_text(bytes@) {
            Some(answer) => updates_of(answer),
            None => UpdatesModel::Refused {
                message: scrubbed(UNREADABLE@, token@),
                wait: RETRY_WAIT,
            },
        }),
{
    match parse_json(bytes) {
        Some(answer) => read_updates(&answer),
        None => Updates::Refused {
            message: scrub(UNREADABLE.to_owned(), token),
            wait: RETRY_WAIT,
        },
    }
}

/// The query of a `getUpdates` call: from where on, how long the server may hold
/// the answer back, and what is of interest.
pub fn updates_query(offset: i64) -> (r: Vec<(&'static str, String)>)
    ensures
        r@.len() == 3,
        r@[0].0@ == "offset"@ && r@[0].1@ == decimal_int(offset as int),
        r@[1].0@ == "timeout"@ && r@[1].1@ == "30"@,
        r@[2].0@ == "allowed_updates"@ && r@[2].1@ == "[\"message\"]"@,
{
    let mut query: Vec<(&'static str, String)> = Vec::new();
    query.push(("offset", decimal_i64(offset)));
    query.push(("timeout", "30".to_owned()));
    query.push(("allowed_updates", "[\"message\"]".to_owned()));
    query
}

/// The body of a `sendMessage` call.
pub fn message_body(chat_id: i64, text: &str) -> (r: Json)
    ensures
        r@ == JsonModel::Object(
            seq![
                ("chat_id"@, JsonModel::Number(Some(chat_id))),
                ("text"@, JsonModel::Text(text@)),
            ],
        ),
{
    let mut members: Vec<(String, Json)> = Vec::new();
    members.push(("chat_id".to_owned(), Json::Number(Some(chat_id))));
    members.push(("text".to_owned(), Json::Text(text.to_owned())));
    proof {
        lemma_member_models(members@);
        assert(member_models(members@) =~= seq![
            ("chat_id"@, JsonModel::Number(Some(chat_id))),
            ("text"@, JsonModel::Text(text@)),
        ]);
    }
    Json::Object(members)
}

/// The reaction that marks a message as saved.
pub open spec fn thumbs_up() -> JsonModel {
    JsonModel::Object(
        seq![("type"@, JsonModel::Text("emoji"@)), ("emoji"@, JsonModel::Text("👍"@))],
    )
}

/// The body of a `setMessageReaction` call.
pub fn reaction_body(chat_id: i64, message_id: i64) -> (r: Json)
    ensures
        r@ == JsonModel::Object(
            seq![
                ("chat_id"@, JsonModel::Number(Some(chat_id))),
                ("message_id"@, JsonModel::Number(Some(message_id))),
                ("reaction"@, JsonModel::Array(seq![thumbs_up()])),
            ],
        ),
{
    let mut emoji: Vec<(String, Json)> = Vec::new();
    emoji.push(("type".to_owned(), Json::Text("emoji".to_owned())));
    emoji.push(("emoji".to_owned(), Json::Text("👍".to_owned())));
    proof {
        lemma_member_models(emoji@);
        assert(member_models(emoji@) =~= thumbs_up()->Object_0);
    }
    let mut reactions: Vec<Json> = Vec::new();
    reactions.push(Json::Object(emoji));
    proof {
        lemma_json_models(reactions@);
        assert(json_models(reactions@) =~= seq![thumbs_up()]);
    }
    let mut members: Vec<(String, Json)> = Vec::new();
    members.push(("chat_id".to_owned(), Json::Number(Some(chat_id))));
    members.push(("message_id".to_owned(), Json::Number(Some(message_id))));
    members.push(("reaction".to_owned(), Json::Array(reactions)));
    proof {
        lemma_member_models(members@);
        assert(member_models(members@) =~= seq![
            ("chat_id"@, JsonModel::Number(Some(chat_id))),
            ("message_id"@, JsonModel::Number(Some(message_id))),
            ("reaction"@, JsonModel::Array(seq![thumbs_up()])),
        ]);
    }
    Json::Object(members)
}

/// Of the kinds of file that a message can have under their own names, the first
/// in order of priority that has a `file_id` is the attachment: with that id, with
/// the name that it gives, if any, and with the size that it gives, or 0.
pub proof fn law_the_first_kind_of_file_is_taken(msg: JsonModel, i: int)
    requires
        0 <= i < 6,
        ({
            let kinds = seq![
                "document"@,
                "video"@,
                "audio"@,
                "voice"@,
                "animation"@,
                "video_note"@,
            ];
            &&& msg.at(kinds[i]).at("file_id"@) is Text
            &&& forall|k: int| 0 <= k < i ==> !(msg.at(#[trigger] kinds[k]).at("file_id"@) is Text)
        }),
    ensures
        ({
            let kinds = seq![
                "document"@,
                "video"@,
                "audio"@,
                "voice"@,
                "animation"@,
                "video_note"@,
            ];
            let file = msg.at(kinds[i]);
            &&& attachment_of(msg) is Some
            &&& JsonModel::Text(attachment_of(msg)->0.file_id) == file.at("file_id"@)
            &&& attachment_of(msg)->0.file_name == match file.at("file_name"@) {
                JsonModel::Text(name) => Some(name),
                _ => None,
            }
            &&& attachment_of(msg)->0.file_size == match file.at("file_size"@) {
                JsonModel::Number(Some(size)) => size,
                _ => 0,
            }
        }),
{
    let kinds = seq![
        "document"@,
        "video"@,
        "audio"@,
        "voice"@,
        "animation"@,
        "video_note"@,
    ];
    assert(kinds[0] == "document"@);
    assert(kinds[1] == "video"@);
    assert(kinds[2] == "audio"@);
    assert(kinds[3] == "voice"@);
    assert(kinds[4] == "animation"@);
    assert(kinds[5] == "video_note"@);
}

/// A message without any of those has the last, and so the largest, of its photo's
/// sizes as its attachment, and failing that its sticker; neither has a name.
pub proof fn law_a_photo_or_a_sticker_is_taken_next(msg: JsonModel, sizes: Seq<JsonModel>)
    requires
        !(msg.at("document"@).at("file_id"@) is Text),
        !(msg.at("video"@).at("file_id"@) is Text),
        !(msg.at("audio"@).at("file_id"@) is Text),
        !(msg.at("voice"@).at("file_id"@) is Text),
        !(msg.at("animation"@).at("file_id"@) is Text),
        !(msg.at("video_note"@).at("file_id"@) is Text),
        msg.at("photo"@) == JsonModel::Array(sizes) || !(msg.at("photo"@) is Array) && sizes.len()
            == 0,
    ensures
        ({
            let photo = sizes[sizes.len() - 1];
            let sticker = msg.at("sticker"@);
            if sizes.len() > 0 && photo.at("file_id"@) is Text {
                attachment_of(msg) == Some(
                    AttachmentModel {
                        file_id: photo.at("file_id"@)->Text_0,
                        file_name: None,
                        file_size: match photo.at("file_size"@) {
                            JsonModel::Number(Some(size)) => size,
                            _ => 0,
                        },
                    },
                )
            } else if sticker.at("file_id"@) is Text {
                attachment_of(msg) == Some(
                    AttachmentModel {
                        file_id: sticker.at("file_id"@)->Text_0,
                        file_name: None,
                        file_size: match sticker.at("file_size"@) {
                            JsonModel::Number(Some(size)) => size,
                            _ => 0,
                        },
                    },
                )
            } else {
                attachment_of(msg) is None
            }
        }),
{
}

/// No file is passed over: a message has no attachment only when nothing in it has
/// a `file_id`.
pub proof fn law_no_file_is_passed_over(msg: JsonModel)
    ensures
        attachment_of(msg) is None ==> {
            &&& !(msg.at("document"@).at("file_id"@) is Text)
            &&& !(msg.at("video"@).at("file_id"@) is Text)
            &&& !(msg.at("audio"@).at("file_id"@) is Text)
            &&& !(msg.at("voice"@).at("file_id"@) is Text)
            &&& !(msg.at("animation"@).at("file_id"@) is Text)
            &&& !(msg.at("video_note"@).at("file_id"@) is Text)
            &&& !(msg.at("sticker"@).at("file_id"@) is Text)
            &&& msg.at("photo"@) matches JsonModel::Array(sizes) ==> sizes.len() > 0 ==> !(
            sizes[sizes.len() - 1].at("file_id"@) is Text)
        },
{
}

/// An update is read field by field, each from its own place, with what stands in
/// where one is missing: no id, a sender 0, the sender's own chat, a message 0, no
/// caption, no text.
pub proof fn law_an_update_is_read_field_by_field(update: JsonModel)
    ensures
        ({
            let msg = update.at("message"@);
            let read = update_of(update);
            &&& read.update_id == match update.at("update_id"@) {
                JsonModel::Number(n) => n,
                _ => None,
            }
            &&& read.from_id == match msg.at("from"@).at("id"@) {
                JsonModel::Number(Some(n)) => n,
                _ => 0,
            }
            &&& read.chat_id == match msg.at("chat"@).at("id"@) {
                JsonModel::Number(Some(n)) => n,
                _ => read.from_id,
            }
            &&& read.message_id == match msg.at("message_id"@) {
                JsonModel::Number(Some(n)) => n,
                _ => 0,
            }
            &&& read.caption == match msg.at("caption"@) {
                JsonModel::Text(t) => trimmed(t),
                _ => Seq::empty(),
            }
            &&& read.text == match msg.at("text"@) {
                JsonModel::Text(t) => Some(t),
                _ => None,
            }
            &&& read.attachment == attachment_of(msg)
        }),
{
    reveal_strlit("");
    assert(trimmed(""@) =~= Seq::<char>::empty());
}

/// Every update of an answer is read, in order, and none is added.
pub proof fn law_every_update_is_read_in_order(answer: JsonModel, items: Seq<JsonModel>, i: int)
    requires
        answer.at("ok"@) == JsonModel::Bool(true),
        answer.at("result"@) == JsonModel::Array(items),
        0 <= i <= items.len(),
    ensures
        updates_of(answer) is Batch,
        updates_of(answer)->Batch_0.len() == items.len(),
        i < items.len() ==> updates_of(answer)->Batch_0[i] == update_of(items[i]),
{
}

/// An answer that does not say `true` is a refusal, which says what Telegram said
/// of it and waits; a conflict waits longer, and is called one.
pub proof fn law_a_refused_poll_says_why(answer: JsonModel, said: Seq<char>)
    requires
        answer.at("ok"@) != JsonModel::Bool(true),
        answer.at("description"@) == JsonModel::Text(said),
    ensures
        answer.at("error_code"@) == JsonModel::Number(Some(409)) ==> updates_of(answer) == (
        UpdatesModel::Refused {
            message: "conflict: this token is already being polled elsewhere ("@ + said + ")"@,
            wait: 15,
        }),
        answer.at("error_code"@) != JsonModel::Number(Some(409)) ==> updates_of(answer) == (
        UpdatesModel::Refused { message: said, wait: 5 }),
{
}

/// The name of a bot is the one that Telegram gives, and a refusal is what it says.
pub proof fn law_get_me_tells_what_telegram_says(answer: JsonModel, said: Seq<char>)
    ensures
        answer.at("ok"@) == JsonModel::Bool(true) ==> me_of(answer) is Ok,
        answer.at("ok"@) != JsonModel::Bool(true) ==> me_of(answer) is Err,
        answer.at("ok"@) == JsonModel::Bool(true) && answer.at("result"@).at("username"@)
            == JsonModel::Text(said) ==> me_of(answer) == Ok::<Seq<char>, Seq<char>>(said),
        answer.at("ok"@) != JsonModel::Bool(true) && answer.at("description"@) == JsonModel::Text(
            said,
        ) ==> me_of(answer) == Err::<Seq<char>, Seq<char>>(said),
{
}

/// The view of an update leaves nothing out, nor does that of its attachment.
pub proof fn law_an_update_is_seen_whole(u: Update, a: Attachment)
    ensures
        u@.update_id == u.update_id,
        u@.from_id == u.from_id,
        u@.chat_id == u.chat_id,
        u@.message_id == u.message_id,
        u@.caption == u.caption@,
        u@.attachment is Some <==> u.attachment is Some,
        u.attachment is Some ==> u@.attachment->0 == u.attachment->0@,
        u@.text is Some <==> u.text is Some,
        u.text is Some ==> u@.text->0 == u.text->0@,
        a@.file_id == a.file_id@,
        a@.file_name is Some <==> a.file_name is Some,
        a.file_name is Some ==> a@.file_name->0 == a.file_name->0@,
        a@.file_size == a.file_size,
{
}

/// The view of an answer leaves nothing out: it has every update, in order.
pub proof fn law_an_answer_is_seen_whole(message: String, wait: u64, updates: Vec<Update>, i: int)
    ensures
        (Updates::Refused { message, wait })@ == (UpdatesModel::Refused { message: message@, wait }),
        Updates::Batch(updates)@->Batch_0.len() == updates@.len(),
        0 <= i < updates@.len() ==> Updates::Batch(updates)@->Batch_0[i] == updates@[i]@,
        Updates::Nothing@ is Nothing,
{
}

/// A message is read as having no attachment only when nothing in it has a
/// `file_id`.
pub proof fn law_a_message_with_a_file_has_an_attachment(msg: Json, r: Option<Attachment>)
    requires
        call_ensures(extract_attachment, (&msg,), r),
        r is None,
    ensures
        !(msg@.at("document"@).at("file_id"@) is Text),
        !(msg@.at("video"@).at("file_id"@) is Text),
        !(msg@.at("audio"@).at("file_id"@) is Text),
        !(msg@.at("voice"@).at("file_id"@) is Text),
        !(msg@.at("animation"@).at("file_id"@) is Text),
        !(msg@.at("video_note"@).at("file_id"@) is Text),
        !(msg@.at("sticker"@).at("file_id"@) is Text),
{
    law_no_file_is_passed_over(msg@);
}

/// Where the server names no user, or gives no reason, a word of its own stands in.
pub proof fn law_what_the_server_leaves_out_has_a_word(answer: JsonModel)
    ensures
        answer.at("ok"@) == JsonModel::Bool(true) && !(answer.at("result"@).at("username"@) is Text)
            ==> me_of(answer) == Ok::<Seq<char>, Seq<char>>("unknown"@),
        answer.at("ok"@) != JsonModel::Bool(true) && !(answer.at("description"@) is Text) ==> me_of(
            answer,
        ) == Err::<Seq<char>, Seq<char>>("invalid token"@),
        answer.at("ok"@) != JsonModel::Bool(true) && !(answer.at("description"@) is Text)
            && answer.at("error_code"@) != JsonModel::Number(Some(409)) ==> updates_of(answer) == (
        UpdatesModel::Refused { message: "getUpdates error"@, wait: 5 }),
{
}

/// The reaction goes to the message it is about, and is one thumbs-up.
pub proof fn law_a_saved_message_gets_one_thumbs_up(chat_id: i64, message_id: i64, r: Json)
    requires
        call_ensures(reaction_body, (chat_id, message_id), r),
    ensures
        r@.at("chat_id"@) == JsonModel::Number(Some(chat_id)),
        r@.at("message_id"@) == JsonModel::Number(Some(message_id)),
        r@.at("reaction"@).items() is Some,
        r@.at("reaction"@).items()->0.len() == 1,
        r@.at("reaction"@).items()->0[0].at("type"@) == JsonModel::Text("emoji"@),
        r@.at("reaction"@).items()->0[0].at("emoji"@) == JsonModel::Text("👍"@),
{
    reveal_strlit("chat_id");
    reveal_strlit("message_id");
    reveal_strlit("reaction");
    reveal_strlit("type");
    reveal_strlit("emoji");
    let members = r@->Object_0;
    assert("chat_id"@.len() != "message_id"@.len());
    assert("chat_id"@.len() != "reaction"@.len());
    assert("message_id"@.len() != "reaction"@.len());
    assert("type"@.len() != "emoji"@.len());
    law_a_member_is_found_by_its_name(members, "chat_id"@, 0);
    law_a_member_is_found_by_its_name(members, "message_id"@, 1);
    law_a_member_is_found_by_its_name(members, "reaction"@, 2);
    let reaction = members[2].1->Array_0[0]->Object_0;
    law_a_member_is_found_by_its_name(reaction, "type"@, 0);
    law_a_member_is_found_by_its_name(reaction, "emoji"@, 1);
}

/// A message goes to the chat it is for, with the text it has.
pub proof fn law_a_message_goes_out_as_it_is(chat_id: i64, text: &str, r: Json)
    requires
        call_ensures(message_body, (chat_id, text), r),
    ensures
        r@.at("chat_id"@) == JsonModel::Number(Some(chat_id)),
        r@.at("text"@) == JsonModel::Text(text@),
{
    reveal_strlit("chat_id");
    reveal_strlit("text");
    assert("chat_id"@.len() != "text"@.len());
    law_a_member_is_found_by_its_name(r@->Object_0, "chat_id"@, 0);
    law_a_member_is_found_by_its_name(r@->Object_0, "text"@, 1);
}

} // verus!
