//! The bot form: what the manager window posts, checked and normalized.

use crate::config::{BotConfig, BotModel, Config, ConfigModel};
use crate::number::{parse_i64, read_i64};
use crate::text::{opt_str_view, opt_view, trim, trimmed};
use vstd::prelude::*;

verus! {

/// The bot fields the manager form posts, in one payload.
pub struct BotForm {
    pub name: String,
    /// Blank on edit means to keep the stored token.
    pub token: String,
    pub file: String,
    pub read_file: Option<String>,
    pub files_dir: Option<String>,
    /// A string, so that a 64-bit Telegram user id cannot lose precision on its
    /// way through the window.
    pub allowed_user_id: String,
    pub api_base: Option<String>,
    pub enabled: bool,
    pub shortcut: Option<String>,
    pub daily_send: bool,
    pub daily_time: String,
}

/// What a [`BotForm`] holds.
#[verifier::ext_equal]
pub struct FormModel {
    pub name: Seq<char>,
    pub token: Seq<char>,
    pub file: Seq<char>,
    pub read_file: Option<Seq<char>>,
    pub files_dir: Option<Seq<char>>,
    pub allowed_user_id: Seq<char>,
    pub api_base: Option<Seq<char>>,
    pub enabled: bool,
    pub shortcut: Option<Seq<char>>,
    pub daily_send: bool,
    pub daily_time: Seq<char>,
}

impl View for BotForm {
    type V = FormModel;

    open spec fn view(&self) -> FormModel {
        FormModel {
            name: self.name@,
            token: self.token@,
            file: self.file@,
            read_file: opt_view(self.read_file),
            files_dir: opt_view(self.files_dir),
            allowed_user_id: self.allowed_user_id@,
            api_base: opt_view(self.api_base),
            enabled: self.enabled,
            shortcut: opt_view(self.shortcut),
            daily_send: self.daily_send,
            daily_time: self.daily_time@,
        }
    }
}

/// An optional field, trimmed; an all-blank one is absent.
pub open spec fn normed(v: Option<Seq<char>>) -> Option<Seq<char>> {
    if v is Some && trimmed(v->0).len() > 0 {
        Some(trimmed(v->0))
    } else {
        None
    }
}

/// `s` trimmed, or `default` where nothing is left.
pub open spec fn trimmed_or(s: Seq<char>, default: Seq<char>) -> Seq<char> {
    if trimmed(s).len() == 0 {
        default
    } else {
        trimmed(s)
    }
}

/// The user id that a field spells; zero, which allows anyone, where it spells
/// none.
pub open spec fn user_id(field: Seq<char>) -> int {
    match read_i64(trimmed(field)) {
        Some(n) => n,
        None => 0,
    }
}

/// Why a form is refused.
pub enum FormFault {
    /// There is no path to write to.
    NoFile,
    /// The user id is neither blank nor a number.
    BadUserId,
}

impl FormModel {
    /// The first reason to refuse the form, if there is one.
    pub open spec fn fault(self) -> Option<FormFault> {
        if trimmed(self.file).len() == 0 {
            Some(FormFault::NoFile)
        } else if trimmed(self.allowed_user_id).len() > 0 && read_i64(
            trimmed(self.allowed_user_id),
        ) is None {
            Some(FormFault::BadUserId)
        } else {
            None
        }
    }

    /// The token that was submitted, if the field was not left blank.
    pub open spec fn submitted_token(self) -> Option<Seq<char>> {
        normed(Some(self.token))
    }

    /// The bot that the form describes.
    pub open spec fn bot(self, id: Seq<char>, token: Seq<char>) -> BotModel {
        BotModel {
            id,
            name: trimmed_or(self.name, "Untitled"@),
            token,
            file: trimmed(self.file),
            read_file: normed(self.read_file),
            files_dir: normed(self.files_dir),
            allowed_user_id: user_id(self.allowed_user_id) as i64,
            api_base: normed(self.api_base),
            enabled: self.enabled,
            shortcut: normed(self.shortcut),
            daily_send: self.daily_send,
            daily_time: trimmed_or(self.daily_time, "08:00"@),
        }
    }
}

/// What a fault is called in the window.
pub open spec fn fault_text(fault: FormFault) -> Seq<char> {
    match fault {
        FormFault::NoFile => "a markdown file path is required"@,
        FormFault::BadUserId => "the Telegram user ID must be a number (leave it blank to allow anyone)"@,
    }
}

/// Trims an optional field, treating an all-blank value as absent, so that a blank
/// form field is stored as unset rather than as an empty string every later
/// reader has to check for again.
pub fn norm(v: Option<String>) -> (r: Option<String>)
    ensures
        opt_view(r) == normed(opt_view(v)),
{
    match v {
        Some(s) => {
            let t = trim(s.as_str());
            if t.is_empty() {
                None
            } else {
                Some(t.to_owned())
            }
        },
        None => None,
    }
}

/// Checks the add and edit forms.
///
/// A blank user id means to allow anyone. One that is no number is a typo, and
/// folding it to the same zero would switch off the bot's only access check
/// without saying so.
pub fn validate_form(form: &BotForm) -> (r: Result<(), String>)
    ensures
        match r {
            Ok(_) => form@.fault() is None,
            Err(e) => form@.fault() is Some && e@ == fault_text(form@.fault()->0),
        },
{
    if trim(form.file.as_str()).is_empty() {
        return Err("a markdown file path is required".to_owned());
    }
    let uid = trim(form.allowed_user_id.as_str());
    if !uid.is_empty() && parse_i64(uid).is_none() {
        return Err(
            "the Telegram user ID must be a number (leave it blank to allow anyone)".to_owned(),
        );
    }
    Ok(())
}

/// Bot `i` uses this token and is not the one with the excepted id.
pub open spec fn claims_token(
    c: ConfigModel,
    i: int,
    token: Seq<char>,
    except_id: Option<Seq<char>>,
) -> bool {
    c.bots[i].token == token && except_id != Some(c.bots[i].id)
}

/// Some other bot uses this token.
pub open spec fn token_taken(c: ConfigModel, token: Seq<char>, except_id: Option<Seq<char>>) -> bool {
    exists|i: int| 0 <= i < c.bots.len() && #[trigger] claims_token(c, i, token, except_id)
}

/// Bot `i` is the first that uses this token.
pub open spec fn is_first_claim(
    c: ConfigModel,
    i: int,
    token: Seq<char>,
    except_id: Option<Seq<char>>,
) -> bool {
    &&& 0 <= i < c.bots.len()
    &&& claims_token(c, i, token, except_id)
    &&& forall|k: int| 0 <= k < i ==> !#[trigger] claims_token(c, k, token, except_id)
}

/// What is said of a token that another bot already uses.
pub open spec fn token_taken_text(name: Seq<char>) -> Seq<char> {
    "that token already belongs to \""@ + name
        + "\" — two bots on one token save every message twice"@
}

/// Rejects a token another bot is already bound to.
///
/// Two bots on one token are two poll loops draining one update queue with
/// offsets of their own: both receive an update and both append it.
pub fn ensure_token_unused(config: &Config, token: &str, except_id: Option<&str>) -> (r: Result<
    (),
    String,
>)
    ensures
        match r {
            Ok(_) => !token_taken(config@, token@, opt_str_view(except_id)),
            Err(e) => exists|i: int|
                #![trigger config@.bots[i]]
                is_first_claim(config@, i, token@, opt_str_view(except_id)) && e@
                    == token_taken_text(config@.bots[i].name),
        },
{
    let wanted = token.to_owned();
    let mut i: usize = 0;
    while i < config.bots.len()
        invariant
            i <= config.bots@.len(),
            wanted@ == token@,
            forall|k: int|
                0 <= k < i ==> !#[trigger] claims_token(config@, k, token@, opt_str_view(except_id)),
        decreases config.bots@.len() - i,
    {
        let bot = &config.bots[i];
        let ghost model = config@.bots[i as int];
        assert(model == bot@);
        let excepted = match except_id {
            Some(id) => bot.id == id.to_owned(),
            None => false,
        };
        if bot.token == wanted && !excepted {
            assert(is_first_claim(config@, i as int, token@, opt_str_view(except_id)));
            let mut out = "that token already belongs to \"".to_owned();
            out.append(bot.name.as_str());
            out.append("\" — two bots on one token save every message twice");
            return Err(out);
        }
        assert(!claims_token(config@, i as int, token@, opt_str_view(except_id)));
        i += 1;
    }
    Ok(())
}

impl BotForm {
    /// The submitted token, trimmed, or `None` when the field was left blank.
    pub fn token(&self) -> (r: Option<&str>)
        ensures
            opt_str_view(r) == self@.submitted_token(),
    {
        let t = trim(self.token.as_str());
        if t.is_empty() {
            None
        } else {
            Some(t)
        }
    }

    /// Builds a complete bot record from the form. All trimming and defaulting
    /// happens here, so the rest of the app never sees a stray-whitespace path or
    /// a present-but-blank override.
    pub fn into_config(self, id: String, token: String) -> (r: BotConfig)
        ensures
            r@ == self@.bot(id@, token@),
    {
        let name = trim(self.name.as_str());
        let daily_time = trim(self.daily_time.as_str());
        let allowed_user_id: i64 = match parse_i64(trim(self.allowed_user_id.as_str())) {
            Some(n) => n,
            None => 0,
        };
        BotConfig {
            id,
            name: if name.is_empty() {
                "Untitled".to_owned()
            } else {
                name.to_owned()
            },
            token,
            file: trim(self.file.as_str()).to_owned(),
            daily_time: if daily_time.is_empty() {
                "08:00".to_owned()
            } else {
                daily_time.to_owned()
            },
            read_file: norm(self.read_file),
            files_dir: norm(self.files_dir),
            allowed_user_id,
            api_base: norm(self.api_base),
            enabled: self.enabled,
            shortcut: norm(self.shortcut),
            daily_send: self.daily_send,
        }
    }
}

/// A form that passes the check lets anyone in only when its user id is blank or
/// spells zero: a mistyped id never turns the access check off.
pub proof fn law_a_typo_never_opens_the_door(form: FormModel, id: Seq<char>, token: Seq<char>)
    requires
        form.fault() is None,
    ensures
        form.bot(id, token).allowed_user_id == 0 ==> trimmed(form.allowed_user_id).len() == 0
            || read_i64(trimmed(form.allowed_user_id)) == Some(0int),
        trimmed(form.allowed_user_id).len() > 0 ==> Some(
            form.bot(id, token).allowed_user_id as int,
        ) == read_i64(trimmed(form.allowed_user_id)),
{
}

/// A bot built from a form that passes the check has somewhere to write.
pub proof fn law_a_valid_form_has_a_file(form: FormModel, id: Seq<char>, token: Seq<char>)
    requires
        form.fault() is None,
    ensures
        form.bot(id, token).file.len() > 0,
{
}

/// A bot is what its form says, field by field: the switches as they are, the file
/// and the optional fields trimmed, an optional field absent where it is blank,
/// and nothing of one field in another.
pub proof fn law_a_bot_is_what_its_form_says(form: FormModel, id: Seq<char>, token: Seq<char>)
    ensures
        ({
            let bot = form.bot(id, token);
            &&& bot.id == id
            &&& bot.token == token
            &&& bot.enabled == form.enabled
            &&& bot.daily_send == form.daily_send
            &&& bot.file == trimmed(form.file)
            &&& bot.name == if trimmed(form.name).len() > 0 {
                trimmed(form.name)
            } else {
                "Untitled"@
            }
            &&& bot.daily_time == if trimmed(form.daily_time).len() > 0 {
                trimmed(form.daily_time)
            } else {
                "08:00"@
            }
            &&& bot.read_file == match form.read_file {
                Some(t) => if trimmed(t).len() > 0 {
                    Some(trimmed(t))
                } else {
                    None
                },
                None => None,
            }
            &&& bot.files_dir == match form.files_dir {
                Some(t) => if trimmed(t).len() > 0 {
                    Some(trimmed(t))
                } else {
                    None
                },
                None => None,
            }
            &&& bot.api_base == match form.api_base {
                Some(t) => if trimmed(t).len() > 0 {
                    Some(trimmed(t))
                } else {
                    None
                },
                None => None,
            }
            &&& bot.shortcut == match form.shortcut {
                Some(t) => if trimmed(t).len() > 0 {
                    Some(trimmed(t))
                } else {
                    None
                },
                None => None,
            }
            &&& trimmed(form.allowed_user_id).len() == 0 ==> bot.allowed_user_id == 0
            &&& read_i64(trimmed(form.allowed_user_id)) is Some ==> bot.allowed_user_id as int
                == read_i64(trimmed(form.allowed_user_id))->0
        }),
{
}

/// A form is refused for two things only: there is no file, or the user id is
/// neither blank nor a number. The token that it submits is the one in it,
/// trimmed, if anything is left of it.
pub proof fn law_a_form_is_refused_for_two_things_only(form: FormModel)
    ensures
        form.fault() is None <==> trimmed(form.file).len() > 0 && (trimmed(
            form.allowed_user_id,
        ).len() == 0 || read_i64(trimmed(form.allowed_user_id)) is Some),
        form.fault() == Some(FormFault::NoFile) <==> trimmed(form.file).len() == 0,
        form.submitted_token() is Some <==> trimmed(form.token).len() > 0,
        form.submitted_token() is Some ==> form.submitted_token()->0 == trimmed(form.token),
{
}

/// A token is taken exactly when some bot has it, other than the one that is being
/// edited.
pub proof fn law_a_token_is_taken_by_another_bot(
    c: ConfigModel,
    token: Seq<char>,
    except_id: Option<Seq<char>>,
)
    ensures
        token_taken(c, token, except_id) <==> exists|i: int|
            0 <= i < c.bots.len() && (#[trigger] c.bots[i]).token == token && Some(c.bots[i].id)
                != except_id,
{
    if token_taken(c, token, except_id) {
        let i = choose|i: int|
            0 <= i < c.bots.len() && #[trigger] claims_token(c, i, token, except_id);
        assert(c.bots[i].token == token);
    }
    if exists|i: int|
        0 <= i < c.bots.len() && (#[trigger] c.bots[i]).token == token && Some(c.bots[i].id)
            != except_id {
        let i = choose|i: int|
            0 <= i < c.bots.len() && (#[trigger] c.bots[i]).token == token && Some(c.bots[i].id)
                != except_id;
        assert(claims_token(c, i, token, except_id));
    }
}

/// The view of a form leaves nothing out.
pub proof fn law_a_form_is_seen_whole(f: BotForm)
    ensures
        f@.name == f.name@,
        f@.token == f.token@,
        f@.file == f.file@,
        f@.allowed_user_id == f.allowed_user_id@,
        f@.daily_time == f.daily_time@,
        f@.read_file is Some <==> f.read_file is Some,
        f.read_file is Some ==> f@.read_file->0 == f.read_file->0@,
        f@.files_dir is Some <==> f.files_dir is Some,
        f.files_dir is Some ==> f@.files_dir->0 == f.files_dir->0@,
        f@.api_base is Some <==> f.api_base is Some,
        f.api_base is Some ==> f@.api_base->0 == f.api_base->0@,
        f@.shortcut is Some <==> f.shortcut is Some,
        f.shortcut is Some ==> f@.shortcut->0 == f.shortcut->0@,
        f@.enabled == f.enabled,
        f@.daily_send == f.daily_send,
{
}

/// The bot that is named for a token is the first other one that has it.
pub proof fn law_the_first_holder_is_named(
    c: ConfigModel,
    i: int,
    token: Seq<char>,
    except_id: Option<Seq<char>>,
)
    ensures
        is_first_claim(c, i, token, except_id) <==> 0 <= i < c.bots.len() && c.bots[i].token
            == token && Some(c.bots[i].id) != except_id && forall|k: int|
            0 <= k < i ==> (#[trigger] c.bots[k]).token != token || Some(c.bots[k].id)
                == except_id,
{
    if is_first_claim(c, i, token, except_id) {
        assert forall|k: int| 0 <= k < i implies (#[trigger] c.bots[k]).token != token || Some(
            c.bots[k].id,
        ) == except_id by {
            assert(!claims_token(c, k, token, except_id));
        }
    }
}

/// A bot takes over every switch and every text of its form; of a text, white space
/// around it is dropped, and an optional one that is blank is none.
pub proof fn law_a_bot_takes_over_its_form(form: BotForm, id: String, token: String, r: BotConfig)
    requires
        call_ensures(BotForm::into_config, (form, id, token), r),
    ensures
        r.id@ == id@,
        r.token@ == token@,
        r.enabled == form.enabled,
        r.daily_send == form.daily_send,
        r.file@ == trimmed(form.file@),
        trimmed(form.name@).len() > 0 ==> r.name@ == trimmed(form.name@),
        trimmed(form.daily_time@).len() > 0 ==> r.daily_time@ == trimmed(form.daily_time@),
        r.read_file is Some <==> form.read_file is Some && trimmed(form.read_file->0@).len() > 0,
        r.read_file is Some ==> r.read_file->0@ == trimmed(form.read_file->0@),
        r.files_dir is Some <==> form.files_dir is Some && trimmed(form.files_dir->0@).len() > 0,
        r.files_dir is Some ==> r.files_dir->0@ == trimmed(form.files_dir->0@),
        r.api_base is Some <==> form.api_base is Some && trimmed(form.api_base->0@).len() > 0,
        r.api_base is Some ==> r.api_base->0@ == trimmed(form.api_base->0@),
        r.shortcut is Some <==> form.shortcut is Some && trimmed(form.shortcut->0@).len() > 0,
        r.shortcut is Some ==> r.shortcut->0@ == trimmed(form.shortcut->0@),
        read_i64(trimmed(form.allowed_user_id@)) is Some ==> r.allowed_user_id as int == read_i64(
            trimmed(form.allowed_user_id@),
        )->0,
{
    law_a_bot_is_what_its_form_says(form@, id@, token@);
    law_a_form_is_seen_whole(form);
    assert(r@ == form@.bot(id@, token@));
    assert(r@.read_file == opt_view(r.read_file));
    assert(r@.files_dir == opt_view(r.files_dir));
    assert(r@.api_base == opt_view(r.api_base));
    assert(r@.shortcut == opt_view(r.shortcut));
}

/// Each fault of a form has its own words, and a token in use is told with the name
/// of the bot that has it.
pub proof fn law_a_fault_is_told_in_words(fault: FormFault, name: Seq<char>)
    ensures
        fault is NoFile ==> fault_text(fault) == "a markdown file path is required"@,
        fault is BadUserId ==> fault_text(fault)
            == "the Telegram user ID must be a number (leave it blank to allow anyone)"@,
        token_taken_text(name) == "that token already belongs to \""@ + name
            + "\" — two bots on one token save every message twice"@,
{
}

} // verus!
