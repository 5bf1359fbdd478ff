//! What the manager window can ask for.

use crate::clock::{fresh_id, is_random_id, is_time_of_day, time_of_day};
use crate::config::{bot_models, BotConfig, BotModel, Config, ConfigModel};
use crate::form::{
    claims_token, ensure_token_unused, fault_text, is_first_claim,
    law_a_token_is_taken_by_another_bot, token_taken, token_taken_text, validate_form, BotForm,
    FormModel,
};
use crate::notes::prefixed;
use crate::number::{
    decimal, decimal_i64, decimal_int, is_digit, law_i64_round_trip, lemma_decimal_is_digits,
    read_i64,
};
use crate::paths::{file_name_or, name_or, path_file_name};
use crate::server::SecretUndo;
use crate::status::{BotStatus, StatusModel};
use crate::table::{known, StatusTable};
use crate::text::{
    begins_with, copy_opt, law_trimming_takes_only_white_space, lemma_tight_is_trimmed, opt_view,
    same_text, trim, trimmed, white_space,
};
use vstd::prelude::*;

verus! {

/// What is said where no bot has the id that was asked for.
pub const BOT_NOT_FOUND: &'static str = "bot not found";

/// What is said where a new bot comes without a token.
pub const TOKEN_REQUIRED: &'static str = "a bot token is required";

/// A bot may be added: the form is in order, it has a token, and no bot uses it.
pub open spec fn may_add(config: ConfigModel, form: FormModel) -> bool {
    form.fault() is None && form.submitted_token() is Some && !token_taken(
        config,
        form.submitted_token()->0,
        None,
    )
}

/// Why a bot may not be added: the first thing that is wrong.
pub open spec fn is_add_error(config: ConfigModel, form: FormModel, error: Seq<char>) -> bool {
    if form.fault() is Some {
        error == fault_text(form.fault()->0)
    } else if form.submitted_token() is None {
        error == TOKEN_REQUIRED@
    } else {
        exists|i: int|
            #![trigger config.bots[i]]
            is_first_claim(config, i, form.submitted_token()->0, None) && error == token_taken_text(
                config.bots[i].name,
            )
    }
}

/// Makes the bot that a form describes, under `id`. A form without a file or a
/// token, or with a token that is in use, is refused before anything is stored.
pub fn new_bot(config: &Config, form: BotForm, id: String) -> (r: Result<BotConfig, String>)
    ensures
        match r {
            Ok(bot) => may_add(config@, form@) && bot@ == form@.bot(
                id@,
                form@.submitted_token()->0,
            ),
            Err(e) => !may_add(config@, form@) && is_add_error(config@, form@, e@),
        },
{
    validate_form(&form)?;
    let token = match form.token() {
        Some(t) => t.to_owned(),
        None => {
            return Err(TOKEN_REQUIRED.to_owned());
        },
    };
    match ensure_token_unused(config, token.as_str(), None) {
        Ok(_) => Ok(form.into_config(id, token)),
        Err(e) => {
            proof {
                let i = choose|i: int|
                    #![trigger config@.bots[i]]
                    is_first_claim(config@, i, token@, None) && e@ == token_taken_text(
                        config@.bots[i].name,
                    );
                assert(claims_token(config@, i, token@, None));
            }
            Err(e)
        },
    }
}

/// Makes the bot that a form describes, under a fresh id.
pub fn new_bot_now(config: &Config, form: BotForm) -> (r: Result<BotConfig, String>)
    ensures
        match r {
            Ok(bot) => may_add(config@, form@) && is_random_id(bot@.id) && bot@ == form@.bot(
                bot@.id,
                form@.submitted_token()->0,
            ),
            Err(e) => !may_add(config@, form@) && is_add_error(config@, form@, e@),
        },
{
    new_bot(config, form, fresh_id())
}

/// The config with one more bot.
pub fn with_added(config: &Config, bot: &BotConfig) -> (r: Config)
    ensures
        r@ == (ConfigModel { bots: config@.bots.push(bot@), ..config@ }),
{
    let mut next = config.clone();
    let ghost before = next.bots@;
    next.bots.push(bot.clone());
    assert(bot_models(next.bots@) =~= bot_models(before).push(bot@));
    next
}

/// An edited form may be taken: it is in order, and no other bot uses its token.
pub open spec fn may_edit(config: ConfigModel, form: FormModel, id: Seq<char>) -> bool {
    form.fault() is None && (form.submitted_token() is Some ==> !token_taken(
        config,
        form.submitted_token()->0,
        Some(id),
    ))
}

/// Why an edited form may not be taken: the first thing that is wrong.
pub open spec fn is_edit_error(
    config: ConfigModel,
    form: FormModel,
    id: Seq<char>,
    error: Seq<char>,
) -> bool {
    if form.fault() is Some {
        error == fault_text(form.fault()->0)
    } else {
        exists|i: int|
            #![trigger config.bots[i]]
            is_first_claim(config, i, form.submitted_token()->0, Some(id)) && error
                == token_taken_text(config.bots[i].name)
    }
}

/// Checks an edited form, before anything is stored. Returns the token that is to
/// be stored; `None` keeps the one there is.
pub fn check_edit(config: &Config, form: &BotForm, id: &str) -> (r: Result<Option<String>, String>)
    ensures
        match r {
            Ok(token) => may_edit(config@, form@, id@) && opt_view(token)
                == form@.submitted_token(),
            Err(e) => !may_edit(config@, form@, id@) && is_edit_error(config@, form@, id@, e@),
        },
{
    validate_form(form)?;
    match form.token() {
        Some(t) => match ensure_token_unused(config, t, Some(id)) {
            Ok(_) => Ok(Some(t.to_owned())),
            Err(e) => {
                proof {
                    let i = choose|i: int|
                        #![trigger config@.bots[i]]
                        is_first_claim(config@, i, t@, Some(id@)) && e@ == token_taken_text(
                            config@.bots[i].name,
                        );
                    assert(claims_token(config@, i, t@, Some(id@)));
                }
                Err(e)
            },
        },
        None => Ok(None),
    }
}

/// The bot that an edited form makes of the one there is.
pub open spec fn edited(bot: BotModel, form: FormModel) -> BotModel {
    form.bot(
        bot.id,
        match form.submitted_token() {
            Some(t) => t,
            None => bot.token,
        },
    )
}

/// A changed config, with what was there before.
pub struct Change {
    pub config: Config,
    /// The bot as it is now.
    pub bot: BotConfig,
    /// The token that it had.
    pub previous_token: String,
}

/// The config with the first bot of that id replaced by what an edited form makes
/// of it. A blank token keeps the one there is.
pub fn with_edited(config: &Config, id: &str, form: BotForm) -> (r: Result<Change, String>)
    ensures
        match r {
            Ok(change) => exists|i: int|
                #![trigger config@.bots[i]]
                {
                    &&& config@.is_first(i, id@)
                    &&& change.bot@ == edited(config@.bots[i], form@)
                    &&& change.previous_token@ == config@.bots[i].token
                    &&& change.config@ == (ConfigModel {
                        bots: config@.bots.update(i, change.bot@),
                        ..config@
                    })
                },
            Err(e) => !config@.has(id@) && e@ == BOT_NOT_FOUND@,
        },
{
    let i = match config.position(id) {
        Some(i) => i,
        None => {
            return Err(BOT_NOT_FOUND.to_owned());
        },
    };
    let previous_token = config.bots[i].token.clone();
    let token = match form.token() {
        Some(t) => t.to_owned(),
        None => previous_token.clone(),
    };
    let bot = form.into_config(id.to_owned(), token);
    let mut next = config.clone();
    let ghost before = next.bots@;
    next.bots.set(i, bot.clone());
    proof {
        assert(config@.bots[i as int].id == id@);
        assert(bot@ == edited(config@.bots[i as int], form@));
        assert(bot_models(next.bots@) =~= bot_models(before).update(i as int, bot@));
    }
    Ok(Change { config: next, bot, previous_token })
}

/// What to do with a bot's token in the Keychain when an edit could not be saved:
/// a new one is taken back, so that it does not drift ahead of the config.
pub fn undo_token(stored: bool, previous_token: &str) -> (r: SecretUndo)
    ensures
        match r {
            SecretUndo::Keep => !stored,
            SecretUndo::Clear => false,
            SecretUndo::Restore(token) => stored && token@ == previous_token@,
        },
{
    if stored {
        SecretUndo::Restore(previous_token.to_owned())
    } else {
        SecretUndo::Keep
    }
}

/// The config without the first bot of that id.
pub fn with_removed(config: &Config, id: &str) -> (r: Result<Config, String>)
    ensures
        match r {
            Ok(next) => exists|i: int|
                #![trigger config@.bots[i]]
                config@.is_first(i, id@) && next@ == (ConfigModel {
                    bots: config@.bots.remove(i),
                    ..config@
                }),
            Err(e) => !config@.has(id@) && e@ == BOT_NOT_FOUND@,
        },
{
    let i = match config.position(id) {
        Some(i) => i,
        None => {
            return Err(BOT_NOT_FOUND.to_owned());
        },
    };
    let mut next = config.clone();
    let ghost before = next.bots@;
    next.bots.remove(i);
    proof {
        assert(config@.bots[i as int].id == id@);
        assert(bot_models(next.bots@) =~= bot_models(before).remove(i as int));
    }
    Ok(next)
}

/// The config with the first bot of that id switched on or off, and that bot.
pub fn with_enabled(config: &Config, id: &str, enabled: bool) -> (r: Result<
    (Config, BotConfig),
    String,
>)
    ensures
        match r {
            Ok((next, bot)) => exists|i: int|
                #![trigger config@.bots[i]]
                {
                    &&& config@.is_first(i, id@)
                    &&& bot@ == (BotModel { enabled, ..config@.bots[i] })
                    &&& next@ == (ConfigModel { bots: config@.bots.update(i, bot@), ..config@ })
                },
            Err(e) => !config@.has(id@) && e@ == BOT_NOT_FOUND@,
        },
{
    let i = match config.position(id) {
        Some(i) => i,
        None => {
            return Err(BOT_NOT_FOUND.to_owned());
        },
    };
    let mut bot = config.bots[i].clone();
    bot.enabled = enabled;
    let mut next = config.clone();
    let ghost before = next.bots@;
    next.bots.set(i, bot.clone());
    proof {
        assert(config@.bots[i as int].id == id@);
        assert(bot_models(next.bots@) =~= bot_models(before).update(i as int, bot@));
    }
    Ok((next, bot))
}

/// No two bots use the same token.
pub open spec fn tokens_apart(config: ConfigModel) -> bool {
    forall|i: int, j: int|
        0 <= i < j < config.bots.len() && (#[trigger] config.bots[i]).token.len() > 0
            ==> config.bots[i].token != (#[trigger] config.bots[j]).token
}

/// No two bots have the same id.
pub open spec fn ids_apart(config: ConfigModel) -> bool {
    forall|i: int, j: int|
        0 <= i < j < config.bots.len() ==> (#[trigger] config.bots[i]).id != (
        #[trigger] config.bots[j]).id
}

/// Adding a bot never puts two on one token, which would save every message
/// twice.
pub proof fn law_an_added_bot_shares_no_token(config: ConfigModel, form: FormModel, id: Seq<char>)
    requires
        tokens_apart(config),
        may_add(config, form),
    ensures
        tokens_apart(
            ConfigModel {
                bots: config.bots.push(form.bot(id, form.submitted_token()->0)),
                ..config
            },
        ),
{
    let token = form.submitted_token()->0;
    let next = config.bots.push(form.bot(id, token));
    assert forall|i: int, j: int|
        0 <= i < j < next.len() && (#[trigger] next[i]).token.len() > 0 implies next[i].token != (
    #[trigger] next[j]).token by {
        if j == config.bots.len() {
            assert(!claims_token(config, i, token, None));
        } else {
            assert(config.bots[i].token != config.bots[j].token);
        }
    }
}

/// Nor does editing one.
pub proof fn law_an_edited_bot_shares_no_token(
    config: ConfigModel,
    form: FormModel,
    id: Seq<char>,
    i: int,
)
    requires
        tokens_apart(config),
        ids_apart(config),
        config.is_first(i, id),
        may_edit(config, form, id),
    ensures
        tokens_apart(
            ConfigModel {
                bots: config.bots.update(i, edited(config.bots[i], form)),
                ..config
            },
        ),
        ids_apart(
            ConfigModel {
                bots: config.bots.update(i, edited(config.bots[i], form)),
                ..config
            },
        ),
{
    let bot = edited(config.bots[i], form);
    let next = config.bots.update(i, bot);
    assert forall|k: int| 0 <= k < next.len() implies (#[trigger] next[k]).id == config.bots[k].id by {}
    assert forall|a: int, b: int| 0 <= a < b < next.len() implies (#[trigger] next[a]).id != (
    #[trigger] next[b]).id by {
        assert(config.bots[a].id != config.bots[b].id);
    }
    assert forall|a: int, b: int|
        0 <= a < b < next.len() && (#[trigger] next[a]).token.len() > 0 implies next[a].token != (
    #[trigger] next[b]).token by {
        assert(config.bots[a].id != config.bots[b].id);
        if form.submitted_token() is Some && (a == i || b == i) {
            let other = if a == i {
                b
            } else {
                a
            };
            assert(config.bots[other].id != id);
            assert(!claims_token(config, other, form.submitted_token()->0, Some(id)));
        } else {
            assert(config.bots[a].token != config.bots[b].token || config.bots[a].token.len() == 0);
        }
    }
}

/// What the manager window shows of a bot. The token is not in it.
pub struct BotView {
    pub id: String,
    pub name: String,
    /// Whether a token is stored, so that the form can offer to keep it.
    pub has_token: bool,
    pub file: String,
    pub read_file: Option<String>,
    pub files_dir: Option<String>,
    /// As text, so that a 64-bit id cannot lose precision on its way to the window
    /// and back.
    pub allowed_user_id: String,
    pub api_base: Option<String>,
    pub enabled: bool,
    pub shortcut: Option<String>,
    pub daily_send: bool,
    pub daily_time: String,
    pub status: BotStatus,
}

/// What a [`BotView`] holds.
#[verifier::ext_equal]
pub struct ViewModel {
    pub id: Seq<char>,
    pub name: Seq<char>,
    pub has_token: bool,
    pub file: Seq<char>,
    pub read_file: Option<Seq<char>>,
    pub files_dir: Option<Seq<char>>,
    pub allowed_user_id: Seq<char>,
    pub api_base: Option<Seq<char>>,
    pub enabled: bool,
    pub shortcut: Option<Seq<char>>,
    pub daily_send: bool,
    pub daily_time: Seq<char>,
    pub status: StatusModel,
}

impl View for BotView {
    type V = ViewModel;

    open spec fn view(&self) -> ViewModel {
        ViewModel {
            id: self.id@,
            name: self.name@,
            has_token: self.has_token,
            file: self.file@,
            read_file: opt_view(self.read_file),
            files_dir: opt_view(self.files_dir),
            allowed_user_id: self.allowed_user_id@,
            api_base: opt_view(self.api_base),
            enabled: self.enabled,
            shortcut: opt_view(self.shortcut),
            daily_send: self.daily_send,
            daily_time: self.daily_time@,
            status: self.status@,
        }
    }
}

/// What the manager window shows of a bot.
pub open spec fn shown(bot: BotModel, status: StatusModel) -> ViewModel {
    ViewModel {
        id: bot.id,
        name: bot.name,
        has_token: bot.token.len() > 0,
        file: bot.file,
        read_file: bot.read_file,
        files_dir: bot.files_dir,
        allowed_user_id: decimal_int(bot.allowed_user_id as int),
        api_base: bot.api_base,
        enabled: bot.enabled,
        shortcut: bot.shortcut,
        daily_send: bot.daily_send,
        daily_time: bot.daily_time,
        status,
    }
}

/// What the manager window shows of a bot.
pub fn bot_view(bot: &BotConfig, status: BotStatus) -> (r: BotView)
    ensures
        r@ == shown(bot@, status@),
{
    BotView {
        id: bot.id.clone(),
        name: bot.name.clone(),
        has_token: !bot.token.as_str().is_empty(),
        file: bot.file.clone(),
        read_file: copy_opt(&bot.read_file),
        files_dir: copy_opt(&bot.files_dir),
        allowed_user_id: decimal_i64(bot.allowed_user_id),
        api_base: copy_opt(&bot.api_base),
        enabled: bot.enabled,
        shortcut: copy_opt(&bot.shortcut),
        daily_send: bot.daily_send,
        daily_time: bot.daily_time.clone(),
        status,
    }
}

/// What the manager window shows: every bot, in order, with its status, which is
/// blank for a bot that has none yet.
pub fn bot_views(config: &Config, table: &StatusTable) -> (r: Vec<BotView>)
    requires
        table.wf(),
    ensures
        r@.len() == config@.bots.len(),
        forall|i: int|
            0 <= i < r@.len() ==> (#[trigger] r@[i])@ == shown(
                config@.bots[i],
                known(table@, config@.bots[i].id),
            ),
{
    let mut out: Vec<BotView> = Vec::new();
    let mut i: usize = 0;
    while i < config.bots.len()
        invariant
            i <= config.bots@.len(),
            table.wf(),
            out@.len() == i,
            forall|k: int|
                0 <= k < i ==> (#[trigger] out@[k])@ == shown(
                    config@.bots[k],
                    known(table@, config@.bots[k].id),
                ),
        decreases config.bots@.len() - i,
    {
        let bot = &config.bots[i];
        assert(config@.bots[i as int] == bot@);
        out.push(bot_view(bot, table.status_of(bot.id.as_str())));
        i += 1;
    }
    out
}

/// The window never learns a token: two bots that differ in nothing but the token
/// they have look the same.
pub proof fn law_the_window_never_sees_a_token(
    bot: BotModel,
    token: Seq<char>,
    status: StatusModel,
)
    requires
        bot.token.len() > 0,
        token.len() > 0,
    ensures
        shown(BotModel { token, ..bot }, status) == shown(bot, status),
{
}

/// A user id survives the way to the window and back unchanged.
pub proof fn law_a_user_id_survives_the_window(bot: BotModel, status: StatusModel)
    ensures
        read_i64(shown(bot, status).allowed_user_id) == Some(bot.allowed_user_id as int),
{
    law_i64_round_trip(bot.allowed_user_id);
}

/// The bot that a note is taken for, or that files are dropped on.
pub fn find_bot(config: &Config, id: &str) -> (r: Result<BotConfig, String>)
    ensures
        match r {
            Ok(bot) => exists|i: int|
                #![trigger config@.bots[i]]
                config@.is_first(i, id@) && bot@ == config@.bots[i],
            Err(e) => !config@.has(id@) && e@ == BOT_NOT_FOUND@,
        },
{
    match config.position(id) {
        Some(i) => {
            assert(config@.bots[i as int] == config.bots@[i as int]@);
            Ok(config.bots[i].clone())
        },
        None => Err(BOT_NOT_FOUND.to_owned()),
    }
}

/// The name of a bot, empty where there is none.
pub fn bot_name(config: &Config, id: &str) -> (r: String)
    ensures
        config@.has(id@) ==> exists|i: int|
            #![trigger config@.bots[i]]
            config@.is_first(i, id@) && r@ == config@.bots[i].name,
        !config@.has(id@) ==> r@.len() == 0,
{
    match config.position(id) {
        Some(i) => {
            assert(config@.bots[i as int] == config.bots@[i as int]@);
            config.bots[i].name.clone()
        },
        None => String::new(),
    }
}

/// The status after `n` notes were taken here at the time of day `at`.
pub open spec fn taken(status: StatusModel, n: u64, at: Seq<char>) -> StatusModel {
    if n == 0 {
        status
    } else {
        StatusModel {
            message_count: (status.message_count + n) as u64,
            last_message_at: Some(at),
            ..status
        }
    }
}

/// Counts `n` notes that were taken here at the time of day `at`.
pub fn record_saved(status: &mut BotStatus, n: u64, at: String)
    requires
        old(status)@.message_count + n <= u64::MAX,
    ensures
        final(status)@ == taken(old(status)@, n, at@),
{
    if n == 0 {
        return;
    }
    status.message_count += n;
    status.last_message_at = Some(at);
}

/// Counts `n` notes that were taken here just now.
pub fn record_saved_now(status: &mut BotStatus, n: u64)
    requires
        old(status)@.message_count + n <= u64::MAX,
    ensures
        exists|at: Seq<char>|
            is_time_of_day(at) && final(status)@ == #[trigger] taken(old(status)@, n, at),
{
    record_saved(status, n, time_of_day())
}

/// What stands at a path that was dropped on the window.
pub enum Dropped {
    File,
    Folder,
    /// It could not be looked at, for this reason.
    Unreadable(String),
}

/// What a dropped path comes to: the name of the file to copy, or why there is
/// nothing to copy.
pub open spec fn dropped(src: Seq<char>, what: Dropped) -> Result<Seq<char>, Seq<char>> {
    match what {
        Dropped::File => Ok(name_or(src, "file"@)),
        Dropped::Folder => Err(
            name_or(src, src) + " is a folder — drop individual files, not folders"@,
        ),
        Dropped::Unreadable(e) => Err("can't read "@ + src + ": "@ + e@),
    }
}

/// Checks a path that was dropped on the window. Only files are saved: a folder,
/// or what cannot be read, is said rather than passed over.
pub fn check_dropped(src: &str, what: &Dropped) -> (r: Result<String, String>)
    ensures
        match r {
            Ok(name) => dropped(src@, *what) == Ok::<Seq<char>, Seq<char>>(name@),
            Err(e) => dropped(src@, *what) == Err::<Seq<char>, Seq<char>>(e@),
        },
{
    match what {
        Dropped::File => Ok(file_name_or(src, "file")),
        Dropped::Folder => {
            let mut out = file_name_or(src, src);
            out.append(" is a folder — drop individual files, not folders");
            Err(out)
        },
        Dropped::Unreadable(e) => {
            let mut out = prefixed("can't read ", src);
            out.append(": ");
            out.append(e.as_str());
            Err(out)
        },
    }
}

/// What is said when a dropped file could not be copied.
pub fn copy_failed(name: &str, error: &str) -> (r: String)
    ensures
        r@ == "could not copy "@ + name@ + ": "@ + error@,
{
    let mut out = prefixed("could not copy ", name);
    out.append(": ");
    out.append(error);
    out
}

/// What is said when a dropped file was copied but not noted.
pub fn note_failed(name: &str, error: &str) -> (r: String)
    ensures
        r@ == name@ + " copied but note write failed: "@ + error@,
{
    let mut out = prefixed(name, " copied but note write failed: ");
    out.append(error);
    out
}

/// What to do with files that were dropped together.
pub enum DropStep {
    /// Save the file with this number.
    Save(usize),
    /// All of them are saved: so many.
    Done(usize),
    /// So many were saved before one could not be, for this reason.
    Failed(usize, String),
}

/// What to do once `saved` of `total` dropped files are saved.
pub fn next_file(saved: usize, total: usize) -> (r: DropStep)
    ensures
        saved < total ==> r == DropStep::Save(saved),
        saved >= total ==> r == DropStep::Done(saved),
{
    if saved < total {
        DropStep::Save(saved)
    } else {
        DropStep::Done(saved)
    }
}

/// What to do after the file with the number `file`, all before which are saved:
/// the first that cannot be saved ends it, and those before it still count.
pub fn after_file(file: usize, total: usize, went: Result<(), String>) -> (r: DropStep)
    requires
        file < total,
    ensures
        match went {
            Ok(_) => if file + 1 < total {
                r == DropStep::Save((file + 1) as usize)
            } else {
                r == DropStep::Done(total)
            },
            Err(e) => r == DropStep::Failed(file, e),
        },
{
    match went {
        Ok(_) => next_file(file + 1, total),
        Err(e) => DropStep::Failed(file, e),
    }
}

/// Checks the path of a note that is to be opened.
pub fn check_note_path(file: &str) -> (r: Result<(), String>)
    ensures
        r is Ok <==> trimmed(file@).len() > 0,
        r matches Err(e) ==> e@ == "no file path set for this bot"@,
{
    if trim(file).is_empty() {
        return Err("no file path set for this bot".to_owned());
    }
    Ok(())
}

/// The hotkey of a bot, where it is not blank.
pub open spec fn hotkey(bot: BotModel) -> Option<Seq<char>> {
    match bot.shortcut {
        Some(s) => if trimmed(s).len() > 0 {
            Some(s)
        } else {
            None
        },
        None => None,
    }
}

/// The hotkeys of a list of bots, each with the id of its bot.
pub open spec fn hotkeys(bots: Seq<BotModel>) -> Seq<(Seq<char>, Seq<char>)>
    decreases bots.len(),
{
    if bots.len() == 0 {
        Seq::empty()
    } else {
        let front = hotkeys(bots.drop_last());
        match hotkey(bots.last()) {
            Some(s) => front.push((s, bots.last().id)),
            None => front,
        }
    }
}

/// The texts of a list of pairs.
pub open spec fn pair_texts(pairs: Seq<(String, String)>) -> Seq<(Seq<char>, Seq<char>)> {
    pairs.map_values(|p: (String, String)| (p.0@, p.1@))
}

/// The hotkeys to register, each with the id of the bot it is for.
pub fn wanted_hotkeys(config: &Config) -> (r: Vec<(String, String)>)
    ensures
        pair_texts(r@) == hotkeys(config@.bots),
{
    let mut out: Vec<(String, String)> = Vec::new();
    let mut i: usize = 0;
    assert(config@.bots.take(0) =~= Seq::<BotModel>::empty());
    assert(pair_texts(out@) =~= Seq::<(Seq<char>, Seq<char>)>::empty());
    while i < config.bots.len()
        invariant
            i <= config.bots@.len(),
            pair_texts(out@) == hotkeys(config@.bots.take(i as int)),
        decreases config.bots@.len() - i,
    {
        let bot = &config.bots[i];
        proof {
            assert(config@.bots.take(i + 1).drop_last() =~= config@.bots.take(i as int));
            assert(config@.bots.take(i + 1).last() == bot@);
        }
        if let Some(s) = &bot.shortcut {
            if !trim(s.as_str()).is_empty() {
                let ghost before = out@;
                out.push((s.clone(), bot.id.clone()));
                assert(pair_texts(out@) =~= pair_texts(before).push((s@, bot.id@)));
            }
        }
        i += 1;
    }
    assert(config@.bots.take(i as int) =~= config@.bots);
    out
}

/// Which bot the quick-capture window writes to, after a bot was removed: not one
/// that no longer exists.
pub fn target_without(target: Option<(String, String)>, removed: &str) -> (r: Option<
    (String, String),
>)
    ensures
        r == match target {
            Some((id, _)) => if id@ == removed@ {
                None
            } else {
                target
            },
            None => None,
        },
{
    match target {
        Some(t) => if same_text(t.0.as_str(), removed) {
            None
        } else {
            Some(t)
        },
        None => None,
    }
}

/// What the window posts for a bot that it shows and that the user saves as it is:
/// every field as it is shown, and a blank token.
pub open spec fn posted_back(view: ViewModel) -> FormModel {
    FormModel {
        name: view.name,
        token: Seq::empty(),
        file: view.file,
        read_file: view.read_file,
        files_dir: view.files_dir,
        allowed_user_id: view.allowed_user_id,
        api_base: view.api_base,
        enabled: view.enabled,
        shortcut: view.shortcut,
        daily_send: view.daily_send,
        daily_time: view.daily_time,
    }
}

/// Not blank, and without white space around it.
pub open spec fn is_tidy(text: Seq<char>) -> bool {
    text.len() > 0 && !white_space(text[0]) && !white_space(text.last())
}

/// A bot as every form leaves it: without blank fields and without white space
/// around any.
pub open spec fn is_tidy_bot(bot: BotModel) -> bool {
    &&& is_tidy(bot.name)
    &&& is_tidy(bot.file)
    &&& is_tidy(bot.daily_time)
    &&& bot.read_file is Some ==> is_tidy(bot.read_file->0)
    &&& bot.files_dir is Some ==> is_tidy(bot.files_dir->0)
    &&& bot.api_base is Some ==> is_tidy(bot.api_base->0)
    &&& bot.shortcut is Some ==> is_tidy(bot.shortcut->0)
}

/// Every form that may be taken makes a tidy bot.
pub proof fn law_a_form_makes_a_tidy_bot(form: FormModel, id: Seq<char>, token: Seq<char>)
    requires
        form.fault() is None,
    ensures
        is_tidy_bot(form.bot(id, token)),
{
    reveal_strlit("Untitled");
    reveal_strlit("08:00");
    law_trimming_takes_only_white_space(form.name);
    law_trimming_takes_only_white_space(form.file);
    law_trimming_takes_only_white_space(form.daily_time);
    if form.read_file is Some {
        law_trimming_takes_only_white_space(form.read_file->0);
    }
    if form.files_dir is Some {
        law_trimming_takes_only_white_space(form.files_dir->0);
    }
    if form.api_base is Some {
        law_trimming_takes_only_white_space(form.api_base->0);
    }
    if form.shortcut is Some {
        law_trimming_takes_only_white_space(form.shortcut->0);
    }
}

/// A bot that is shown in the window and posted back unchanged is the same bot:
/// nothing that the user set is lost on the way, the stored token included.
pub proof fn law_posting_a_bot_back_changes_nothing(bot: BotModel, status: StatusModel)
    requires
        is_tidy_bot(bot),
    ensures
        posted_back(shown(bot, status)).fault() is None,
        edited(bot, posted_back(shown(bot, status))) == bot,
{
    let form = posted_back(shown(bot, status));
    let uid = decimal_int(bot.allowed_user_id as int);
    law_a_user_id_survives_the_window(bot, status);
    lemma_decimal_int_is_tight(bot.allowed_user_id);
    lemma_tight_is_trimmed(uid);
    lemma_tight_is_trimmed(Seq::empty());
    lemma_tight_is_trimmed(bot.name);
    lemma_tight_is_trimmed(bot.file);
    lemma_tight_is_trimmed(bot.daily_time);
    if bot.read_file is Some {
        lemma_tight_is_trimmed(bot.read_file->0);
    }
    if bot.files_dir is Some {
        lemma_tight_is_trimmed(bot.files_dir->0);
    }
    if bot.api_base is Some {
        lemma_tight_is_trimmed(bot.api_base->0);
    }
    if bot.shortcut is Some {
        lemma_tight_is_trimmed(bot.shortcut->0);
    }
    assert(edited(bot, form) =~= bot);
}

proof fn lemma_decimal_int_is_tight(n: i64)
    ensures
        decimal_int(n as int).len() > 0,
        !white_space(decimal_int(n as int)[0]),
        !white_space(decimal_int(n as int).last()),
{
    let m = (if n < 0 {
        -(n as int)
    } else {
        n as int
    }) as nat;
    lemma_decimal_is_digits(m);
    let d = decimal(m);
    assert(is_digit(d[0]) && is_digit(d[d.len() - 1]));
    reveal_strlit("-");
    assert(decimal_int(n as int).last() == d.last());
}

/// An edit changes the bot that is asked for as the form says, keeps its id, and
/// keeps its token unless the form has a new one.
pub proof fn law_an_edit_keeps_id_and_token(bot: BotModel, form: FormModel)
    ensures
        edited(bot, form).id == bot.id,
        trimmed(form.token).len() == 0 ==> edited(bot, form).token == bot.token,
        trimmed(form.token).len() > 0 ==> edited(bot, form).token == trimmed(form.token),
        edited(bot, form).enabled == form.enabled,
        edited(bot, form).daily_send == form.daily_send,
{
}

/// The window shows every field of a bot as it is, but the token, of which it
/// shows whether there is one.
pub proof fn law_the_window_shows_every_field(bot: BotModel, status: StatusModel)
    ensures
        ({
            let view = shown(bot, status);
            &&& view.id == bot.id
            &&& view.name == bot.name
            &&& view.has_token == (bot.token.len() > 0)
            &&& view.file == bot.file
            &&& view.read_file == bot.read_file
            &&& view.files_dir == bot.files_dir
            &&& view.api_base == bot.api_base
            &&& view.enabled == bot.enabled
            &&& view.shortcut == bot.shortcut
            &&& view.daily_send == bot.daily_send
            &&& view.daily_time == bot.daily_time
            &&& view.status == status
        }),
{
}

/// Every hotkey that is set is wanted, for its own bot, whether or not that bot is
/// enabled; a blank one is not; and they come in the order of the bots.
pub proof fn law_every_hotkey_is_wanted(bots: Seq<BotModel>, bot: BotModel)
    ensures
        hotkeys(Seq::empty()) == Seq::<(Seq<char>, Seq<char>)>::empty(),
        bot.shortcut is Some && trimmed(bot.shortcut->0).len() > 0 ==> hotkeys(bots.push(bot))
            == hotkeys(bots).push((bot.shortcut->0, bot.id)),
        bot.shortcut is None || trimmed(bot.shortcut->0).len() == 0 ==> hotkeys(bots.push(bot))
            == hotkeys(bots),
{
    assert(bots.push(bot).drop_last() =~= bots);
    assert(bots.push(bot).last() == bot);
}

/// Notes that are taken here are counted, all of them, and touch neither the
/// offset nor what is recorded as saved; to take none changes nothing.
pub proof fn law_local_notes_only_count(status: StatusModel, n: u64, at: Seq<char>)
    requires
        status.message_count + n <= u64::MAX,
    ensures
        taken(status, n, at).message_count == status.message_count + n,
        n > 0 ==> taken(status, n, at).last_message_at == Some(at),
        n == 0 ==> taken(status, n, at) == status,
        (StatusModel {
            message_count: status.message_count,
            last_message_at: status.last_message_at,
            ..taken(status, n, at)
        }) == status,
{
}

/// Only a file that was dropped is copied, under its own name; a folder and what
/// cannot be read are refused, and the refusal says which it was.
pub proof fn law_only_files_are_copied(src: Seq<char>, what: Dropped)
    ensures
        dropped(src, what) is Ok <==> what is File,
        what is File && path_file_name(src) is Some ==> dropped(src, what)->Ok_0 == path_file_name(
            src,
        )->0,
        what is Folder && path_file_name(src) is Some ==> begins_with(
            dropped(src, what)->Err_0,
            path_file_name(src)->0,
        ),
        what matches Dropped::Unreadable(e) ==> begins_with(
            dropped(src, what)->Err_0,
            "can't read "@ + src,
        ) && dropped(src, what)->Err_0.skip(dropped(src, what)->Err_0.len() - e@.len()) == e@,
{
    match what {
        Dropped::File => {},
        Dropped::Folder => {
            let text = dropped(src, what)->Err_0;
            let name = name_or(src, src);
            assert(text.take(name.len() as int) =~= name);
        },
        Dropped::Unreadable(e) => {
            let text = dropped(src, what)->Err_0;
            let head = "can't read "@ + src;
            assert(text.take(head.len() as int) =~= head);
            assert(text.skip(text.len() - e@.len()) =~= e@);
        },
    }
}

/// The view of what the window shows leaves nothing out.
pub proof fn law_what_is_shown_is_seen_whole(v: BotView)
    ensures
        v@.id == v.id@,
        v@.name == v.name@,
        v@.file == v.file@,
        v@.allowed_user_id == v.allowed_user_id@,
        v@.daily_time == v.daily_time@,
        v@.status == v.status@,
        v@.read_file is Some <==> v.read_file is Some,
        v.read_file is Some ==> v@.read_file->0 == v.read_file->0@,
        v@.files_dir is Some <==> v.files_dir is Some,
        v.files_dir is Some ==> v@.files_dir->0 == v.files_dir->0@,
        v@.api_base is Some <==> v.api_base is Some,
        v.api_base is Some ==> v@.api_base->0 == v.api_base->0@,
        v@.shortcut is Some <==> v.shortcut is Some,
        v.shortcut is Some ==> v@.shortcut->0 == v.shortcut->0@,
        v@.has_token == v.has_token,
        v@.enabled == v.enabled,
        v@.daily_send == v.daily_send,
{
}

/// A bot may be added exactly when its form has a file, a user id that is blank or a
/// number, and a token that no bot has.
pub proof fn law_a_bot_is_added_when_nothing_is_wrong(config: ConfigModel, form: FormModel)
    ensures
        may_add(config, form) <==> {
            &&& trimmed(form.file).len() > 0
            &&& trimmed(form.allowed_user_id).len() == 0 || read_i64(
                trimmed(form.allowed_user_id),
            ) is Some
            &&& trimmed(form.token).len() > 0
            &&& forall|i: int|
                0 <= i < config.bots.len() ==> (#[trigger] config.bots[i]).token != trimmed(
                    form.token,
                )
        },
{
    law_a_token_is_taken_by_another_bot(config, trimmed(form.token), None);
}

/// An edit may be taken exactly when its form has a file, a user id that is blank or
/// a number, and no token or one that no other bot has.
pub proof fn law_an_edit_is_taken_when_nothing_is_wrong(
    config: ConfigModel,
    form: FormModel,
    id: Seq<char>,
)
    ensures
        may_edit(config, form, id) <==> {
            &&& trimmed(form.file).len() > 0
            &&& trimmed(form.allowed_user_id).len() == 0 || read_i64(
                trimmed(form.allowed_user_id),
            ) is Some
            &&& trimmed(form.token).len() > 0 ==> forall|i: int|
                0 <= i < config.bots.len() ==> (#[trigger] config.bots[i]).token != trimmed(
                    form.token,
                ) || config.bots[i].id == id
        },
{
    law_a_token_is_taken_by_another_bot(config, trimmed(form.token), Some(id));
}

/// What is wrong with a new bot is said in this order: the file, the user id, the
/// token that is missing, and the first bot that has the token.
pub proof fn law_the_first_fault_is_said(
    config: ConfigModel,
    form: FormModel,
    id: Seq<char>,
    error: Seq<char>,
)
    ensures
        is_add_error(config, form, error) && trimmed(form.file).len() == 0 ==> error
            == "a markdown file path is required"@,
        is_add_error(config, form, error) && trimmed(form.file).len() > 0 && trimmed(
            form.allowed_user_id,
        ).len() > 0 && read_i64(trimmed(form.allowed_user_id)) is None ==> error
            == "the Telegram user ID must be a number (leave it blank to allow anyone)"@,
        is_add_error(config, form, error) && form.fault() is None && trimmed(form.token).len() == 0
            ==> error == "a bot token is required"@,
        is_add_error(config, form, error) && form.fault() is None && trimmed(form.token).len() > 0
            ==> exists|i: int|
            0 <= i < config.bots.len() && (#[trigger] config.bots[i]).token == trimmed(form.token)
                && error == token_taken_text(config.bots[i].name) && forall|j: int|
                0 <= j < i ==> (#[trigger] config.bots[j]).token != trimmed(form.token),
        is_edit_error(config, form, id, error) && trimmed(form.file).len() == 0 ==> error
            == "a markdown file path is required"@,
        is_edit_error(config, form, id, error) && trimmed(form.file).len() > 0 && trimmed(
            form.allowed_user_id,
        ).len() > 0 && read_i64(trimmed(form.allowed_user_id)) is None ==> error
            == "the Telegram user ID must be a number (leave it blank to allow anyone)"@,
{
    if is_add_error(config, form, error) && form.fault() is None && trimmed(form.token).len() > 0 {
        let i = choose|i: int|
            #![trigger config.bots[i]]
            is_first_claim(config, i, trimmed(form.token), None) && error == token_taken_text(
                config.bots[i].name,
            );
        assert(claims_token(config, i, trimmed(form.token), None));
        assert forall|j: int| 0 <= j < i implies (#[trigger] config.bots[j]).token != trimmed(
            form.token,
        ) by {
            assert(!claims_token(config, j, trimmed(form.token), None));
        }
    }
}

/// A token that another bot has is refused in an edit too, and the first other bot
/// that has it is named.
pub proof fn law_an_edit_names_the_holder(
    config: ConfigModel,
    form: FormModel,
    id: Seq<char>,
    error: Seq<char>,
)
    requires
        is_edit_error(config, form, id, error),
        form.fault() is None,
        trimmed(form.token).len() > 0,
    ensures
        exists|i: int|
            0 <= i < config.bots.len() && (#[trigger] config.bots[i]).token == trimmed(form.token)
                && config.bots[i].id != id && error == "that token already belongs to \""@
                + config.bots[i].name + "\" — two bots on one token save every message twice"@,
{
    let i = choose|i: int|
        #![trigger config.bots[i]]
        is_first_claim(config, i, trimmed(form.token), Some(id)) && error == token_taken_text(
            config.bots[i].name,
        );
    assert(claims_token(config, i, trimmed(form.token), Some(id)));
    assert(config.bots[i].id != id);
}

/// A bot that was added can be found, is the last in the list, and leaves the
/// config as it was when it is removed again.
pub proof fn law_removing_undoes_adding(
    config: Config,
    bot: BotConfig,
    id: &str,
    added: Config,
    found: Result<BotConfig, String>,
    removed: Result<Config, String>,
)
    requires
        !config@.has(bot@.id),
        id@ == bot@.id,
        call_ensures(with_added, (&config, &bot), added),
        call_ensures(find_bot, (&added, id), found),
        call_ensures(with_removed, (&added, id), removed),
    ensures
        added@.bots.len() == config@.bots.len() + 1,
        found is Ok && found->Ok_0@ == bot@,
        removed is Ok && removed->Ok_0@ == config@,
{
    let n = config@.bots.len() as int;
    assert(added@.bots[n] == bot@);
    assert(added@.has(id@));
    assert forall|i: int| #[trigger] added@.is_first(i, id@) implies i == n by {
        if i < n {
            assert(config@.bots[i].id == id@);
        }
        assert(0 <= i <= n);
    }
    assert(added@.bots.remove(n) =~= config@.bots);
}

/// Switching a bot on or off changes nothing but its switch, and no other bot;
/// switching it back restores the config.
pub proof fn law_a_switch_changes_nothing_else(
    config: Config,
    id: &str,
    on: bool,
    r: Result<(Config, BotConfig), String>,
    back: Result<(Config, BotConfig), String>,
    i: int,
)
    requires
        config@.is_first(i, id@),
        call_ensures(with_enabled, (&config, id, on), r),
        r is Ok,
        call_ensures(with_enabled, (&r->Ok_0.0, id, config@.bots[i].enabled), back),
    ensures
        r->Ok_0.0@.bots.len() == config@.bots.len(),
        r->Ok_0.0@.server == config@.server,
        r->Ok_0.0@.bots[i] == (BotModel { enabled: on, ..config@.bots[i] }),
        forall|j: int|
            0 <= j < config@.bots.len() && j != i ==> #[trigger] r->Ok_0.0@.bots[j]
                == config@.bots[j],
        back is Ok && back->Ok_0.0@ == config@,
{
    let next = r->Ok_0.0;
    let k = choose|k: int|
        #![trigger config@.bots[k]]
        {
            &&& config@.is_first(k, id@)
            &&& r->Ok_0.1@ == (BotModel { enabled: on, ..config@.bots[k] })
            &&& next@ == (ConfigModel { bots: config@.bots.update(k, r->Ok_0.1@), ..config@ })
        };
    assert(k == i) by {
        if k < i {
            assert(config@.bots[k].id == id@);
        }
        if i < k {
            assert(config@.bots[i].id == id@);
        }
    }
    assert(next@.bots[i].id == id@);
    assert(next@.has(id@));
    assert forall|m: int| #[trigger] next@.is_first(m, id@) implies m == i by {
        if m < i {
            assert(next@.bots[m].id == id@);
            assert(config@.bots[m].id == id@);
        }
    }
    if back is Ok {
        let m = choose|m: int|
            #![trigger next@.bots[m]]
            {
                &&& next@.is_first(m, id@)
                &&& back->Ok_0.1@ == (BotModel {
                    enabled: config@.bots[i].enabled,
                    ..next@.bots[m]
                })
                &&& back->Ok_0.0@ == (ConfigModel {
                    bots: next@.bots.update(m, back->Ok_0.1@),
                    ..next@
                })
            };
        assert(m == i);
        assert(back->Ok_0.0@.bots =~= config@.bots);
    }
}

/// An edit touches the bot that it is about and no other.
pub proof fn law_an_edit_touches_no_other_bot(
    config: Config,
    id: &str,
    form: BotForm,
    r: Result<Change, String>,
    i: int,
)
    requires
        config@.is_first(i, id@),
        call_ensures(with_edited, (&config, id, form), r),
    ensures
        r is Ok,
        r->Ok_0.config@.server == config@.server,
        r->Ok_0.config@.bots.len() == config@.bots.len(),
        r->Ok_0.config@.bots[i] == r->Ok_0.bot@,
        r->Ok_0.previous_token@ == config@.bots[i].token,
        forall|j: int|
            0 <= j < config@.bots.len() && j != i ==> #[trigger] r->Ok_0.config@.bots[j]
                == config@.bots[j],
{
    assert(config@.bots[i].id == id@);
    assert(config@.has(id@));
    let k = choose|k: int|
        #![trigger config@.bots[k]]
        {
            &&& config@.is_first(k, id@)
            &&& r->Ok_0.bot@ == edited(config@.bots[k], form@)
            &&& r->Ok_0.previous_token@ == config@.bots[k].token
            &&& r->Ok_0.config@ == (ConfigModel {
                bots: config@.bots.update(k, r->Ok_0.bot@),
                ..config@
            })
        };
    assert(k == i) by {
        if k < i {
            assert(config@.bots[k].id == id@);
        }
        if i < k {
            assert(config@.bots[i].id == id@);
        }
    }
}

/// What cannot be copied is told by its name, or by its path where it has none.
pub proof fn law_a_drop_says_what_is_wrong(src: Seq<char>, what: Dropped)
    ensures
        what is File && path_file_name(src) is None ==> dropped(src, what) == Ok::<
            Seq<char>,
            Seq<char>,
        >("file"@),
        what is Folder && path_file_name(src) is Some ==> dropped(src, what) == Err::<
            Seq<char>,
            Seq<char>,
        >(path_file_name(src)->0 + " is a folder — drop individual files, not folders"@),
        what is Folder && path_file_name(src) is None ==> dropped(src, what) == Err::<
            Seq<char>,
            Seq<char>,
        >(src + " is a folder — drop individual files, not folders"@),
        what matches Dropped::Unreadable(e) ==> dropped(src, what) == Err::<Seq<char>, Seq<char>>(
            "can't read "@ + src + ": "@ + e@,
        ),
{
}

} // verus!
