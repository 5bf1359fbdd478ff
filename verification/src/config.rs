//! The settings: bots, the files they are bound to, and the managed server.

use crate::text::{copy_opt, opt_view, trim, trimmed};
use vstd::prelude::*;

verus! {

/// The port the local server listens on unless another is set.
pub const DEFAULT_PORT: u16 = 8081;

/// A setting that is on unless it says otherwise.
pub fn default_true() -> (r: bool)
    ensures
        r,
{
    true
}

/// The port the local server listens on unless another is set.
pub fn default_port() -> (r: u16)
    ensures
        r == DEFAULT_PORT,
{
    DEFAULT_PORT
}

/// The time of the daily send unless another is set.
pub fn default_daily_time() -> (r: String)
    ensures
        r@ == "08:00"@,
{
    "08:00".to_owned()
}

/// Settings for an app-managed local Telegram Bot API server. Running one lifts
/// the public API's 20 MB download cap to 2 GB, so large videos can be saved. A
/// single server serves every bot.
pub struct ServerConfig {
    /// Whether the app should spawn and manage a local server.
    pub enabled: bool,
    /// Path to the `telegram-bot-api` binary. Unset or empty means to look for it
    /// in the usual places.
    pub bin_path: Option<String>,
    /// HTTP port the local server listens on.
    pub port: u16,
    /// Telegram `api_id` from my.telegram.org. Not secret.
    pub api_id: i64,
    /// Telegram `api_hash`. Secret: held in the Keychain, never written to the
    /// config file.
    pub api_hash: String,
}

/// What a [`ServerConfig`] holds.
#[verifier::ext_equal]
pub struct ServerModel {
    pub enabled: bool,
    pub bin_path: Option<Seq<char>>,
    pub port: u16,
    pub api_id: i64,
    pub api_hash: Seq<char>,
}

impl View for ServerConfig {
    type V = ServerModel;

    open spec fn view(&self) -> ServerModel {
        ServerModel {
            enabled: self.enabled,
            bin_path: opt_view(self.bin_path),
            port: self.port,
            api_id: self.api_id,
            api_hash: self.api_hash@,
        }
    }
}

impl ServerModel {
    /// The settings of a first start.
    pub open spec fn initial() -> ServerModel {
        ServerModel {
            enabled: false,
            bin_path: None,
            port: DEFAULT_PORT,
            api_id: 0,
            api_hash: Seq::empty(),
        }
    }

    /// The port the server listens on: zero stands for the default.
    pub open spec fn listening_port(self) -> u16 {
        if self.port == 0 {
            DEFAULT_PORT
        } else {
            self.port
        }
    }

    /// The settings without the secret.
    pub open spec fn without_secret(self) -> ServerModel {
        ServerModel { api_hash: Seq::empty(), ..self }
    }
}

impl Default for ServerConfig {
    fn default() -> (r: Self)
        ensures
            r@ == ServerModel::initial(),
    {
        ServerConfig {
            enabled: false,
            bin_path: None,
            port: default_port(),
            api_id: 0,
            api_hash: String::new(),
        }
    }
}

impl Clone for ServerConfig {
    fn clone(&self) -> (r: Self)
        ensures
            r@ == self@,
    {
        ServerConfig {
            enabled: self.enabled,
            bin_path: copy_opt(&self.bin_path),
            port: self.port,
            api_id: self.api_id,
            api_hash: self.api_hash.clone(),
        }
    }
}

impl ServerConfig {
    /// The port the server actually listens on. A zero, as in a hand-edited
    /// config, falls back to the default, so the spawned server and the URL bots
    /// are routed to can never disagree.
    pub fn effective_port(&self) -> (r: u16)
        ensures
            r == self@.listening_port(),
            r != 0,
    {
        if self.port == 0 {
            default_port()
        } else {
            self.port
        }
    }
}

/// One bot bound to a markdown file it writes to, and optionally a second one it
/// reads from for the daily send-back.
pub struct BotConfig {
    pub id: String,
    pub name: String,
    /// The bot token. In memory only: held in the Keychain, never written to the
    /// config file.
    pub token: String,
    pub file: String,
    /// Markdown file the daily send-back reads. Unset or blank means the file the
    /// bot writes to. Only ever read.
    pub read_file: Option<String>,
    /// Folder where received files are saved. Unset or blank means an
    /// `attachments` folder next to the markdown file.
    pub files_dir: Option<String>,
    /// Telegram user id allowed to write. Zero allows anyone.
    pub allowed_user_id: i64,
    /// Base URL of the Bot API. Unset or blank means the public one.
    pub api_base: Option<String>,
    pub enabled: bool,
    /// Global hotkey for local quick-capture, such as `CmdOrCtrl+Shift+KeyI`.
    pub shortcut: Option<String>,
    /// Whether the bot sends its read file back to its owner once a day.
    pub daily_send: bool,
    /// Local time of day for the daily send, `HH:MM`.
    pub daily_time: String,
}

/// What a [`BotConfig`] holds.
#[verifier::ext_equal]
pub struct BotModel {
    pub id: Seq<char>,
    pub name: Seq<char>,
    pub token: Seq<char>,
    pub file: Seq<char>,
    pub read_file: Option<Seq<char>>,
    pub files_dir: Option<Seq<char>>,
    pub allowed_user_id: i64,
    pub api_base: Option<Seq<char>>,
    pub enabled: bool,
    pub shortcut: Option<Seq<char>>,
    pub daily_send: bool,
    pub daily_time: Seq<char>,
}

impl View for BotConfig {
    type V = BotModel;

    open spec fn view(&self) -> BotModel {
        BotModel {
            id: self.id@,
            name: self.name@,
            token: self.token@,
            file: self.file@,
            read_file: opt_view(self.read_file),
            files_dir: opt_view(self.files_dir),
            allowed_user_id: self.allowed_user_id,
            api_base: opt_view(self.api_base),
            enabled: self.enabled,
            shortcut: opt_view(self.shortcut),
            daily_send: self.daily_send,
            daily_time: self.daily_time@,
        }
    }
}

impl BotModel {
    /// The file the daily send-back reads: the read file when it is set to a
    /// non-blank path, otherwise the file the bot writes to.
    pub open spec fn reads(self) -> Seq<char> {
        if self.read_file is Some && trimmed(self.read_file->0).len() > 0 {
            trimmed(self.read_file->0)
        } else {
            self.file
        }
    }

    /// The bot without the secret.
    pub open spec fn without_secret(self) -> BotModel {
        BotModel { token: Seq::empty(), ..self }
    }
}

impl Clone for BotConfig {
    fn clone(&self) -> (r: Self)
        ensures
            r@ == self@,
    {
        BotConfig {
            id: self.id.clone(),
            name: self.name.clone(),
            token: self.token.clone(),
            file: self.file.clone(),
            read_file: copy_opt(&self.read_file),
            files_dir: copy_opt(&self.files_dir),
            allowed_user_id: self.allowed_user_id,
            api_base: copy_opt(&self.api_base),
            enabled: self.enabled,
            shortcut: copy_opt(&self.shortcut),
            daily_send: self.daily_send,
            daily_time: self.daily_time.clone(),
        }
    }
}

impl BotConfig {
    /// The file the daily send-back reads.
    pub fn read_path(&self) -> (r: String)
        ensures
            r@ == self@.reads(),
    {
        if let Some(p) = &self.read_file {
            let t = trim(p.as_str());
            if !t.is_empty() {
                return t.to_owned();
            }
        }
        self.file.clone()
    }

    /// The bot as it is written to disk: everything but the token.
    pub fn without_secret(&self) -> (r: BotConfig)
        ensures
            r@ == self@.without_secret(),
    {
        let mut bot = self.clone();
        bot.token = String::new();
        bot
    }
}

/// The models of a list of bots.
pub open spec fn bot_models(bots: Seq<BotConfig>) -> Seq<BotModel> {
    bots.map_values(|b: BotConfig| b@)
}

/// Everything the app remembers between starts, apart from secrets.
pub struct Config {
    pub bots: Vec<BotConfig>,
    /// Settings for the app-managed local Bot API server.
    pub server: ServerConfig,
}

/// What a [`Config`] holds.
#[verifier::ext_equal]
pub struct ConfigModel {
    pub bots: Seq<BotModel>,
    pub server: ServerModel,
}

impl View for Config {
    type V = ConfigModel;

    open spec fn view(&self) -> ConfigModel {
        ConfigModel { bots: bot_models(self.bots@), server: self.server@ }
    }
}

impl ConfigModel {
    /// The config as it is written to disk.
    pub open spec fn without_secrets(self) -> ConfigModel {
        ConfigModel {
            bots: self.bots.map_values(|b: BotModel| b.without_secret()),
            server: self.server.without_secret(),
        }
    }

    /// No secret is in it.
    pub open spec fn holds_no_secret(self) -> bool {
        &&& forall|i: int| 0 <= i < self.bots.len() ==> (#[trigger] self.bots[i]).token.len() == 0
        &&& self.server.api_hash.len() == 0
    }

    /// Bot `i` is the first one with this id.
    pub open spec fn is_first(self, i: int, id: Seq<char>) -> bool {
        &&& 0 <= i < self.bots.len()
        &&& self.bots[i].id == id
        &&& forall|k: int| 0 <= k < i ==> (#[trigger] self.bots[k]).id != id
    }

    /// Some bot has this id.
    pub open spec fn has(self, id: Seq<char>) -> bool {
        exists|i: int| 0 <= i < self.bots.len() && (#[trigger] self.bots[i]).id == id
    }
}

impl Default for Config {
    fn default() -> (r: Self)
        ensures
            r@ == (ConfigModel { bots: Seq::empty(), server: ServerModel::initial() }),
    {
        let r = Config { bots: Vec::new(), server: ServerConfig::default() };
        assert(bot_models(r.bots@) =~= Seq::<BotModel>::empty());
        r
    }
}

/// A copy of a list of bots.
pub fn copy_bots(bots: &Vec<BotConfig>) -> (r: Vec<BotConfig>)
    ensures
        bot_models(r@) == bot_models(bots@),
{
    let mut out: Vec<BotConfig> = Vec::new();
    let mut i: usize = 0;
    while i < bots.len()
        invariant
            i <= bots@.len(),
            bot_models(out@) == bot_models(bots@).take(i as int),
        decreases bots@.len() - i,
    {
        let bot = bots[i].clone();
        let ghost before = out@;
        out.push(bot);
        i += 1;
        assert(bot_models(out@) =~= bot_models(before).push(bot@));
        assert(bot_models(bots@).take(i as int) =~= bot_models(bots@).take(i - 1).push(bot@));
    }
    assert(bot_models(out@) =~= bot_models(bots@));
    out
}

impl Clone for Config {
    fn clone(&self) -> (r: Self)
        ensures
            r@ == self@,
    {
        Config { bots: copy_bots(&self.bots), server: self.server.clone() }
    }
}

impl Config {
    /// The config as it is written to disk: tokens and the `api_hash` live in the
    /// Keychain and are left out; everything else is kept.
    pub fn without_secrets(&self) -> (r: Config)
        ensures
            r@ == self@.without_secrets(),
            r@.holds_no_secret(),
    {
        let mut bots: Vec<BotConfig> = Vec::new();
        let mut i: usize = 0;
        let ghost want = self@.without_secrets().bots;
        while i < self.bots.len()
            invariant
                i <= self.bots@.len(),
                want == self@.without_secrets().bots,
                bot_models(bots@) == want.take(i as int),
            decreases self.bots@.len() - i,
        {
            let bot = self.bots[i].without_secret();
            let ghost before = bots@;
            bots.push(bot);
            i += 1;
            assert(bot_models(bots@) =~= bot_models(before).push(bot@));
            assert(want.take(i as int) =~= want.take(i - 1).push(bot@));
        }
        assert(want.take(i as int) =~= want);
        let mut server = self.server.clone();
        server.api_hash = String::new();
        Config { bots, server }
    }

    /// The position of the bot with this id.
    pub fn position(&self, id: &str) -> (r: Option<usize>)
        ensures
            r is Some <==> self@.has(id@),
            r matches Some(i) ==> self@.is_first(i as int, id@),
    {
        let wanted = id.to_owned();
        let mut i: usize = 0;
        while i < self.bots.len()
            invariant
                i <= self.bots@.len(),
                wanted@ == id@,
                forall|k: int| 0 <= k < i ==> (#[trigger] self@.bots[k]).id != id@,
            decreases self.bots@.len() - i,
        {
            assert(self@.bots[i as int].id == self.bots@[i as int].id@);
            if self.bots[i].id == wanted {
                return Some(i);
            }
            i += 1;
        }
        None
    }
}

/// Leaving the secrets out twice leaves out no more than once.
pub proof fn law_secrets_stay_out(c: ConfigModel)
    ensures
        c.without_secrets().holds_no_secret(),
        c.without_secrets().without_secrets() == c.without_secrets(),
        c.holds_no_secret() ==> c.without_secrets() == c,
{
    let w = c.without_secrets();
    assert(w.without_secrets().bots =~= w.bots);
    assert(w.without_secrets() =~= w);
    if c.holds_no_secret() {
        assert forall|i: int| 0 <= i < c.bots.len() implies w.bots[i] == c.bots[i] by {
            assert(c.bots[i].token =~= Seq::<char>::empty());
            assert(w.bots[i] =~= c.bots[i]);
        }
        assert(w.bots =~= c.bots);
        assert(c.server.api_hash =~= Seq::<char>::empty());
        assert(w =~= c);
    }
}

/// The view of a bot leaves nothing out.
pub proof fn law_a_bot_is_seen_whole(b: BotConfig)
    ensures
        b@.id == b.id@,
        b@.name == b.name@,
        b@.token == b.token@,
        b@.file == b.file@,
        b@.daily_time == b.daily_time@,
        b@.read_file is Some <==> b.read_file is Some,
        b.read_file is Some ==> b@.read_file->0 == b.read_file->0@,
        b@.files_dir is Some <==> b.files_dir is Some,
        b.files_dir is Some ==> b@.files_dir->0 == b.files_dir->0@,
        b@.api_base is Some <==> b.api_base is Some,
        b.api_base is Some ==> b@.api_base->0 == b.api_base->0@,
        b@.shortcut is Some <==> b.shortcut is Some,
        b.shortcut is Some ==> b@.shortcut->0 == b.shortcut->0@,
        b@.allowed_user_id == b.allowed_user_id,
        b@.enabled == b.enabled,
        b@.daily_send == b.daily_send,
{
}

/// The view of the settings of the server leaves nothing out.
pub proof fn law_a_server_is_seen_whole(c: ServerConfig)
    ensures
        c@.api_hash == c.api_hash@,
        c@.bin_path is Some <==> c.bin_path is Some,
        c.bin_path is Some ==> c@.bin_path->0 == c.bin_path->0@,
        c@.enabled == c.enabled,
        c@.port == c.port,
        c@.api_id == c.api_id,
{
}

/// The view of a config leaves nothing out: it has every bot, in order.
pub proof fn law_a_config_is_seen_whole(c: Config, i: int)
    requires
        0 <= i < c.bots@.len(),
    ensures
        c@.bots.len() == c.bots@.len(),
        c@.bots[i] == c.bots@[i]@,
        c@.server == c.server@,
{
}

/// Only secrets are left out of what is written to disk: put back, they make the
/// config what it was, bot by bot.
pub proof fn law_only_secrets_are_left_out(c: ConfigModel, i: int)
    requires
        0 <= i < c.bots.len(),
    ensures
        c.without_secrets().bots.len() == c.bots.len(),
        (BotModel { token: c.bots[i].token, ..c.without_secrets().bots[i] }) == c.bots[i],
        (ServerModel { api_hash: c.server.api_hash, ..c.without_secrets().server }) == c.server,
        c.without_secrets().bots[i].token.len() == 0,
        c.without_secrets().server.api_hash.len() == 0,
{
}

/// The digest reads the file that is set for it, and the file that the bot writes
/// where none is.
pub proof fn law_the_digest_reads_what_is_set(bot: BotModel)
    ensures
        bot.read_file is None ==> bot.reads() == bot.file,
        bot.read_file is Some && trimmed(bot.read_file->0).len() == 0 ==> bot.reads() == bot.file,
        bot.read_file is Some && trimmed(bot.read_file->0).len() > 0 ==> bot.reads() == trimmed(
            bot.read_file->0,
        ),
{
}

/// The server listens on the port that is set, and on 8081 where none is.
pub proof fn law_the_port_is_the_one_that_is_set(server: ServerModel)
    ensures
        server.port != 0 ==> server.listening_port() == server.port,
        server.port == 0 ==> server.listening_port() == 8081,
{
}

/// A bot is found by its id, and the first that has it is the one.
pub proof fn law_a_bot_is_found_by_its_id(c: ConfigModel, id: Seq<char>, i: int)
    requires
        0 <= i < c.bots.len(),
    ensures
        c.bots[i].id == id ==> c.has(id),
        c.has(id) ==> exists|k: int| 0 <= k < c.bots.len() && (#[trigger] c.bots[k]).id == id,
        c.is_first(i, id) ==> c.bots[i].id == id,
        c.bots[i].id == id && (forall|k: int| 0 <= k < i ==> (#[trigger] c.bots[k]).id != id)
            ==> c.is_first(i, id),
        forall|k: int| 0 <= k < i && (#[trigger] c.bots[k]).id == id ==> !c.is_first(i, id),
        forall|k: int| #[trigger] c.is_first(k, id) ==> 0 <= k < c.bots.len(),
{
}

/// On a first start the server is off, and nothing but its port is set.
pub proof fn law_a_first_start_has_no_server()
    ensures
        !ServerModel::initial().enabled,
        ServerModel::initial().bin_path is None,
        ServerModel::initial().port == 8081,
        ServerModel::initial().api_id == 0,
        ServerModel::initial().api_hash.len() == 0,
{
}

} // verus!
