//! Which Bot API a bot talks to, and the addresses it talks to there.

use crate::config::ServerConfig;
use crate::number::decimal;
use crate::server::{local_url, local_url_text};
use crate::text::{
    begins_with, law_trimming_takes_only_white_space, lemma_tight_is_trimmed, lemma_trim_back_ends,
    opt_str_view, opt_view, same_text, starts_with, trim, trim_end_of, trimmed, trimmed_end_of,
    white_space,
};
use vstd::prelude::*;

verus! {

/// The public Telegram Bot API, used when a bot has no other.
pub const DEFAULT_API_BASE: &'static str = "https://api.telegram.org";

/// The origin for a configured API base: the public API when unset or blank, and
/// in any case without slashes at the end.
pub open spec fn api_base(configured: Option<Seq<char>>) -> Seq<char> {
    trimmed_end_of(
        if configured is Some && trimmed(configured->0).len() > 0 {
            trimmed(configured->0)
        } else {
            DEFAULT_API_BASE@
        },
        '/',
    )
}

/// Normalizes a configured API base into a usable origin. Falls back to the
/// public API when unset or blank, and trims any trailing slash so that URLs can
/// always be joined with a single one.
pub fn resolve_api_base(configured: Option<&str>) -> (r: String)
    ensures
        r@ == api_base(opt_str_view(configured)),
        r@.len() > 0 ==> r@.last() != '/',
{
    let base = match configured {
        Some(c) => {
            let t = trim(c);
            if t.is_empty() {
                DEFAULT_API_BASE
            } else {
                t
            }
        },
        None => DEFAULT_API_BASE,
    };
    proof {
        lemma_trim_back_ends(base@, '/');
    }
    trim_end_of(base, '/').to_owned()
}

/// The API base a bot should use: an explicit override when it is not blank,
/// otherwise the managed server when it is enabled and listening, otherwise none.
pub open spec fn chosen_base(
    bot_override: Option<Seq<char>>,
    server_enabled: bool,
    server_port: Option<u16>,
) -> Option<Seq<char>> {
    if bot_override is Some && trimmed(bot_override->0).len() > 0 {
        Some(trimmed(bot_override->0))
    } else if server_enabled && server_port is Some {
        Some(local_url_text(server_port->0))
    } else {
        None
    }
}

/// Resolves the Bot API base a given bot should use. `None` means the public API.
///
/// `server_port` is that of the running server, so a bot is never routed to a
/// port nothing is bound to.
pub fn effective_api_base(
    bot_override: Option<&str>,
    server: &ServerConfig,
    server_port: Option<u16>,
) -> (r: Option<String>)
    ensures
        opt_view(r) == chosen_base(opt_str_view(bot_override), server@.enabled, server_port),
{
    if let Some(o) = bot_override {
        let t = trim(o);
        if !t.is_empty() {
            return Some(t.to_owned());
        }
    }
    match server_port {
        Some(port) => if server.enabled {
            Some(local_url(port))
        } else {
            None
        },
        None => None,
    }
}

/// With no server listening and no override, a bot talks to the public API.
pub proof fn law_no_server_means_the_public_api(
    bot_override: Option<Seq<char>>,
    server_enabled: bool,
)
    requires
        bot_override is Some ==> trimmed(bot_override->0).len() == 0,
    ensures
        chosen_base(bot_override, server_enabled, None) is None,
        api_base(chosen_base(bot_override, server_enabled, None)) == DEFAULT_API_BASE@,
{
    reveal_strlit("https://api.telegram.org");
    assert(DEFAULT_API_BASE@.last() != '/');
}

/// Whether downloads from this base are subject to the public API's cap.
pub fn is_capped(base: &str) -> (r: bool)
    ensures
        r == (base@ == DEFAULT_API_BASE@),
{
    same_text(base, DEFAULT_API_BASE)
}

/// The address of a Bot API method.
pub open spec fn method_address(base: Seq<char>, token: Seq<char>, method: Seq<char>) -> Seq<char> {
    base + "/bot"@ + token + "/"@ + method
}

/// The address of a Bot API method.
pub fn method_url(base: &str, token: &str, method: &str) -> (r: String)
    ensures
        r@ == method_address(base@, token@, method@),
{
    let mut out = base.to_owned();
    out.append("/bot");
    out.append(token);
    out.append("/");
    out.append(method);
    out
}

/// The address a file is fetched from.
pub open spec fn file_address(base: Seq<char>, token: Seq<char>, file_path: Seq<char>) -> Seq<char> {
    base + "/file/bot"@ + token + "/"@ + file_path
}

/// The address a file is fetched from.
pub fn file_url(base: &str, token: &str, file_path: &str) -> (r: String)
    ensures
        r@ == file_address(base@, token@, file_path@),
{
    let mut out = base.to_owned();
    out.append("/file/bot");
    out.append(token);
    out.append("/");
    out.append(file_path);
    out
}

/// The base is a server on this machine, reached over loopback.
pub open spec fn is_loopback(base: Seq<char>) -> bool {
    ||| begins_with(base, "http://127.0.0.1:"@)
    ||| begins_with(base, "http://localhost:"@)
    ||| begins_with(base, "http://[::1]:"@)
}

/// Whether the base is a server on this machine, reached over loopback.
pub fn is_loopback_server(base: &str) -> (r: bool)
    ensures
        r == is_loopback(base@),
{
    starts_with(base, "http://127.0.0.1:") || starts_with(base, "http://localhost:")
        || starts_with(base, "http://[::1]:")
}

/// The address of the managed server is a loopback address.
pub proof fn law_managed_server_is_loopback(port: u16)
    ensures
        is_loopback(local_url_text(port)),
{
    assert(local_url_text(port).take("http://127.0.0.1:"@.len() as int) =~= "http://127.0.0.1:"@);
}

/// An origin that is set is used as it is, with or without slashes behind it and
/// white space around it; a blank one is the public API.
pub proof fn law_a_base_is_used_as_it_is_set(base: Seq<char>, padded: Seq<char>, blank: Seq<char>)
    requires
        base.len() > 0,
        !white_space(base[0]),
        !white_space(base.last()),
        base.last() != '/',
        trimmed(blank).len() == 0,
    ensures
        api_base(Some(base)) == base,
        api_base(Some(base.push('/'))) == base,
        api_base(Some(base.push('/').push('/'))) == base,
        trimmed(padded).len() > 0 ==> api_base(Some(trimmed(padded))) == api_base(Some(padded)),
        api_base(Some(blank)) == "https://api.telegram.org"@,
        api_base(None) == "https://api.telegram.org"@,
{
    reveal_strlit("https://api.telegram.org");
    assert(DEFAULT_API_BASE@.last() == 'g');
    lemma_tight_is_trimmed(base);
    lemma_tight_is_trimmed(base.push('/'));
    lemma_tight_is_trimmed(base.push('/').push('/'));
    law_trimming_takes_only_white_space(padded);
    assert(base.push('/').drop_last() =~= base);
    assert(base.push('/').push('/').drop_last() =~= base.push('/'));
    assert(trimmed_end_of(base, '/') == base);
    assert(trimmed_end_of(base.push('/'), '/') == base);
    assert(trimmed_end_of(base.push('/').push('/'), '/') == base);
}

/// A bot talks to the server that is set for it; failing that, to the managed one
/// where that is enabled and listens, at the port it listens on; and failing that,
/// to the public one.
pub proof fn law_a_bot_is_routed_in_this_order(
    own: Option<Seq<char>>,
    server_enabled: bool,
    server_port: Option<u16>,
)
    ensures
        own is Some && trimmed(own->0).len() > 0 ==> chosen_base(own, server_enabled, server_port)
            == Some(trimmed(own->0)),
        (own is None || trimmed(own->0).len() == 0) && server_enabled && server_port is Some
            ==> chosen_base(own, server_enabled, server_port) == Some(
            "http://127.0.0.1:"@ + decimal(server_port->0 as nat),
        ),
        (own is None || trimmed(own->0).len() == 0) && !(server_enabled && server_port is Some)
            ==> chosen_base(own, server_enabled, server_port) is None,
{
}

/// An address holds the server, the token and what is asked, each in its place.
pub proof fn law_an_address_is_put_together(
    base: Seq<char>,
    token: Seq<char>,
    what: Seq<char>,
)
    ensures
        method_address(base, token, what) == base + "/bot"@ + token + "/"@ + what,
        file_address(base, token, what) == base + "/file/bot"@ + token + "/"@ + what,
{
}

/// A server is on this machine exactly when its address begins with one of the
/// three names of it, and a port follows.
pub proof fn law_three_names_are_loopback(base: Seq<char>)
    ensures
        is_loopback(base) <==> begins_with(base, "http://127.0.0.1:"@) || begins_with(
            base,
            "http://localhost:"@,
        ) || begins_with(base, "http://[::1]:"@),
{
}

} // verus!
