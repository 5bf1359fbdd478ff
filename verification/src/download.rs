//! How a file is fetched, and what its failures mean.

use crate::endpoint::{file_address, file_url, is_loopback, is_loopback_server};
use crate::json::{json_text, parse_json, Json, JsonModel};
use crate::names::{base_name, last_part, law_only_the_last_part_counts};
use crate::notes::prefixed;
use crate::number::{decimal, push_decimal};
use crate::redact::{scrub, scrubbed};
use crate::telegram::{accepted, is_accepted, text_or, UNREADABLE};
use crate::text::{begins_with, opt_str_view, starts_with};
use vstd::prelude::*;

verus! {

/// A failed download. A permanent one cannot be helped by trying again, so the
/// message is passed over rather than blocked on.
pub struct DownloadError {
    pub permanent: bool,
    pub msg: String,
}

/// What a [`DownloadError`] holds.
#[verifier::ext_equal]
pub struct ErrorModel {
    pub permanent: bool,
    pub msg: Seq<char>,
}

impl View for DownloadError {
    type V = ErrorModel;

    open spec fn view(&self) -> ErrorModel {
        ErrorModel { permanent: self.permanent, msg: self.msg@ }
    }
}

impl DownloadError {
    /// A failure that trying again may help.
    pub fn transient(msg: String) -> (r: Self)
        ensures
            r@ == (ErrorModel { permanent: false, msg: msg@ }),
    {
        DownloadError { permanent: false, msg }
    }

    /// A failure that trying again cannot help.
    pub fn permanent(msg: String) -> (r: Self)
        ensures
            r@ == (ErrorModel { permanent: true, msg: msg@ }),
    {
        DownloadError { permanent: true, msg }
    }

    /// A request that did not get through. The token does not show in the message.
    pub fn network(error: String, token: &str) -> (r: Self)
        ensures
            r@ == (ErrorModel { permanent: false, msg: scrubbed(error@, token@) }),
    {
        DownloadError::transient(scrub(error, token))
    }

    /// A local server's file that could not be read.
    pub fn unreadable_copy(error: &str) -> (r: Self)
        ensures
            r@ == (ErrorModel { permanent: true, msg: "could not read local file: "@ + error@ }),
    {
        DownloadError::permanent(prefixed("could not read local file: ", error))
    }
}

/// A result in terms of what it holds.
pub open spec fn file_view(r: Result<String, DownloadError>) -> Result<Seq<char>, ErrorModel> {
    match r {
        Ok(s) => Ok(s@),
        Err(e) => Err(e@),
    }
}

/// What an answer to `getFile` says: where the file is, or why it cannot be had.
pub open spec fn file_of(answer: JsonModel) -> Result<Seq<char>, ErrorModel> {
    if !accepted(answer) {
        Err(
            ErrorModel {
                permanent: true,
                msg: text_or(answer.at("description"@), "getFile failed"@),
            },
        )
    } else {
        match answer.at("result"@).at("file_path"@).text() {
            Some(path) => Ok(path),
            None => Err(ErrorModel { permanent: true, msg: "getFile returned no file_path"@ }),
        }
    }
}

/// Reads an answer to `getFile`.
pub fn read_file_path(answer: &Json) -> (r: Result<String, DownloadError>)
    ensures
        file_view(r) == file_of(answer@),
{
    if !is_accepted(answer) {
        let msg = match answer.at("description").as_str() {
            Some(d) => d.to_owned(),
            None => "getFile failed".to_owned(),
        };
        return Err(DownloadError::permanent(msg));
    }
    match answer.at("result").at("file_path").as_str() {
        Some(path) => Ok(path.to_owned()),
        None => Err(DownloadError::permanent("getFile returned no file_path".to_owned())),
    }
}

/// Reads the bytes of an answer to `getFile` for `token`.
pub fn read_file_path_bytes(bytes: &[u8], token: &str) -> (r: Result<String, DownloadError>)
    ensures
        file_view(r) == (match json_text(bytes@) {
            Some(answer) => file_of(answer),
            None => Err(
                ErrorModel { permanent: false, msg: scrubbed(UNREADABLE@, token@) },
            ),
        }),
{
    match parse_json(bytes) {
        Some(answer) => read_file_path(&answer),
        None => Err(DownloadError::network(UNREADABLE.to_owned(), token)),
    }
}

/// What a file is called: as the message has it, or the last part of its path at
/// Telegram, or `file`.
pub open spec fn suggested_name(file_name: Option<Seq<char>>, file_path: Seq<char>) -> Seq<char> {
    match file_name {
        Some(name) => name,
        None => if base_name(file_path).len() > 0 {
            base_name(file_path)
        } else {
            "file"@
        },
    }
}

/// What a file is called: as the message has it, or the last part of its path at
/// Telegram, or `file`.
pub fn download_name(file_name: Option<&str>, file_path: &str) -> (r: String)
    ensures
        r@ == suggested_name(opt_str_view(file_name), file_path@),
{
    match file_name {
        Some(name) => name.to_owned(),
        None => {
            let last = last_part(file_path);
            if last.as_str().is_empty() {
                "file".to_owned()
            } else {
                last
            }
        },
    }
}

/// The file is already on this disk, and is to be copied rather than fetched.
pub open spec fn is_on_disk(base: Seq<char>, file_path: Seq<char>) -> bool {
    is_loopback(base) && begins_with(file_path, "/"@)
}

/// Whether the file is already on this disk, and is to be copied rather than
/// fetched.
///
/// A local server answers with an absolute path to the file it has downloaded.
/// Only a server on this machine is believed: any other that answers with an
/// absolute path could make the bot copy, and then delete, any file here.
pub fn is_local_copy(base: &str, file_path: &str) -> (r: bool)
    ensures
        r == is_on_disk(base@, file_path@),
{
    is_loopback_server(base) && starts_with(file_path, "/")
}

/// Where a file is to be had.
pub enum Source {
    /// On this disk, at this path.
    Copy(String),
    /// At this address.
    Fetch(String),
}

/// What a [`Source`] holds.
pub enum SourceModel {
    Copy(Seq<char>),
    Fetch(Seq<char>),
}

impl View for Source {
    type V = SourceModel;

    open spec fn view(&self) -> SourceModel {
        match self {
            Source::Copy(path) => SourceModel::Copy(path@),
            Source::Fetch(url) => SourceModel::Fetch(url@),
        }
    }
}

/// How a file is to be had, and what it is called.
pub struct Plan {
    pub name: String,
    pub source: Source,
}

/// What a [`Plan`] holds.
pub struct PlanModel {
    pub name: Seq<char>,
    pub source: SourceModel,
}

impl View for Plan {
    type V = PlanModel;

    open spec fn view(&self) -> PlanModel {
        PlanModel { name: self.name@, source: self.source@ }
    }
}

/// A plan, or why there is none.
pub open spec fn plan_view(r: Result<Plan, DownloadError>) -> Result<PlanModel, ErrorModel> {
    match r {
        Ok(plan) => Ok(plan@),
        Err(e) => Err(e@),
    }
}

/// How a file is to be had, given what `getFile` said of it.
pub open spec fn planned(
    file: Result<Seq<char>, ErrorModel>,
    base: Seq<char>,
    token: Seq<char>,
    file_name: Option<Seq<char>>,
) -> Result<PlanModel, ErrorModel> {
    match file {
        Err(e) => Err(e),
        Ok(path) => Ok(
            PlanModel {
                name: suggested_name(file_name, path),
                source: if is_on_disk(base, path) {
                    SourceModel::Copy(path)
                } else {
                    SourceModel::Fetch(file_address(base, token, path))
                },
            },
        ),
    }
}

/// Decides how a file is to be had, given what `getFile` said of it.
pub fn plan_download(
    file: Result<String, DownloadError>,
    base: &str,
    token: &str,
    file_name: Option<&str>,
) -> (r: Result<Plan, DownloadError>)
    ensures
        plan_view(r) == planned(file_view(file), base@, token@, opt_str_view(file_name)),
{
    match file {
        Err(e) => Err(e),
        Ok(path) => {
            let name = download_name(file_name, path.as_str());
            let source = if is_local_copy(base, path.as_str()) {
                Source::Copy(path)
            } else {
                Source::Fetch(file_url(base, token, path.as_str()))
            };
            Ok(Plan { name, source })
        },
    }
}

/// What an HTTP status of a download means: a success, a permanent failure where
/// Telegram will not serve the path, or one that is worth another try.
pub open spec fn status_error(status: u16) -> Option<ErrorModel> {
    if 200 <= status < 300 {
        None
    } else {
        Some(
            ErrorModel {
                permanent: 400 <= status < 500,
                msg: "file download returned HTTP "@ + decimal(status as nat),
            },
        )
    }
}

/// What an HTTP status of a download means.
pub fn check_status(status: u16) -> (r: Result<(), DownloadError>)
    ensures
        match r {
            Ok(_) => status_error(status) is None,
            Err(e) => status_error(status) == Some(e@),
        },
{
    if 200 <= status && status < 300 {
        return Ok(());
    }
    let mut msg = "file download returned HTTP ".to_owned();
    push_decimal(&mut msg, status as u64);
    if 400 <= status && status < 500 {
        Err(DownloadError::permanent(msg))
    } else {
        Err(DownloadError::transient(msg))
    }
}

/// No file of this machine is copied, and none deleted, on the word of a server
/// that is not on it.
pub proof fn law_only_a_local_server_is_believed(
    file_path: Seq<char>,
    base: Seq<char>,
    token: Seq<char>,
    file_name: Option<Seq<char>>,
)
    requires
        !is_loopback(base),
    ensures
        planned(Ok(file_path), base, token, file_name)->Ok_0.source is Fetch,
{
}

/// A download went well with a status from 200 to 299. Otherwise it failed, for
/// good exactly with one from 400 to 499, and the message ends in the status.
pub proof fn law_a_status_says_whether_to_try_again(status: u16)
    ensures
        status_error(status) is None <==> 200 <= status <= 299,
        status_error(status) is Some ==> (status_error(status)->0.permanent <==> 400 <= status
            <= 499),
        status_error(status) is Some ==> status_error(status)->0.msg
            == "file download returned HTTP "@ + decimal(status as nat),
{
}

/// A file keeps the name that its sender gave it, whatever it is called at
/// Telegram; without one it has the last part of its path there, or is a `file`.
pub proof fn law_a_file_keeps_its_name(name: Seq<char>, dir: Seq<char>, path: Seq<char>)
    requires
        path.len() > 0,
        !path.contains('/'),
        !path.contains('\\'),
    ensures
        suggested_name(Some(name), path) == name,
        suggested_name(None, path) == path,
        suggested_name(None, dir.push('/') + path) == path,
        suggested_name(None, dir.push('/')) == "file"@,
{
    law_only_the_last_part_counts(dir, '/', path);
    assert(base_name(dir.push('/')).len() == 0);
}

/// How a file is had: from the disk exactly when the server is on this machine and
/// names an absolute path, and then at that path; otherwise from the server, at
/// the path it named. What `getFile` refused is refused.
pub proof fn law_a_file_is_had_where_the_server_says(
    path: Seq<char>,
    error: ErrorModel,
    base: Seq<char>,
    token: Seq<char>,
    file_name: Option<Seq<char>>,
)
    ensures
        planned(Ok(path), base, token, file_name) is Ok,
        planned(Ok(path), base, token, file_name)->Ok_0.source is Copy <==> path.len() > 0
            && path[0] == '/' && (begins_with(base, "http://127.0.0.1:"@) || begins_with(
            base,
            "http://localhost:"@,
        ) || begins_with(base, "http://[::1]:"@)),
        planned(Ok(path), base, token, file_name)->Ok_0.source matches SourceModel::Copy(from)
            ==> from == path,
        planned(Ok(path), base, token, file_name)->Ok_0.source matches SourceModel::Fetch(url)
            ==> url == base + "/file/bot"@ + token + "/"@ + path,
        file_name is Some ==> planned(Ok(path), base, token, file_name)->Ok_0.name == file_name->0,
        planned(Err(error), base, token, file_name) == Err::<PlanModel, ErrorModel>(error),
{
    reveal_strlit("/");
    if path.len() > 0 && path[0] == '/' {
        assert(path.take(1) =~= "/"@);
    }
    if begins_with(path, "/"@) {
        assert(path.take(1)[0] == '/');
    }
}

/// What `getFile` says is believed as it is: the path, or why there is none, which
/// no further try can help.
pub proof fn law_get_file_tells_what_telegram_says(answer: JsonModel, said: Seq<char>)
    ensures
        answer.at("ok"@) == JsonModel::Bool(true) && answer.at("result"@).at("file_path"@)
            == JsonModel::Text(said) ==> file_of(answer) == Ok::<Seq<char>, ErrorModel>(said),
        answer.at("ok"@) != JsonModel::Bool(true) && answer.at("description"@) == JsonModel::Text(
            said,
        ) ==> file_of(answer) == Err::<Seq<char>, ErrorModel>(
            ErrorModel { permanent: true, msg: said },
        ),
        file_of(answer) matches Err(e) ==> e.permanent,
        file_of(answer) is Ok ==> answer.at("ok"@) == JsonModel::Bool(true),
{
}

/// The views of an error, of a plan and of where a file is to be had leave nothing
/// out.
pub proof fn law_a_plan_is_seen_whole(e: DownloadError, plan: Plan, at: String)
    ensures
        e@.permanent == e.permanent,
        e@.msg == e.msg@,
        plan@.name == plan.name@,
        plan@.source == plan.source@,
        Source::Copy(at)@ == SourceModel::Copy(at@),
        Source::Fetch(at)@ == SourceModel::Fetch(at@),
{
}

/// A file that the server has no path for is given up on, with a word that says so
/// where the server gives no reason.
pub proof fn law_a_file_without_a_path_is_given_up_on(answer: JsonModel)
    ensures
        answer.at("ok"@) != JsonModel::Bool(true) && !(answer.at("description"@) is Text)
            ==> file_of(answer) == Err::<Seq<char>, ErrorModel>(
            ErrorModel { permanent: true, msg: "getFile failed"@ },
        ),
        answer.at("ok"@) == JsonModel::Bool(true) && !(answer.at("result"@).at(
            "file_path"@,
        ) is Text) ==> file_of(answer) == Err::<Seq<char>, ErrorModel>(
            ErrorModel { permanent: true, msg: "getFile returned no file_path"@ },
        ),
{
}

} // verus!
