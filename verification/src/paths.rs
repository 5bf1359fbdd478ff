//! Where things live on disk.
//!
//! A path is its text, with `/` between its parts, as on every Unix system.

use crate::clock::{file_stamp, fresh_id, is_file_stamp, is_random_id};
use crate::text::{chars_of, opt_str_view, opt_view, trim, trimmed};
use vstd::prelude::*;

verus! {

/// What `std::path::Path::parent` gives: the path without its last component.
pub uninterp spec fn path_parent(path: Seq<char>) -> Option<Seq<char>>;

/// What `std::path::Path::file_name` gives: the last component, where it is a
/// normal one.
pub uninterp spec fn path_file_name(path: Seq<char>) -> Option<Seq<char>>;

/// A single ordinary component: not empty, without a separator, and neither `.`
/// nor `..`.
pub open spec fn is_plain_name(name: Seq<char>) -> bool {
    &&& name.len() > 0
    &&& !name.contains('/')
    &&& name != "."@
    &&& name != ".."@
}

/// A directory with nothing at its end that is normalised away: the empty one,
/// the root, or one that ends neither in a separator nor in a component `.`
/// behind one.
pub open spec fn is_clean_dir(dir: Seq<char>) -> bool {
    ||| dir.len() == 0
    ||| dir == "/"@
    ||| dir.last() != '/' && !(dir.len() >= 2 && dir.last() == '.' && dir[dir.len() - 2] == '/')
}

/// `std::path::Path::parent`. It depends on the text alone. Of an ordinary name
/// joined to a directory it is that directory, where nothing at its end is
/// normalised away; and that is so of every directory it returns. There is none
/// only where the path has no file name either: it is empty, or ends in the root.
#[verifier::external_body]
fn parent(path: &str) -> (r: Option<String>)
    ensures
        opt_view(r) == path_parent(path@),
        forall|dir: Seq<char>, name: Seq<char>|
            path@ == #[trigger] joined(dir, name) && is_clean_dir(dir) && is_plain_name(name)
                ==> opt_view(r) == Some(dir),
        r matches Some(dir) ==> forall|name: Seq<char>|
            is_plain_name(name) ==> path_parent(#[trigger] joined(dir@, name)) == Some(dir@),
        r is None ==> path_file_name(path@) is None,
{
    std::path::Path::new(path).parent().map(|p| p.to_string_lossy().into_owned())
}

/// `std::path::Path::file_name`. It depends on the text alone. It is an ordinary
/// name, and of such a name joined to any directory it is that name.
#[verifier::external_body]
fn file_name(path: &str) -> (r: Option<String>)
    ensures
        opt_view(r) == path_file_name(path@),
        r matches Some(name) ==> is_plain_name(name@),
        forall|dir: Seq<char>, name: Seq<char>|
            path@ == #[trigger] joined(dir, name) && is_plain_name(name) ==> opt_view(r) == Some(
                name,
            ),
{
    std::path::Path::new(path).file_name().map(|n| n.to_string_lossy().into_owned())
}

/// A name by itself is that name joined to the empty directory.
proof fn lemma_join_to_nothing(name: Seq<char>)
    ensures
        joined(Seq::empty(), name) == name,
        is_clean_dir(Seq::empty()),
{
    assert(Seq::<char>::empty() + name =~= name);
}

/// An ordinary name does not begin with a separator.
proof fn lemma_plain_is_relative(name: Seq<char>)
    requires
        is_plain_name(name),
    ensures
        name[0] != '/',
{
    assert(name.contains(name[0]));
}

/// `name` joined to the directory `dir`: an absolute name stands by itself, and a
/// separator is put between the two where `dir` does not end in one.
pub open spec fn joined(dir: Seq<char>, name: Seq<char>) -> Seq<char> {
    if name.len() > 0 && name[0] == '/' {
        name
    } else if dir.len() == 0 || dir.last() == '/' {
        dir + name
    } else {
        dir + "/"@ + name
    }
}

/// `name` joined to the directory `dir`.
pub fn join(dir: &str, name: &str) -> (r: String)
    ensures
        r@ == joined(dir@, name@),
{
    let d = chars_of(dir);
    let n = chars_of(name);
    if n.len() > 0 && n[0] == '/' {
        return name.to_owned();
    }
    let mut out = dir.to_owned();
    if d.len() > 0 && d[d.len() - 1] != '/' {
        out.append("/");
    }
    out.append(name);
    out
}

/// The directory a file lies in, where it has to exist before the file can be
/// written: the parent, unless there is none or it is empty.
pub open spec fn directory_of(path: Seq<char>) -> Option<Seq<char>> {
    match path_parent(path) {
        Some(p) => if p.len() > 0 {
            Some(p)
        } else {
            None
        },
        None => None,
    }
}

/// The directory that has to exist before `path` can be written.
pub fn directory_to_create(path: &str) -> (r: Option<String>)
    ensures
        opt_view(r) == directory_of(path@),
        is_plain_name(path@) ==> r is None,
        forall|dir: Seq<char>, name: Seq<char>|
            path@ == #[trigger] joined(dir, name) && is_clean_dir(dir) && is_plain_name(name)
                ==> opt_view(r) == if dir.len() > 0 {
                Some(dir)
            } else {
                None
            },
{
    proof {
        lemma_join_to_nothing(path@);
    }
    match parent(path) {
        Some(p) => if p.as_str().is_empty() {
            None
        } else {
            Some(p)
        },
        None => None,
    }
}

/// Where a bot's files go: the configured folder, or an `attachments` folder next
/// to the markdown file when none is set.
pub open spec fn save_dir(file: Seq<char>, files_dir: Option<Seq<char>>) -> Seq<char> {
    if files_dir is Some && trimmed(files_dir->0).len() > 0 {
        trimmed(files_dir->0)
    } else if directory_of(file) is Some {
        joined(directory_of(file)->0, "attachments"@)
    } else {
        "attachments"@
    }
}

/// Resolves where a bot's received and dropped files are saved, so that both land
/// in the same place.
///
/// With no folder set, a note `dir/name` has its files in `dir/attachments`.
pub fn resolve_save_dir(file: &str, files_dir: Option<&str>) -> (r: String)
    ensures
        r@ == save_dir(file@, opt_str_view(files_dir)),
        files_dir is None && is_plain_name(file@) ==> r@ == "attachments"@,
        forall|dir: Seq<char>, name: Seq<char>|
            files_dir is None && file@ == #[trigger] joined(dir, name) && is_clean_dir(dir)
                && is_plain_name(name) ==> r@ == joined(dir, "attachments"@),
{
    proof {
        reveal_strlit("attachments");
        lemma_join_to_nothing(file@);
        lemma_join_to_nothing("attachments"@);
    }
    if let Some(d) = files_dir {
        let t = trim(d);
        if !t.is_empty() {
            return t.to_owned();
        }
    }
    match directory_to_create(file) {
        Some(dir) => join(dir.as_str(), "attachments"),
        None => "attachments".to_owned(),
    }
}

/// The name of a file, or `default` where the path has none.
pub open spec fn name_or(path: Seq<char>, default: Seq<char>) -> Seq<char> {
    match path_file_name(path) {
        Some(n) => n,
        None => default,
    }
}

/// The name of a file, or `default` where the path has none.
pub fn file_name_or(path: &str, default: &str) -> (r: String)
    ensures
        r@ == name_or(path@, default@),
        is_plain_name(path@) ==> r@ == path@,
        forall|dir: Seq<char>, name: Seq<char>|
            path@ == #[trigger] joined(dir, name) && is_plain_name(name) ==> r@ == name,
{
    proof {
        lemma_join_to_nothing(path@);
    }
    match file_name(path) {
        Some(n) => n,
        None => default.to_owned(),
    }
}

/// The name of a file, or `msg2note` where the path has none.
pub open spec fn name_or_default(path: Seq<char>) -> Seq<char> {
    name_or(path, "msg2note"@)
}

/// The hidden lock file beside `path`.
pub open spec fn lock_path(path: Seq<char>) -> Seq<char> {
    let lock = "."@ + name_or_default(path) + ".lock"@;
    match directory_of(path) {
        Some(dir) => joined(dir, lock),
        None => lock,
    }
}

/// Path of the sidecar lock file that processes coordinate on for a data file:
/// for `dir/notes.md` it is `dir/.notes.md.lock`. The lock is taken on this
/// sidecar, never on the markdown file itself.
pub fn sidecar_lock_path(path: &str) -> (r: String)
    ensures
        r@ == lock_path(path@),
        path_file_name(path@) is Some ==> path_parent(r@) == path_parent(path@) && r@ != path@,
        is_plain_name(path@) ==> r@ == "."@ + path@ + ".lock"@,
        forall|dir: Seq<char>, name: Seq<char>|
            path@ == #[trigger] joined(dir, name) && is_clean_dir(dir) && is_plain_name(name)
                ==> r@ == joined(dir, "."@ + name + ".lock"@),
{
    let known = file_name(path);
    let ghost named = known is Some;
    let name = match known {
        Some(n) => n,
        None => "msg2note".to_owned(),
    };
    let mut lock = ".".to_owned();
    lock.append(name.as_str());
    lock.append(".lock");
    proof {
        lemma_lock_name(name@);
        lemma_join_to_nothing(path@);
        lemma_join_to_nothing(lock@);
    }
    let dir = match parent(path) {
        Some(dir) => dir,
        None => String::new(),
    };
    let r = join(dir.as_str(), lock.as_str());
    proof {
        if named && r@ == path@ {
            assert(path@ == joined(dir@, lock@));
            assert(name@ == lock@);
        }
    }
    r
}

/// The name of a lock is an ordinary one, and longer than the name it is for.
proof fn lemma_lock_name(name: Seq<char>)
    ensures
        ({
            let lock = "."@ + name + ".lock"@;
            &&& lock.len() == name.len() + 6
            &&& lock[0] == '.'
            &&& !name.contains('/') ==> is_plain_name(lock)
        }),
{
    reveal_strlit(".");
    reveal_strlit("..");
    reveal_strlit(".lock");
    let lock = "."@ + name + ".lock"@;
    if !name.contains('/') && lock.contains('/') {
        let i = choose|i: int| 0 <= i < lock.len() && lock[i] == '/';
        if 1 <= i < 1 + name.len() {
            assert(name[i - 1] == '/');
        }
    }
}

/// Two notes in one folder share a lock if and only if they have the same name:
/// one note always has the same lock, and no other has it.
pub proof fn law_locks_are_apart(p: Seq<char>, q: Seq<char>)
    requires
        path_file_name(p) is Some,
        path_file_name(q) is Some,
        path_parent(p) == path_parent(q),
    ensures
        lock_path(p) == lock_path(q) <==> path_file_name(p) == path_file_name(q),
{
    let a = path_file_name(p)->0;
    let b = path_file_name(q)->0;
    let x = "."@ + a + ".lock"@;
    let y = "."@ + b + ".lock"@;
    lemma_lock_name(a);
    lemma_lock_name(b);
    reveal_strlit(".");
    if lock_path(p) == lock_path(q) {
        if directory_of(p) is Some {
            lemma_join_is_injective(directory_of(p)->0, x, y);
        }
        assert(x.subrange(1, a.len() + 1int) =~= a);
        assert(y.subrange(1, b.len() + 1int) =~= b);
    }
}

/// `name` in the directory that `path` lies in; the current directory where it
/// has none.
pub open spec fn beside(path: Seq<char>, name: Seq<char>) -> Seq<char> {
    match path_parent(path) {
        Some(dir) => joined(dir, name),
        None => joined("."@, name),
    }
}

fn join_beside(path: &str, name: &str) -> (r: String)
    ensures
        r@ == beside(path@, name@),
        forall|dir: Seq<char>, last: Seq<char>|
            path@ == #[trigger] joined(dir, last) && is_clean_dir(dir) && is_plain_name(last)
                ==> r@ == joined(dir, name@),
{
    match parent(path) {
        Some(dir) => join(dir.as_str(), name),
        None => join(".", name),
    }
}

/// The name of a bot's pending-download journal.
pub open spec fn journal_name(id: Seq<char>) -> Seq<char> {
    "pending-"@ + id + ".json"@
}

/// Path to a bot's pending-download journal, kept beside the status file.
pub fn journal_path(status_path: &str, id: &str) -> (r: String)
    ensures
        r@ == beside(status_path@, journal_name(id@)),
        forall|dir: Seq<char>, name: Seq<char>|
            status_path@ == #[trigger] joined(dir, name) && is_clean_dir(dir) && is_plain_name(name)
                ==> r@ == joined(dir, journal_name(id@)),
{
    let mut name = "pending-".to_owned();
    name.append(id);
    name.append(".json");
    proof {
        reveal_strlit("pending-");
        assert(name@[0] == 'p');
    }
    join_beside(status_path, name.as_str())
}

/// Two bots never share a journal.
pub proof fn law_journals_are_apart(status_path: Seq<char>, a: Seq<char>, b: Seq<char>)
    requires
        a != b,
    ensures
        beside(status_path, journal_name(a)) != beside(status_path, journal_name(b)),
{
    reveal_strlit("pending-");
    let x = journal_name(a);
    let y = journal_name(b);
    let dir = match path_parent(status_path) {
        Some(dir) => dir,
        None => "."@,
    };
    assert(x[0] == 'p' && y[0] == 'p');
    if joined(dir, x) == joined(dir, y) {
        lemma_join_is_injective(dir, x, y);
        let p = "pending-"@.len() as int;
        assert(x.len() == y.len());
        assert(x.subrange(p, p + a.len()) =~= a);
        assert(y.subrange(p, p + b.len()) =~= b);
    }
}

/// Two relative names joined to one directory give two paths.
pub proof fn lemma_join_is_injective(dir: Seq<char>, a: Seq<char>, b: Seq<char>)
    requires
        joined(dir, a) == joined(dir, b),
        a.len() > 0,
        b.len() > 0,
        a[0] != '/',
        b[0] != '/',
    ensures
        a == b,
{
    let p = joined(dir, a).len() - a.len();
    assert(joined(dir, a).skip(p) =~= a);
    assert(joined(dir, b).skip(p) =~= b);
}

/// Where the managed server stores its data, beside the config file.
pub fn server_data_dir(config_path: &str) -> (r: String)
    ensures
        r@ == beside(config_path@, "bot-api"@),
        forall|dir: Seq<char>, name: Seq<char>|
            config_path@ == #[trigger] joined(dir, name) && is_clean_dir(dir) && is_plain_name(name)
                ==> r@ == joined(dir, "bot-api"@),
{
    proof {
        reveal_strlit("bot-api");
    }
    join_beside(config_path, "bot-api")
}

/// The name of a sibling: the whole original name, a tag and a suffix.
pub open spec fn sibling_name(name: Seq<char>, tag: Seq<char>, suffix: Seq<char>) -> Seq<char> {
    name + "."@ + tag + "-"@ + suffix
}

/// The path of a sibling: [`sibling_name`] in the place of the file name.
pub open spec fn sibling_path(path: Seq<char>, tag: Seq<char>, suffix: Seq<char>) -> Seq<char> {
    let name = sibling_name(name_or_default(path), tag, suffix);
    match (path_file_name(path), path_parent(path)) {
        (Some(_), Some(dir)) => joined(dir, name),
        _ => joined(path, name),
    }
}

/// A sibling of `path` named `<file name>.<tag>-<suffix>`, keeping the original
/// extension so the file it came from stays recognisable.
pub fn sibling(path: &str, tag: &str, suffix: &str) -> (r: String)
    ensures
        r@ == sibling_path(path@, tag@, suffix@),
        is_plain_name(path@) ==> r@ == sibling_name(path@, tag@, suffix@),
        forall|dir: Seq<char>, name: Seq<char>|
            path@ == #[trigger] joined(dir, name) && is_clean_dir(dir) && is_plain_name(name)
                ==> r@ == joined(dir, sibling_name(name, tag@, suffix@)),
{
    let current = file_name(path);
    let named = current.is_some();
    let mut name = match current {
        Some(n) => n,
        None => "msg2note".to_owned(),
    };
    let ghost base = name@;
    name.append(".");
    name.append(tag);
    name.append("-");
    name.append(suffix);
    proof {
        lemma_join_to_nothing(path@);
        lemma_join_to_nothing(name@);
        if named {
            lemma_plain_is_relative(base);
        }
    }
    if named {
        if let Some(dir) = parent(path) {
            return join(dir.as_str(), name.as_str());
        }
    }
    join(path, name.as_str())
}

/// Where an unreadable file is moved aside to: a sibling tagged with the moment.
pub fn corrupt_backup(path: &str) -> (r: String)
    ensures
        exists|stamp: Seq<char>|
            #![trigger is_file_stamp(stamp)]
            is_file_stamp(stamp) && r@ == sibling_path(path@, "corrupt"@, stamp),
{
    let stamp = file_stamp();
    sibling(path, "corrupt", stamp.as_str())
}

/// A temporary sibling to write to before it is renamed over `path`. The name is
/// fresh, so concurrent writers do not clobber each other.
pub fn temp_sibling(path: &str) -> (r: String)
    ensures
        exists|id: Seq<char>|
            #![trigger is_random_id(id)]
            is_random_id(id) && r@ == sibling_path(path@, "tmp"@, id),
{
    let id = fresh_id();
    sibling(path, "tmp", id.as_str())
}

/// A name is joined to a directory with exactly one separator between the two, and
/// none where there is no directory; an absolute name stands by itself.
pub proof fn law_a_join_has_one_separator(dir: Seq<char>, name: Seq<char>)
    requires
        name.len() > 0,
    ensures
        name[0] == '/' ==> joined(dir, name) == name,
        name[0] != '/' && dir.len() == 0 ==> joined(dir, name) == name,
        name[0] != '/' && dir.len() > 0 && dir.last() == '/' ==> joined(dir, name) == dir + name,
        name[0] != '/' && dir.len() > 0 && dir.last() != '/' ==> joined(dir, name) == dir.push('/')
            + name,
{
    reveal_strlit("/");
    lemma_join_to_nothing(name);
    assert(dir + "/"@ =~= dir.push('/'));
}

/// A bot's files go to the folder that is set, and where none is, to a folder
/// `attachments` beside the note.
pub proof fn law_files_go_where_they_are_meant_to(file: Seq<char>, files_dir: Option<Seq<char>>)
    ensures
        files_dir is Some && trimmed(files_dir->0).len() > 0 ==> save_dir(file, files_dir)
            == trimmed(files_dir->0),
        (files_dir is None || trimmed(files_dir->0).len() == 0) ==> save_dir(file, files_dir)
            == match path_parent(file) {
            Some(dir) => joined(dir, "attachments"@),
            None => "attachments"@,
        },
{
    lemma_join_to_nothing("attachments"@);
    if let Some(dir) = path_parent(file) {
        if dir.len() == 0 {
            assert(dir =~= Seq::<char>::empty());
        }
    }
}

/// A sibling lies beside its file, keeps the whole of its name and has a tag and a
/// suffix behind it; it is never the file itself, and two suffixes make two
/// siblings.
pub proof fn law_siblings_are_apart(
    path: Seq<char>,
    tag: Seq<char>,
    suffix: Seq<char>,
    other: Seq<char>,
)
    requires
        path_file_name(path) is Some,
        path_parent(path) is Some,
        is_plain_name(path_file_name(path)->0),
    ensures
        sibling_path(path, tag, suffix) == joined(
            path_parent(path)->0,
            path_file_name(path)->0 + "."@ + tag + "-"@ + suffix,
        ),
        suffix != other ==> sibling_path(path, tag, suffix) != sibling_path(path, tag, other),
        sibling_path(path, tag, suffix) != joined(path_parent(path)->0, path_file_name(path)->0),
{
    let dir = path_parent(path)->0;
    let name = path_file_name(path)->0;
    let x = sibling_name(name, tag, suffix);
    let y = sibling_name(name, tag, other);
    lemma_plain_is_relative(name);
    assert(x[0] == name[0] && y[0] == name[0]);
    reveal_strlit(".");
    if sibling_path(path, tag, suffix) == sibling_path(path, tag, other) {
        lemma_join_is_injective(dir, x, y);
        let head = name + "."@ + tag + "-"@;
        assert(x.skip(head.len() as int) =~= suffix);
        assert(y.skip(head.len() as int) =~= other);
    }
    if sibling_path(path, tag, suffix) == joined(dir, name) {
        lemma_join_is_injective(dir, x, name);
        assert(x.len() > name.len());
    }
}

/// A journal is named after its bot.
pub proof fn law_a_journal_is_named_after_its_bot(id: Seq<char>)
    ensures
        journal_name(id) == "pending-"@ + id + ".json"@,
{
}

} // verus!
