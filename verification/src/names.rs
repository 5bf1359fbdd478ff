//! Names for saved files: safe, and never one that is already taken.

use crate::clock::{file_stamp, is_file_stamp};
use crate::number::{decimal, is_digit, law_decimal_round_trip, push_decimal};
use crate::paths::{is_plain_name, join, joined, lemma_join_is_injective};
use crate::text::{
    ascii_alphanumeric, chars_of, is_just, lemma_tight_is_trimmed, lemma_trim_is_a_piece, string_of,
    trim, trim_of, trimmed, trimmed_of, unicode_alphanumeric, white_space,
};
use vstd::prelude::*;

verus! {

/// A separator in a path of any system.
pub open spec fn is_separator(c: char) -> bool {
    c == '/' || c == '\\'
}

/// What follows the last separator of `name`.
pub open spec fn base_name(name: Seq<char>) -> Seq<char>
    decreases name.len(),
{
    if name.len() == 0 || is_separator(name.last()) {
        Seq::empty()
    } else {
        base_name(name.drop_last()).push(name.last())
    }
}

/// A character that stays in a file name.
pub open spec fn is_kept(c: char) -> bool {
    if c <= '\u{7f}' {
        ascii_alphanumeric(c) || c == '.' || c == '-' || c == '_' || c == ' '
    } else {
        unicode_alphanumeric(c)
    }
}

/// A character or the underscore that stands in for it.
pub open spec fn cleaned(c: char) -> char {
    if is_kept(c) {
        c
    } else {
        '_'
    }
}

/// `name` reduced to a safe file name: its last part, with odd characters
/// replaced, without white space around it and then without dots around it.
pub open spec fn safe_name(name: Seq<char>) -> Seq<char> {
    let t = trimmed_of(trimmed(base_name(name).map_values(|c: char| cleaned(c))), '.');
    if t.len() == 0 {
        "file"@
    } else {
        t
    }
}

/// Within ASCII, a letter, a digit, or one of the four marks that are kept.
pub open spec fn is_safe(c: char) -> bool {
    c <= '\u{7f}' ==> ascii_alphanumeric(c) || c == '.' || c == '-' || c == '_' || c == ' '
}

/// What follows the last separator of `chars`, as an index.
fn base_start(chars: &Vec<char>) -> (i: usize)
    ensures
        i <= chars@.len(),
        base_name(chars@) == chars@.skip(i as int),
{
    let ghost s = chars@;
    let mut i: usize = chars.len();
    assert(s.skip(i as int) =~= Seq::<char>::empty());
    assert(s.take(i as int) =~= s);
    assert(base_name(s) =~= base_name(s) + Seq::<char>::empty());
    while i > 0 && chars[i - 1] != '/' && chars[i - 1] != '\\'
        invariant
            i <= s.len(),
            chars@ == s,
            base_name(s) == base_name(s.take(i as int)) + s.skip(i as int),
        decreases i,
    {
        proof {
            let t = s.take(i as int);
            assert(t.drop_last() =~= s.take(i - 1));
            assert(base_name(t.drop_last()).push(t.last()) + s.skip(i as int) =~= base_name(
                t.drop_last(),
            ) + s.skip(i - 1));
        }
        i -= 1;
    }
    assert(base_name(s.take(i as int)) =~= Seq::<char>::empty());
    assert(Seq::<char>::empty() + s.skip(i as int) =~= s.skip(i as int));
    i
}

/// What follows the last separator of `name`.
pub fn last_part(name: &str) -> (r: String)
    ensures
        r@ == base_name(name@),
{
    let chars = chars_of(name);
    let start = base_start(&chars);
    assert(chars@.skip(start as int) =~= chars@.subrange(start as int, chars@.len() as int));
    string_of(&chars, start, chars.len())
}

/// Strips anything that is not a safe file name character. Names that come from
/// Telegram can hold separators or other surprises, so only the last part and a
/// conservative character set are kept.
pub fn sanitize_filename(name: &str) -> (r: String)
    ensures
        r@ == safe_name(name@),
        is_plain_name(r@),
        forall|i: int| 0 <= i < r@.len() ==> is_safe(#[trigger] r@[i]),
{
    let chars = chars_of(name);
    let start = base_start(&chars);
    let ghost base = base_name(name@);
    let ghost clean = base.map_values(|c: char| cleaned(c));
    let mut out = String::new();
    let mut i: usize = start;
    while i < chars.len()
        invariant
            start <= i <= chars@.len(),
            base == chars@.skip(start as int),
            clean == base.map_values(|c: char| cleaned(c)),
            out@ == clean.take(i - start),
            forall|k: int| 0 <= k < out@.len() ==> is_safe(#[trigger] out@[k]),
        decreases chars@.len() - i,
    {
        let c = chars[i];
        let ghost before = out@;
        let kept = c.is_alphanumeric() || c == '.' || c == '-' || c == '_' || c == ' ';
        out.push(if kept {
            c
        } else {
            '_'
        });
        proof {
            assert(base[i - start] == c);
            assert(clean.take(i - start + 1) =~= clean.take(i - start).push(cleaned(c)));
            assert forall|k: int| 0 <= k < out@.len() implies is_safe(#[trigger] out@[k]) by {
                if k < before.len() {
                    assert(is_safe(before[k]));
                }
            }
        }
        i += 1;
    }
    assert(clean.take(i - start) =~= clean);
    let t = trim(out.as_str());
    let u = trim_of(t, '.');
    proof {
        lemma_trim_is_a_piece(clean, |c: char| white_space(c), |c: char| white_space(c));
        lemma_trim_is_a_piece(t@, is_just('.'), is_just('.'));
        reveal_strlit("file");
        reveal_strlit(".");
        reveal_strlit("..");
        assert forall|k: int| 0 <= k < u@.len() implies is_safe(#[trigger] u@[k]) by {
            assert(u@.contains(u@[k]));
            assert(t@.contains(u@[k]));
            assert(clean.contains(u@[k]));
            let j = choose|j: int| 0 <= j < clean.len() && clean[j] == u@[k];
            assert(is_safe(clean[j]));
        }
    }
    if u.is_empty() {
        "file".to_owned()
    } else {
        u.to_owned()
    }
}

/// The position of the last dot of `s`, if it has one.
pub open spec fn last_dot(s: Seq<char>) -> Option<int>
    decreases s.len(),
{
    if s.len() == 0 {
        None
    } else if s.last() == '.' {
        Some(s.len() - 1)
    } else {
        last_dot(s.drop_last())
    }
}

/// Where the counter goes in a name: before the extension, or at the end where
/// there is none.
pub open spec fn counter_place(base: Seq<char>) -> int {
    match last_dot(base) {
        Some(i) => i,
        None => base.len() as int,
    }
}

/// The `n`th name to try: the plain one first, then with a counter before the
/// extension.
pub open spec fn numbered_name(base: Seq<char>, n: nat) -> Seq<char> {
    if n == 0 {
        base
    } else {
        let at = counter_place(base);
        base.take(at) + "-"@ + decimal(n) + base.skip(at)
    }
}

/// The name a file is saved under when nothing is in the way: the moment, an
/// underscore, and the safe name.
pub open spec fn stamped_name(stamp: Seq<char>, name: Seq<char>) -> Seq<char> {
    stamp + "_"@ + safe_name(name)
}

proof fn lemma_counter_place(base: Seq<char>)
    ensures
        0 <= counter_place(base) <= base.len(),
        last_dot(base) is Some ==> 0 <= last_dot(base)->0 < base.len() && base[last_dot(base)->0] == '.',
    decreases base.len(),
{
    if base.len() > 0 && base.last() != '.' {
        lemma_counter_place(base.drop_last());
    }
}

/// No two of the names to try are the same, so trying them in turn never tries
/// one twice.
pub proof fn law_numbered_names_are_distinct(base: Seq<char>, n: nat, m: nat)
    requires
        n != m,
    ensures
        numbered_name(base, n) != numbered_name(base, m),
{
    lemma_counter_place(base);
    law_decimal_round_trip(n);
    law_decimal_round_trip(m);
    reveal_strlit("-");
    let at = counter_place(base);
    let x = numbered_name(base, n);
    let y = numbered_name(base, m);
    if x == y {
        if n == 0 {
            assert(y.len() == base.len() + 1 + decimal(m).len());
        } else if m == 0 {
            assert(x.len() == base.len() + 1 + decimal(n).len());
        } else {
            assert(x.len() == base.len() + 1 + decimal(n).len());
            assert(y.len() == base.len() + 1 + decimal(m).len());
            assert(x.subrange(at + 1, at + 1 + decimal(n).len()) =~= decimal(n));
            assert(y.subrange(at + 1, at + 1 + decimal(m).len()) =~= decimal(m));
        }
    }
}

/// The destinations to try in a folder are as distinct as the names are.
pub proof fn law_destinations_are_distinct(dir: Seq<char>, base: Seq<char>, n: nat, m: nat)
    requires
        n != m,
        base.len() > 0,
        !base.contains('/'),
    ensures
        joined(dir, numbered_name(base, n)) != joined(dir, numbered_name(base, m)),
{
    law_numbered_names_are_distinct(base, n, m);
    lemma_numbered_name_is_relative(base, n);
    lemma_numbered_name_is_relative(base, m);
    if joined(dir, numbered_name(base, n)) == joined(dir, numbered_name(base, m)) {
        lemma_join_is_injective(dir, numbered_name(base, n), numbered_name(base, m));
    }
}

proof fn lemma_numbered_name_is_relative(base: Seq<char>, n: nat)
    requires
        base.len() > 0,
        !base.contains('/'),
    ensures
        numbered_name(base, n).len() > 0,
        numbered_name(base, n)[0] != '/',
{
    lemma_counter_place(base);
    reveal_strlit("-");
    assert(base.contains(base[0]));
}

proof fn lemma_stamp_has_no_separator(stamp: Seq<char>)
    requires
        is_file_stamp(stamp),
    ensures
        !stamp.contains('/'),
{
    let y = stamp.len() - 11;
    let year = stamp.take(y);
    if stamp.contains('/') {
        let i = choose|i: int| 0 <= i < stamp.len() && stamp[i] == '/';
        if i < y {
            assert(year[i] == '/');
        }
        assert(!is_digit(stamp[i]));
        assert(false);
    }
}

proof fn lemma_numbered_name_has_no_separator(base: Seq<char>, n: nat)
    requires
        !base.contains('/'),
    ensures
        !numbered_name(base, n).contains('/'),
{
    lemma_counter_place(base);
    law_decimal_round_trip(n);
    reveal_strlit("-");
    let at = counter_place(base);
    let x = numbered_name(base, n);
    if n > 0 && x.contains('/') {
        let i = choose|i: int| 0 <= i < x.len() && x[i] == '/';
        if i < at {
            assert(base.contains(base[i]));
        } else if i == at {
            assert(x[i] == '-');
        } else if i < at + 1 + decimal(n).len() {
            assert(is_digit(decimal(n)[i - at - 1]));
        } else {
            assert(base.contains(base[i - 1 - decimal(n).len()]));
        }
    }
}

fn dot_index(chars: &Vec<char>) -> (i: usize)
    ensures
        i == counter_place(chars@),
        i <= chars@.len(),
{
    let ghost s = chars@;
    let mut i: usize = chars.len();
    assert(s.take(i as int) =~= s);
    while i > 0
        invariant
            i <= s.len(),
            chars@ == s,
            last_dot(s) == last_dot(s.take(i as int)),
        decreases i,
    {
        proof {
            let t = s.take(i as int);
            assert(t.drop_last() =~= s.take(i - 1));
            assert(t.last() == s[i - 1]);
        }
        if chars[i - 1] == '.' {
            return i - 1;
        }
        i -= 1;
    }
    chars.len()
}

/// The first of the numbered destinations that is not taken.
///
/// `taken` answers whether something stands at a path already. `None` means that
/// every counter below the limit of a 32-bit integer is used up.
pub fn first_free<F: Fn(&str) -> bool>(dir: &str, base: &str, taken: F) -> (r: Option<String>)
    requires
        forall|p: &str| #[trigger] taken.requires((p,)),
    ensures
        r matches Some(dest) ==> exists|n: nat|
            #![trigger numbered_name(base@, n)]
            {
                &&& n <= i32::MAX
                &&& dest@ == joined(dir@, numbered_name(base@, n))
                &&& answered(taken, dest@, false)
                &&& forall|k: nat|
                    k < n ==> answered(taken, joined(dir@, #[trigger] numbered_name(base@, k)), true)
            },
        r is None ==> forall|k: nat|
            k <= i32::MAX ==> answered(taken, joined(dir@, #[trigger] numbered_name(base@, k)), true),
{
    let chars = chars_of(base);
    let at = dot_index(&chars);
    let stem = string_of(&chars, 0, at);
    let ext = string_of(&chars, at, chars.len());
    assert(stem@ =~= base@.take(at as int));
    assert(ext@ =~= base@.skip(at as int));
    let mut candidate = join(dir, base);
    let mut n: u64 = 0;
    while taken(candidate.as_str())
        invariant
            forall|p: &str| #[trigger] taken.requires((p,)),
            n <= i32::MAX,
            at == counter_place(base@),
            stem@ == base@.take(at as int),
            ext@ == base@.skip(at as int),
            candidate@ == joined(dir@, numbered_name(base@, n as nat)),
            forall|k: nat|
                k < n ==> answered(taken, joined(dir@, #[trigger] numbered_name(base@, k)), true),
        decreases i32::MAX - n,
    {
        assert(answered(taken, candidate@, true));
        if n == i32::MAX as u64 {
            return None;
        }
        n += 1;
        let mut name = stem.clone();
        name.append("-");
        push_decimal(&mut name, n);
        name.append(ext.as_str());
        candidate = join(dir, name.as_str());
    }
    assert(answered(taken, candidate@, false));
    Some(candidate)
}

/// `taken` gave `answer` when it was asked about the path `path`.
pub open spec fn answered<F: Fn(&str) -> bool>(taken: F, path: Seq<char>, answer: bool) -> bool {
    exists|p: &str| p@ == path && #[trigger] taken.ensures((p,), answer)
}

/// Picks a destination inside `dir` for a file called `name`: the safe name behind
/// the moment, with a counter before the extension where that is taken. No
/// separator is left in the name, so the file lands in `dir` itself.
pub fn unique_dest<F: Fn(&str) -> bool>(dir: &str, name: &str, taken: F) -> (r: Option<String>)
    requires
        forall|p: &str| #[trigger] taken.requires((p,)),
    ensures
        exists|stamp: Seq<char>|
            #![trigger is_file_stamp(stamp)]
            {
                &&& is_file_stamp(stamp)
                &&& r matches Some(dest) ==> exists|n: nat|
                    #![trigger numbered_name(stamped_name(stamp, name@), n)]
                    {
                        &&& dest@ == joined(dir@, numbered_name(stamped_name(stamp, name@), n))
                        &&& !numbered_name(stamped_name(stamp, name@), n).contains('/')
                        &&& answered(taken, dest@, false)
                        &&& forall|k: nat|
                            k < n ==> answered(
                                taken,
                                joined(dir@, #[trigger] numbered_name(stamped_name(stamp, name@), k)),
                                true,
                            )
                    }
                &&& r is None ==> forall|k: nat|
                    k <= i32::MAX ==> answered(
                        taken,
                        joined(dir@, #[trigger] numbered_name(stamped_name(stamp, name@), k)),
                        true,
                    )
            },
{
    let mut base = file_stamp();
    let ghost stamp = base@;
    let safe = sanitize_filename(name);
    base.append("_");
    base.append(safe.as_str());
    assert(is_file_stamp(stamp));
    assert(base@ == stamped_name(stamp, name@));
    proof {
        lemma_stamp_has_no_separator(stamp);
        reveal_strlit("_");
        assert(!base@.contains('/')) by {
            if base@.contains('/') {
                let i = choose|i: int| 0 <= i < base@.len() && base@[i] == '/';
                if i < stamp.len() {
                    assert(stamp.contains(stamp[i]));
                } else if i > stamp.len() {
                    assert(safe@.contains(safe@[i - stamp.len() - 1]));
                }
            }
        }
        assert forall|n: nat| !(#[trigger] numbered_name(base@, n)).contains('/') by {
            lemma_numbered_name_has_no_separator(base@, n);
        }
    }
    first_free(dir, base.as_str(), taken)
}

/// A path in front of a name, of whatever system, has no bearing on it.
pub proof fn law_only_the_last_part_counts(path: Seq<char>, separator: char, name: Seq<char>)
    requires
        separator == '/' || separator == '\\',
    ensures
        base_name(path.push(separator) + name) == base_name(name),
        safe_name(path.push(separator) + name) == safe_name(name),
        !name.contains('/') && !name.contains('\\') ==> base_name(name) == name,
    decreases name.len(),
{
    let whole = path.push(separator) + name;
    if name.len() == 0 {
        assert(whole =~= path.push(separator));
    } else {
        assert(whole.last() == name.last());
        assert(whole.drop_last() =~= path.push(separator) + name.drop_last());
        assert(name.contains(name.last()));
        assert forall|c: char| name.drop_last().contains(c) implies name.contains(c) by {
            let i = choose|i: int| 0 <= i < name.drop_last().len() && name.drop_last()[i] == c;
            assert(name[i] == c);
        }
        law_only_the_last_part_counts(path, separator, name.drop_last());
        if !name.contains('/') && !name.contains('\\') {
            assert(base_name(name) =~= name);
        }
    }
}

/// A name is changed character by character, and only where it has to be: a
/// letter, a digit, a dot, a hyphen, an underscore or a space stays where it is,
/// any other ASCII character becomes an underscore, and beyond ASCII letters and
/// digits of every script stay. A name that is safe already is left as it is.
pub proof fn law_a_safe_name_stays(name: Seq<char>)
    requires
        name.len() > 0,
        !name.contains('/'),
        !name.contains('\\'),
        name[0] <= '\u{7f}' && name[0] != '.' && name[0] != ' ',
        name.last() <= '\u{7f}' && name.last() != '.' && name.last() != ' ',
    ensures
        safe_name(name).len() == name.len(),
        forall|i: int|
            0 <= i < name.len() ==> #[trigger] safe_name(name)[i] == ({
                let c = name[i];
                if 'a' <= c <= 'z' || 'A' <= c <= 'Z' || '0' <= c <= '9' || c == '.' || c == '-'
                    || c == '_' || c == ' ' {
                    c
                } else if c <= '\u{7f}' {
                    '_'
                } else if unicode_alphanumeric(c) {
                    c
                } else {
                    '_'
                }
            }),
        (forall|i: int|
            0 <= i < name.len() ==> {
                let c = #[trigger] name[i];
                'a' <= c <= 'z' || 'A' <= c <= 'Z' || '0' <= c <= '9' || c == '.' || c == '-' || c
                    == '_' || c == ' '
            }) ==> safe_name(name) == name,
{
    law_only_the_last_part_counts(Seq::empty(), '/', name);
    let clean = name.map_values(|c: char| cleaned(c));
    lemma_tight_is_trimmed(clean);
    assert(trimmed_of(clean, '.') == clean);
    assert(safe_name(name) == clean);
    if forall|i: int|
        0 <= i < name.len() ==> {
            let c = #[trigger] name[i];
            'a' <= c <= 'z' || 'A' <= c <= 'Z' || '0' <= c <= '9' || c == '.' || c == '-' || c
                == '_' || c == ' '
        } {
        assert(clean =~= name);
    }
}

/// The counter goes before the extension, and at the end where there is none; the
/// first name to try has none.
pub proof fn law_the_counter_goes_before_the_extension(stem: Seq<char>, ext: Seq<char>, n: nat)
    requires
        !ext.contains('.'),
    ensures
        numbered_name(stem + "."@ + ext, 0) == stem + "."@ + ext,
        n > 0 ==> numbered_name(stem + "."@ + ext, n) == stem + "-"@ + decimal(n) + "."@ + ext,
        n > 0 ==> numbered_name(ext, n) == ext + "-"@ + decimal(n),
{
    reveal_strlit(".");
    let base = stem + "."@ + ext;
    lemma_last_dot(stem, ext);
    lemma_no_dot(ext);
    if n > 0 {
        assert(base.take(stem.len() as int) =~= stem);
        assert(base.skip(stem.len() as int) =~= "."@ + ext);
        assert(stem + "-"@ + decimal(n) + ("."@ + ext) =~= stem + "-"@ + decimal(n) + "."@ + ext);
        assert(ext.take(ext.len() as int) =~= ext);
        assert(ext + "-"@ + decimal(n) + ext.skip(ext.len() as int) =~= ext + "-"@ + decimal(n));
    }
}

proof fn lemma_no_dot(s: Seq<char>)
    requires
        !s.contains('.'),
    ensures
        last_dot(s) is None,
    decreases s.len(),
{
    if s.len() > 0 {
        assert(s.contains(s.last()));
        assert forall|c: char| s.drop_last().contains(c) implies s.contains(c) by {
            let i = choose|i: int| 0 <= i < s.drop_last().len() && s.drop_last()[i] == c;
            assert(s[i] == c);
        }
        lemma_no_dot(s.drop_last());
    }
}

proof fn lemma_last_dot(stem: Seq<char>, ext: Seq<char>)
    requires
        !ext.contains('.'),
    ensures
        last_dot(stem + "."@ + ext) == Some(stem.len() as int),
    decreases ext.len(),
{
    reveal_strlit(".");
    let base = stem + "."@ + ext;
    if ext.len() == 0 {
        assert(base.last() == '.');
    } else {
        assert(ext.contains(ext.last()));
        assert(base.last() == ext.last());
        assert(base.drop_last() =~= stem + "."@ + ext.drop_last());
        assert forall|c: char| ext.drop_last().contains(c) implies ext.contains(c) by {
            let i = choose|i: int| 0 <= i < ext.drop_last().len() && ext.drop_last()[i] == c;
            assert(ext[i] == c);
        }
        lemma_last_dot(stem, ext.drop_last());
    }
}

/// Whatever a file is called, the name it is saved under is not blank, has no
/// separator in it and, of ASCII, only letters, digits, dots, hyphens, underscores
/// and spaces; and it neither begins nor ends with a dot.
pub proof fn law_every_saved_name_is_safe(name: Seq<char>, i: int)
    requires
        0 <= i < safe_name(name).len(),
    ensures
        ({
            let c = safe_name(name)[i];
            c <= '\u{7f}' ==> '0' <= c <= '9' || 'a' <= c <= 'z' || 'A' <= c <= 'Z' || c == '.' || c
                == '-' || c == '_' || c == ' '
        }),
        safe_name(name)[0] != '.',
        safe_name(name).last() != '.',
{
    let clean = base_name(name).map_values(|c: char| cleaned(c));
    let t = trimmed(clean);
    let u = trimmed_of(t, '.');
    lemma_trim_is_a_piece(clean, |c: char| white_space(c), |c: char| white_space(c));
    lemma_trim_is_a_piece(t, is_just('.'), is_just('.'));
    reveal_strlit("file");
    if u.len() > 0 {
        assert(u.contains(u[i]));
        assert(t.contains(u[i]));
        assert(clean.contains(u[i]));
    }
}

/// Of a disk that does not change meanwhile, an answer is the truth.
pub proof fn law_an_answer_is_about_its_path<F: Fn(&str) -> bool>(
    taken: F,
    there: spec_fn(Seq<char>) -> bool,
    path: Seq<char>,
    answer: bool,
)
    requires
        forall|p: &str, b: bool| #[trigger] taken.ensures((p,), b) ==> b == there(p@),
        answered(taken, path, answer),
    ensures
        answer == there(path),
{
}

/// A name of ASCII letters, digits, dots, hyphens, underscores and spaces, with
/// neither a dot nor a space at an end of it, comes back as it is.
pub proof fn law_a_clean_name_comes_back(name: &str, r: String)
    requires
        call_ensures(sanitize_filename, (name,), r),
        name@.len() > 0,
        name@[0] != '.' && name@[0] != ' ',
        name@.last() != '.' && name@.last() != ' ',
        forall|i: int|
            0 <= i < name@.len() ==> {
                let c = #[trigger] name@[i];
                'a' <= c <= 'z' || 'A' <= c <= 'Z' || '0' <= c <= '9' || c == '.' || c == '-' || c
                    == '_' || c == ' '
            },
    ensures
        r@ == name@,
{
    assert(name@[0] <= '\u{7f}');
    assert(name@[name@.len() - 1] <= '\u{7f}');
    law_a_safe_name_stays(name@);
    assert(safe_name(name@) =~= name@);
}

/// The name a file is saved under begins with the moment, and ends in its safe name.
pub proof fn law_a_saved_name_begins_with_its_moment(stamp: Seq<char>, name: Seq<char>)
    ensures
        stamped_name(stamp, name).take(stamp.len() as int) == stamp,
        stamped_name(stamp, name)[stamp.len() as int] == '_',
        stamped_name(stamp, name).skip(stamp.len() as int + 1) == safe_name(name),
{
    reveal_strlit("_");
}

} // verus!
