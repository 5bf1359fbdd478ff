//! Character classes, trimming and comparison of strings.
//!
//! A string is modelled by its sequence of characters (`s@`).

use vstd::prelude::*;

verus! {

/// The characters with the Unicode `White_Space` property.
pub open spec fn white_space(c: char) -> bool {
    ||| '\u{9}' <= c <= '\u{d}'
    ||| c == '\u{20}'
    ||| c == '\u{85}'
    ||| c == '\u{a0}'
    ||| c == '\u{1680}'
    ||| '\u{2000}' <= c <= '\u{200a}'
    ||| c == '\u{2028}'
    ||| c == '\u{2029}'
    ||| c == '\u{202f}'
    ||| c == '\u{205f}'
    ||| c == '\u{3000}'
}

/// `char::is_whitespace` answers whether the character has the Unicode
/// `White_Space` property; the twenty-five characters are listed in
/// [`white_space`].
pub assume_specification[ char::is_whitespace ](c: char) -> (r: bool)
    ensures
        r == white_space(c),
;

/// What `char::is_alphanumeric` answers: whether a character is alphabetic or
/// numeric in the Unicode character database.
pub uninterp spec fn unicode_alphanumeric(c: char) -> bool;

/// ASCII letters and digits.
pub open spec fn ascii_alphanumeric(c: char) -> bool {
    ||| '0' <= c <= '9'
    ||| 'a' <= c <= 'z'
    ||| 'A' <= c <= 'Z'
}

/// `char::is_alphanumeric` depends on the character alone. Within ASCII it
/// holds of the letters and the digits and of nothing else.
pub assume_specification[ char::is_alphanumeric ](c: char) -> (r: bool)
    ensures
        r == unicode_alphanumeric(c),
        c <= '\u{7f}' ==> r == ascii_alphanumeric(c),
;

/// `String::push` appends one character.
pub assume_specification[ String::push ](s: &mut String, c: char)
    ensures
        final(s)@ == old(s)@.push(c),
;

/// The characters of `s`.
pub fn chars_of(s: &str) -> (r: Vec<char>)
    ensures
        r@ == s@,
{
    let mut out: Vec<char> = Vec::new();
    for c in it: s.chars()
        invariant
            out@ == it.seq().take(it.index() as int),
            it.seq() == s@,
    {
        out.push(c);
    }
    out
}

/// The string made of `chars[from..to]`.
pub fn string_of(chars: &Vec<char>, from: usize, to: usize) -> (r: String)
    requires
        from <= to <= chars@.len(),
    ensures
        r@ == chars@.subrange(from as int, to as int),
{
    let mut out = String::new();
    let mut i: usize = from;
    while i < to
        invariant
            from <= i <= to <= chars@.len(),
            out@ == chars@.subrange(from as int, i as int),
        decreases to - i,
    {
        out.push(chars[i]);
        i += 1;
        assert(chars@.subrange(from as int, i as int) =~= chars@.subrange(
            from as int,
            i - 1,
        ).push(chars@[i - 1]));
    }
    out
}


/// `s` without its leading characters for which `drop` holds.
pub open spec fn trim_front(s: Seq<char>, drop: spec_fn(char) -> bool) -> Seq<char>
    decreases s.len(),
{
    if s.len() > 0 && drop(s[0]) {
        trim_front(s.drop_first(), drop)
    } else {
        s
    }
}

/// `s` without its trailing characters for which `drop` holds.
pub open spec fn trim_back(s: Seq<char>, drop: spec_fn(char) -> bool) -> Seq<char>
    decreases s.len(),
{
    if s.len() > 0 && drop(s.last()) {
        trim_back(s.drop_last(), drop)
    } else {
        s
    }
}

/// `s` without leading and trailing white space.
pub open spec fn trimmed(s: Seq<char>) -> Seq<char> {
    trim_back(trim_front(s, |c: char| white_space(c)), |c: char| white_space(c))
}

/// The predicate that holds of `c` alone.
pub open spec fn is_just(c: char) -> spec_fn(char) -> bool {
    |x: char| x == c
}

/// `s` without the copies of `c` at either end.
pub open spec fn trimmed_of(s: Seq<char>, c: char) -> Seq<char> {
    trim_back(trim_front(s, is_just(c)), is_just(c))
}

/// `s` without the copies of `c` at its end.
pub open spec fn trimmed_end_of(s: Seq<char>, c: char) -> Seq<char> {
    trim_back(s, is_just(c))
}

proof fn lemma_trim_front_step(s: Seq<char>, i: int, drop: spec_fn(char) -> bool)
    requires
        0 <= i < s.len(),
        drop(s[i]),
    ensures
        trim_front(s.skip(i), drop) == trim_front(s.skip(i + 1), drop),
{
    assert(s.skip(i).drop_first() =~= s.skip(i + 1));
}

proof fn lemma_trim_back_step(s: Seq<char>, from: int, to: int, drop: spec_fn(char) -> bool)
    requires
        0 <= from < to <= s.len(),
        drop(s[to - 1]),
    ensures
        trim_back(s.subrange(from, to), drop) == trim_back(s.subrange(from, to - 1), drop),
{
    assert(s.subrange(from, to).drop_last() =~= s.subrange(from, to - 1));
}

/// Trimming gives back a piece of the string, bounded on either side by a
/// character that stays.
pub proof fn lemma_trim_is_a_piece(s: Seq<char>, front: spec_fn(char) -> bool, back: spec_fn(char) -> bool)
    ensures
        ({
            let r = trim_back(trim_front(s, front), back);
            &&& r.len() <= s.len()
            &&& exists|i: int| 0 <= i && i + r.len() <= s.len() && r == #[trigger] s.subrange(i, i + r.len())
            &&& forall|c: char| #[trigger] r.contains(c) ==> s.contains(c)
            &&& r.len() > 0 ==> !back(r.last())
            &&& r.len() > 0 ==> !front(r[0])
        }),
{
    let t = trim_front(s, front);
    lemma_trim_front_suffix(s, front);
    let i = s.len() - t.len();
    lemma_trim_back_prefix(t, back);
    let r = trim_back(t, back);
    assert(r =~= s.subrange(i, i + r.len()));
    assert forall|c: char| #[trigger] r.contains(c) implies s.contains(c) by {
        let k = choose|k: int| 0 <= k < r.len() && r[k] == c;
        assert(s[i + k] == c);
    }
}

proof fn lemma_trim_front_suffix(s: Seq<char>, drop: spec_fn(char) -> bool)
    ensures
        trim_front(s, drop).len() <= s.len(),
        trim_front(s, drop) == s.skip(s.len() - trim_front(s, drop).len()),
        trim_front(s, drop).len() > 0 ==> !drop(trim_front(s, drop)[0]),
    decreases s.len(),
{
    if s.len() > 0 && drop(s[0]) {
        lemma_trim_front_suffix(s.drop_first(), drop);
        let t = trim_front(s, drop);
        assert(s.drop_first().skip(s.drop_first().len() - t.len()) =~= s.skip(s.len() - t.len()));
    } else {
        assert(s.skip(0) =~= s);
    }
}

proof fn lemma_trim_back_prefix(s: Seq<char>, drop: spec_fn(char) -> bool)
    ensures
        trim_back(s, drop).len() <= s.len(),
        trim_back(s, drop) == s.take(trim_back(s, drop).len() as int),
        trim_back(s, drop).len() > 0 ==> !drop(trim_back(s, drop).last()),
    decreases s.len(),
{
    if s.len() > 0 && drop(s.last()) {
        lemma_trim_back_prefix(s.drop_last(), drop);
        let t = trim_back(s, drop);
        assert(s.drop_last().take(t.len() as int) =~= s.take(t.len() as int));
    } else {
        assert(s.take(s.len() as int) =~= s);
    }
}

/// What is left after the copies of `c` at the end are gone does not end in `c`.
pub proof fn lemma_trim_back_ends(s: Seq<char>, c: char)
    ensures
        trimmed_end_of(s, c).len() > 0 ==> trimmed_end_of(s, c).last() != c,
{
    lemma_trim_back_prefix(s, is_just(c));
}

/// `s` without leading and trailing white space.
pub fn trim(s: &str) -> (r: &str)
    ensures
        r@ == trimmed(s@),
{
    let chars = chars_of(s);
    let ghost drop = |c: char| white_space(c);
    let mut from: usize = 0;
    assert(s@.skip(0) =~= s@);
    while from < chars.len() && chars[from].is_whitespace()
        invariant
            from <= chars@.len(),
            chars@ == s@,
            drop == (|c: char| white_space(c)),
            trim_front(s@, drop) == trim_front(s@.skip(from as int), drop),
        decreases chars@.len() - from,
    {
        proof {
            lemma_trim_front_step(s@, from as int, drop);
        }
        from += 1;
    }
    let mut to: usize = chars.len();
    assert(s@.skip(from as int) =~= s@.subrange(from as int, to as int));
    while to > from && chars[to - 1].is_whitespace()
        invariant
            from <= to <= chars@.len(),
            chars@ == s@,
            drop == (|c: char| white_space(c)),
            trimmed(s@) == trim_back(s@.subrange(from as int, to as int), drop),
        decreases to,
    {
        proof {
            lemma_trim_back_step(s@, from as int, to as int, drop);
        }
        to -= 1;
    }
    s.substring_char(from, to)
}

/// `s` without the copies of `c` at either end.
pub fn trim_of(s: &str, c: char) -> (r: &str)
    ensures
        r@ == trimmed_of(s@, c),
{
    let chars = chars_of(s);
    let ghost drop = is_just(c);
    let mut from: usize = 0;
    assert(s@.skip(0) =~= s@);
    while from < chars.len() && chars[from] == c
        invariant
            from <= chars@.len(),
            chars@ == s@,
            drop == is_just(c),
            trim_front(s@, drop) == trim_front(s@.skip(from as int), drop),
        decreases chars@.len() - from,
    {
        proof {
            lemma_trim_front_step(s@, from as int, drop);
        }
        from += 1;
    }
    assert(s@.skip(from as int) =~= s@.subrange(from as int, s@.len() as int));
    trim_end_of(s.substring_char(from, chars.len()), c)
}

/// `s` without the copies of `c` at its end.
pub fn trim_end_of(s: &str, c: char) -> (r: &str)
    ensures
        r@ == trimmed_end_of(s@, c),
{
    let chars = chars_of(s);
    let ghost drop = is_just(c);
    let mut to: usize = chars.len();
    assert(s@.subrange(0, to as int) =~= s@);
    while to > 0 && chars[to - 1] == c
        invariant
            to <= chars@.len(),
            chars@ == s@,
            drop == is_just(c),
            trim_back(s@, drop) == trim_back(s@.subrange(0, to as int), drop),
        decreases to,
    {
        proof {
            lemma_trim_back_step(s@, 0, to as int, drop);
        }
        to -= 1;
    }
    s.substring_char(0, to)
}

/// Whether two strings hold the same characters.
pub fn same_text(a: &str, b: &str) -> (r: bool)
    ensures
        r == (a@ == b@),
{
    let x = chars_of(a);
    let y = chars_of(b);
    if x.len() != y.len() {
        return false;
    }
    let mut i: usize = 0;
    while i < x.len()
        invariant
            x@.len() == y@.len(),
            i <= x@.len(),
            forall|k: int| 0 <= k < i ==> x@[k] == y@[k],
            x@ == a@,
            y@ == b@,
        decreases x@.len() - i,
    {
        if x[i] != y[i] {
            return false;
        }
        i += 1;
    }
    assert(a@ =~= b@);
    true
}

/// `s` begins with `prefix`.
pub open spec fn begins_with(s: Seq<char>, prefix: Seq<char>) -> bool {
    prefix.len() <= s.len() && s.take(prefix.len() as int) == prefix
}

/// Whether `s` begins with `prefix`.
pub fn starts_with(s: &str, prefix: &str) -> (r: bool)
    ensures
        r == begins_with(s@, prefix@),
{
    let x = chars_of(s);
    let p = chars_of(prefix);
    if p.len() > x.len() {
        return false;
    }
    let mut i: usize = 0;
    while i < p.len()
        invariant
            i <= p@.len() <= x@.len(),
            x@ == s@,
            p@ == prefix@,
            forall|k: int| 0 <= k < i ==> x@[k] == p@[k],
        decreases p@.len() - i,
    {
        if x[i] != p[i] {
            assert(x@.take(p@.len() as int)[i as int] != p@[i as int]);
            return false;
        }
        i += 1;
    }
    assert(x@.take(p@.len() as int) =~= p@);
    true
}

/// The text of an optional string.
pub open spec fn opt_view(o: Option<String>) -> Option<Seq<char>> {
    match o {
        Some(s) => Some(s@),
        None => None,
    }
}

/// The text of an optional string slice.
pub open spec fn opt_str_view(o: Option<&str>) -> Option<Seq<char>> {
    match o {
        Some(s) => Some(s@),
        None => None,
    }
}

/// A copy of an optional string.
pub fn copy_opt(o: &Option<String>) -> (r: Option<String>)
    ensures
        opt_view(r) == opt_view(*o),
{
    match o {
        Some(s) => Some(s.clone()),
        None => None,
    }
}

/// A text that neither begins nor ends with white space is left as it is.
pub proof fn lemma_tight_is_trimmed(s: Seq<char>)
    requires
        s.len() > 0 ==> !white_space(s[0]) && !white_space(s.last()),
    ensures
        trimmed(s) == s,
{
}

/// Where `trim_front` drops, it drops only characters that are to go.
proof fn lemma_front_drops(s: Seq<char>, drop: spec_fn(char) -> bool)
    ensures
        forall|k: int| 0 <= k < s.len() - trim_front(s, drop).len() ==> drop(#[trigger] s[k]),
    decreases s.len(),
{
    if s.len() > 0 && drop(s[0]) {
        lemma_front_drops(s.drop_first(), drop);
        lemma_trim_front_suffix(s.drop_first(), drop);
        assert forall|k: int| 0 <= k < s.len() - trim_front(s, drop).len() implies drop(
            #[trigger] s[k],
        ) by {
            if k > 0 {
                assert(s.drop_first()[k - 1] == s[k]);
            }
        }
    }
}

/// Where `trim_back` drops, it drops only characters that are to go.
proof fn lemma_back_drops(s: Seq<char>, drop: spec_fn(char) -> bool)
    ensures
        forall|k: int| trim_back(s, drop).len() <= k < s.len() ==> drop(#[trigger] s[k]),
    decreases s.len(),
{
    if s.len() > 0 && drop(s.last()) {
        lemma_back_drops(s.drop_last(), drop);
        lemma_trim_back_prefix(s.drop_last(), drop);
        assert forall|k: int| trim_back(s, drop).len() <= k < s.len() implies drop(
            #[trigger] s[k],
        ) by {
            if k < s.len() - 1 {
                assert(s.drop_last()[k] == s[k]);
            }
        }
    }
}

/// Trimming takes white space off the ends and nothing else: what is left is one
/// piece of the text, everything before and behind it is white space, and its own
/// ends are not. Trimming it again changes nothing.
pub proof fn law_trimming_takes_only_white_space(s: Seq<char>)
    ensures
        exists|i: int|
            {
                &&& 0 <= i
                &&& i + trimmed(s).len() <= s.len()
                &&& #[trigger] s.subrange(i, i + trimmed(s).len()) == trimmed(s)
                &&& forall|k: int| 0 <= k < i ==> white_space(#[trigger] s[k])
                &&& forall|k: int|
                    i + trimmed(s).len() <= k < s.len() ==> white_space(#[trigger] s[k])
            },
        trimmed(s).len() > 0 ==> !white_space(trimmed(s)[0]) && !white_space(trimmed(s).last()),
        trimmed(trimmed(s)) == trimmed(s),
{
    let drop = |c: char| white_space(c);
    let t = trim_front(s, drop);
    let r = trim_back(t, drop);
    lemma_trim_is_a_piece(s, drop, drop);
    lemma_trim_front_suffix(s, drop);
    lemma_trim_back_prefix(t, drop);
    lemma_front_drops(s, drop);
    lemma_back_drops(t, drop);
    let i = s.len() - t.len();
    assert(s.subrange(i, i + r.len()) =~= r);
    assert forall|k: int| i + r.len() <= k < s.len() implies white_space(#[trigger] s[k]) by {
        assert(t[k - i] == s[k]);
        assert(drop(t[k - i]));
    }
    assert forall|k: int| 0 <= k < i implies white_space(#[trigger] s[k]) by {
        assert(drop(s[k]));
    }
    lemma_tight_is_trimmed(r);
    assert(trimmed(s) == r);
    assert(s.subrange(i, i + trimmed(s).len()) == trimmed(s));
}

/// The text of an optional string is there exactly when the string is, and is its
/// text.
pub proof fn law_an_optional_text_is_seen_whole(o: Option<String>, s: String)
    ensures
        opt_view(o) is Some <==> o is Some,
        opt_view(Some(s)) == Some(s@),
{
}

} // verus!
