//! Keeping bot tokens out of anything that is shown or stored.

use crate::text::chars_of;
use vstd::prelude::*;

verus! {

/// `pattern` stands in `s` at position `i`.
pub open spec fn stands_at(s: Seq<char>, i: int, pattern: Seq<char>) -> bool {
    0 <= i && i + pattern.len() <= s.len() && s.subrange(i, i + pattern.len()) == pattern
}

/// `pattern` stands somewhere in `s`.
pub open spec fn occurs(s: Seq<char>, pattern: Seq<char>) -> bool {
    exists|i: int| #[trigger] stands_at(s, i, pattern)
}

/// `s` with every match of `pattern`, taken from left to right without
/// overlaps, replaced by `by`.
pub open spec fn replaced(s: Seq<char>, pattern: Seq<char>, by: Seq<char>) -> Seq<char>
    decreases s.len(),
{
    if pattern.len() == 0 || s.len() == 0 {
        s
    } else if stands_at(s, 0, pattern) {
        by + replaced(s.skip(pattern.len() as int), pattern, by)
    } else {
        seq![s[0]] + replaced(s.drop_first(), pattern, by)
    }
}

/// What stands in a message in place of the token.
pub open spec fn marker() -> Seq<char> {
    "<redacted>"@
}

/// A message without the token. An empty token leaves it as it is.
pub open spec fn scrubbed(msg: Seq<char>, token: Seq<char>) -> Seq<char> {
    replaced(msg, token, marker())
}

fn matches_at(s: &Vec<char>, i: usize, pattern: &Vec<char>) -> (r: bool)
    requires
        i <= s@.len(),
    ensures
        r == stands_at(s@, i as int, pattern@),
{
    let room: usize = s.len() - i;
    if pattern.len() > room {
        return false;
    }
    let mut k: usize = 0;
    while k < pattern.len()
        invariant
            k <= pattern@.len(),
            pattern@.len() <= room,
            i + room == s@.len(),
            s@.len() <= usize::MAX,
            forall|j: int| 0 <= j < k ==> s@[i + j] == pattern@[j],
        decreases pattern@.len() - k,
    {
        if s[i + k] != pattern[k] {
            assert(s@.subrange(i as int, i + pattern@.len())[k as int] != pattern@[k as int]);
            return false;
        }
        k += 1;
    }
    assert(s@.subrange(i as int, i + pattern@.len()) =~= pattern@);
    true
}

/// Removes the bot token from a message before it is shown or stored.
///
/// An HTTP error carries the request URL, which carries the token; without this
/// a network error would leak it into the window, the tray and the logs.
pub fn scrub(msg: String, token: &str) -> (r: String)
    ensures
        r@ == scrubbed(msg@, token@),
{
    let pattern = chars_of(token);
    if pattern.len() == 0 {
        return msg;
    }
    let s = chars_of(msg.as_str());
    let mut out = String::new();
    let mut i: usize = 0;
    assert(s@.skip(0) =~= s@);
    assert(Seq::<char>::empty() + scrubbed(s@, pattern@) =~= scrubbed(s@, pattern@));
    while i < s.len()
        invariant
            i <= s@.len(),
            pattern@.len() > 0,
            scrubbed(s@, pattern@) == out@ + scrubbed(s@.skip(i as int), pattern@),
        decreases s@.len() - i,
    {
        let ghost rest = s@.skip(i as int);
        let ghost before = out@;
        if matches_at(&s, i, &pattern) {
            proof {
                assert(rest.subrange(0, pattern@.len() as int) =~= s@.subrange(
                    i as int,
                    i + pattern@.len(),
                ));
                assert(stands_at(rest, 0, pattern@));
                assert(rest.skip(pattern@.len() as int) =~= s@.skip(i + pattern@.len()));
            }
            out.append("<redacted>");
            i += pattern.len();
            assert(before + (marker() + scrubbed(s@.skip(i as int), pattern@)) =~= out@ + scrubbed(
                s@.skip(i as int),
                pattern@,
            ));
        } else {
            proof {
                if stands_at(rest, 0, pattern@) {
                    assert(s@.subrange(i as int, i + pattern@.len()) =~= rest.subrange(
                        0,
                        pattern@.len() as int,
                    ));
                }
                assert(rest.drop_first() =~= s@.skip(i + 1));
            }
            out.push(s[i]);
            i += 1;
            assert(before + (seq![rest[0]] + scrubbed(s@.skip(i as int), pattern@)) =~= out@
                + scrubbed(s@.skip(i as int), pattern@));
        }
    }
    assert(s@.skip(i as int) =~= Seq::<char>::empty());
    assert(out@ + Seq::<char>::empty() =~= out@);
    out
}

/// A token that cannot come about anew where the marker meets the text beside
/// it: neither holds the other, and no end of one is a beginning of the other.
pub open spec fn cannot_reform(token: Seq<char>) -> bool {
    let m = marker();
    &&& token.len() > 0
    &&& !occurs(m, token)
    &&& !occurs(token, m)
    &&& forall|k: int|
        0 < k <= token.len() && k <= m.len() ==> #[trigger] token.take(k) != m.skip(m.len() - k)
    &&& forall|k: int|
        0 < k <= token.len() && k <= m.len() ==> token.skip(token.len() - k) != #[trigger] m.take(k)
}

/// Up to its first match, a text is copied as it stands.
proof fn lemma_copied_prefix(s: Seq<char>, t: Seq<char>, by: Seq<char>, j: int)
    requires
        t.len() > 0,
        0 <= j <= s.len(),
        forall|p: int| 0 <= p < j ==> !#[trigger] stands_at(s, p, t),
    ensures
        replaced(s, t, by) == s.take(j) + replaced(s.skip(j), t, by),
    decreases j,
{
    if j == 0 {
        assert(s.take(0) + replaced(s.skip(0), t, by) =~= replaced(s, t, by)) by {
            assert(s.skip(0) =~= s);
        }
    } else {
        let rest = s.drop_first();
        assert(!stands_at(s, 0, t));
        assert forall|p: int| 0 <= p < j - 1 implies !#[trigger] stands_at(rest, p, t) by {
            if stands_at(rest, p, t) {
                assert(s.subrange(p + 1, p + 1 + t.len()) =~= rest.subrange(p, p + t.len()));
                assert(stands_at(s, p + 1, t));
            }
        }
        lemma_copied_prefix(rest, t, by, j - 1);
        assert(rest.skip(j - 1) =~= s.skip(j));
        assert(seq![s[0]] + (rest.take(j - 1) + replaced(s.skip(j), t, by)) =~= s.take(j)
            + replaced(s.skip(j), t, by));
    }
}

/// No token begins at the front of a text that did not begin with it.
proof fn lemma_not_at_front(s: Seq<char>, t: Seq<char>, j: int)
    requires
        cannot_reform(t),
        1 <= j <= t.len(),
        forall|p: int| 0 <= p < j ==> !#[trigger] stands_at(s, p, t),
    ensures
        !stands_at(scrubbed(s, t), 0, t),
    decreases t.len() - j,
{
    let m = marker();
    let r = scrubbed(s, t);
    if stands_at(r, 0, t) {
        let upto = if j <= s.len() { j } else { s.len() as int };
        lemma_copied_prefix(s, t, m, upto);
        assert(r.subrange(0, t.len() as int) == t);
        if j >= s.len() {
            assert(s.skip(s.len() as int) =~= Seq::<char>::empty());
            assert(replaced(s.skip(s.len() as int), t, m) =~= Seq::<char>::empty());
            assert(r =~= s);
            assert(stands_at(s, 0, t));
        } else if j == t.len() {
            assert(s.subrange(0, t.len() as int) =~= r.subrange(0, t.len() as int));
            assert(stands_at(s, 0, t));
        } else if stands_at(s, j, t) {
            let rest = s.skip(j);
            assert(rest.subrange(0, t.len() as int) =~= s.subrange(j, j + t.len()));
            assert(stands_at(rest, 0, t));
            let tail = replaced(rest.skip(t.len() as int), t, m);
            assert(r == s.take(j) + (m + tail));
            if t.len() - j <= m.len() {
                let k = t.len() - j;
                assert(t.skip(j) =~= m.take(k)) by {
                    assert forall|x: int| 0 <= x < k implies t.skip(j)[x] == m.take(k)[x] by {
                        assert(r.subrange(0, t.len() as int)[j + x] == r[j + x]);
                    }
                }
            } else {
                assert(t.subrange(j, j + m.len()) =~= m) by {
                    assert forall|x: int| 0 <= x < m.len() implies t.subrange(j, j + m.len())[x] == m[x] by {
                        assert(r.subrange(0, t.len() as int)[j + x] == r[j + x]);
                    }
                }
                assert(stands_at(t, j, m));
            }
            assert(false);
        } else {
            lemma_not_at_front(s, t, j + 1);
        }
    }
}

/// A scrubbed message never holds the token.
///
/// The one proviso is a token that the marker itself could complete, such as
/// `d>:x`, which `<redacted>:x` would hold.
pub proof fn law_scrubbed_never_holds_the_token(msg: Seq<char>, token: Seq<char>)
    requires
        cannot_reform(token),
    ensures
        !occurs(scrubbed(msg, token), token),
    decreases msg.len(),
{
    let m = marker();
    let r = scrubbed(msg, token);
    if msg.len() == 0 {
        assert(r.len() == 0);
    } else if stands_at(msg, 0, token) {
        let rest = msg.skip(token.len() as int);
        let tail = scrubbed(rest, token);
        law_scrubbed_never_holds_the_token(rest, token);
        assert forall|i: int| !#[trigger] stands_at(r, i, token) by {
            if stands_at(r, i, token) {
                if i >= m.len() {
                    assert(r.subrange(i, i + token.len()) =~= tail.subrange(
                        i - m.len(),
                        i - m.len() + token.len(),
                    ));
                    assert(stands_at(tail, i - m.len(), token));
                } else if i + token.len() <= m.len() {
                    assert(m.subrange(i, i + token.len()) =~= r.subrange(i, i + token.len()));
                    assert(stands_at(m, i, token));
                } else {
                    let k = m.len() - i;
                    assert(token.take(k) =~= m.skip(m.len() - k)) by {
                        assert forall|x: int| 0 <= x < k implies token.take(k)[x] == m.skip(m.len() - k)[x] by {
                            assert(r.subrange(i, i + token.len())[x] == r[i + x]);
                        }
                    }
                }
            }
        }
    } else {
        let rest = msg.drop_first();
        let tail = scrubbed(rest, token);
        law_scrubbed_never_holds_the_token(rest, token);
        assert forall|i: int| !#[trigger] stands_at(r, i, token) by {
            if stands_at(r, i, token) {
                if i >= 1 {
                    assert(r.subrange(i, i + token.len()) =~= tail.subrange(
                        i - 1,
                        i - 1 + token.len(),
                    ));
                    assert(stands_at(tail, i - 1, token));
                } else {
                    lemma_not_at_front(msg, token, 1);
                }
            }
        }
    }
}

/// A token as Telegram issues them, with a colon in it and no angle bracket, is
/// covered by [`law_scrubbed_never_holds_the_token`].
pub proof fn law_telegram_tokens_cannot_reform(token: Seq<char>)
    requires
        token.contains(':'),
        !token.contains('<'),
        !token.contains('>'),
    ensures
        cannot_reform(token),
{
    let m = marker();
    reveal_strlit("<redacted>");
    let c = choose|c: int| 0 <= c < token.len() && token[c] == ':';
    assert forall|i: int| !#[trigger] stands_at(m, i, token) by {
        if stands_at(m, i, token) {
            assert(m.subrange(i, i + token.len())[c] == m[i + c]);
        }
    }
    assert forall|i: int| !#[trigger] stands_at(token, i, m) by {
        if stands_at(token, i, m) {
            assert(token.subrange(i, i + m.len())[0] == token[i]);
        }
    }
    assert forall|k: int| 0 < k <= token.len() && k <= m.len() implies #[trigger] token.take(k)
        != m.skip(m.len() - k) by {
        assert(m.skip(m.len() - k)[k - 1] == '>');
        assert(token.take(k)[k - 1] == token[k - 1]);
    }
    assert forall|k: int| 0 < k <= token.len() && k <= m.len() implies token.skip(token.len() - k)
        != #[trigger] m.take(k) by {
        assert(m.take(k)[0] == '<');
        assert(token.skip(token.len() - k)[0] == token[token.len() - k]);
    }
}

/// A message without the token in it is left as it is; so is every message where
/// there is no token.
pub proof fn law_what_holds_no_token_is_left_alone(msg: Seq<char>, token: Seq<char>)
    requires
        token.len() == 0 || !occurs(msg, token),
    ensures
        scrubbed(msg, token) == msg,
    decreases msg.len(),
{
    if token.len() > 0 && msg.len() > 0 {
        assert(!stands_at(msg, 0, token));
        let rest = msg.drop_first();
        assert forall|i: int| !#[trigger] stands_at(rest, i, token) by {
            if stands_at(rest, i, token) {
                assert(msg.subrange(i + 1, i + 1 + token.len()) =~= rest.subrange(
                    i,
                    i + token.len(),
                ));
                assert(stands_at(msg, i + 1, token));
            }
        }
        law_what_holds_no_token_is_left_alone(rest, token);
        assert(seq![msg[0]] + rest =~= msg);
    }
}

/// Nothing but the token is taken out: what stands before its first occurrence
/// stays, `<redacted>` follows, and what stands behind it is dealt with in the same
/// way.
pub proof fn law_only_the_token_is_taken_out(
    before: Seq<char>,
    token: Seq<char>,
    behind: Seq<char>,
)
    requires
        token.len() > 0,
        forall|i: int|
            0 <= i < before.len() ==> !#[trigger] stands_at(before + token + behind, i, token),
    ensures
        scrubbed(before + token + behind, token) == before + "<redacted>"@ + scrubbed(
            behind,
            token,
        ),
    decreases before.len(),
{
    let msg = before + token + behind;
    if before.len() == 0 {
        assert(msg.subrange(0, token.len() as int) =~= token);
        assert(stands_at(msg, 0, token));
        assert(msg.skip(token.len() as int) =~= behind);
        assert("<redacted>"@ + scrubbed(behind, token) =~= before + "<redacted>"@ + scrubbed(
            behind,
            token,
        ));
    } else {
        let rest = before.drop_first();
        assert(!stands_at(msg, 0, token));
        assert(msg.drop_first() =~= rest + token + behind);
        assert forall|i: int| 0 <= i < rest.len() implies !#[trigger] stands_at(
            rest + token + behind,
            i,
            token,
        ) by {
            if stands_at(rest + token + behind, i, token) {
                assert(msg.subrange(i + 1, i + 1 + token.len()) =~= (rest + token
                    + behind).subrange(i, i + token.len()));
                assert(stands_at(msg, i + 1, token));
            }
        }
        law_only_the_token_is_taken_out(rest, token, behind);
        assert(seq![msg[0]] + (rest + "<redacted>"@ + scrubbed(behind, token)) =~= before
            + "<redacted>"@ + scrubbed(behind, token));
    }
}

} // verus!
