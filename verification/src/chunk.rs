//! Splitting a long text into messages that Telegram accepts.

use vstd::prelude::*;
use vstd::string::StringSliceAdditionalSpecFns;
use vstd::utf8::{
    encode_utf8, encode_utf8_valid_utf8, is_char_boundary,
    is_char_boundary_iff_not_is_continuation_byte, is_char_boundary_start_end_of_seq,
    length_of_first_scalar, pop_first_scalar, valid_utf8, valid_utf8_split,
};

verus! {

/// Telegram caps a single text message at 4096 UTF-16 code units. Pieces stay a
/// little under that; since a string's byte length is never below its UTF-16
/// length, staying under this many bytes stays under the real cap.
pub const TELEGRAM_MSG_LIMIT: usize = 4000;

/// The real cap, in UTF-16 code units.
pub const TELEGRAM_MSG_CAP: usize = 4096;

/// `at` is the end of a line: just past a newline, or the end of the text.
pub open spec fn is_line_end(bytes: Seq<u8>, at: int) -> bool {
    0 < at <= bytes.len() && (at == bytes.len() || bytes[at - 1] == 10)
}

/// Some line ends within the limit from `start`.
pub open spec fn line_end_in_reach(bytes: Seq<u8>, start: int) -> bool {
    exists|x: int| start < x <= start + TELEGRAM_MSG_LIMIT && #[trigger] is_line_end(bytes, x)
}

/// A piece that begins at `start` ends at `end`: at the last line end within the
/// limit, or, where no line ends within it, at the last character boundary
/// within it.
pub open spec fn is_cut(bytes: Seq<u8>, start: int, end: int) -> bool {
    &&& start < end <= start + TELEGRAM_MSG_LIMIT
    &&& end <= bytes.len()
    &&& if line_end_in_reach(bytes, start) {
        &&& is_line_end(bytes, end)
        &&& forall|x: int|
            end < x <= start + TELEGRAM_MSG_LIMIT ==> !#[trigger] is_line_end(bytes, x)
    } else {
        &&& is_char_boundary(bytes, end)
        &&& forall|x: int|
            end < x <= start + TELEGRAM_MSG_LIMIT && x <= bytes.len() ==> !#[trigger] is_char_boundary(bytes, x)
    }
}

/// Piece `i` begins where the one before it ends.
pub open spec fn follows(pieces: Seq<(usize, usize)>, i: int) -> bool {
    pieces[i].0 == pieces[i - 1].1
}

/// The pieces lie end to end and cover the first `upto` bytes.
pub open spec fn tiles(pieces: Seq<(usize, usize)>, upto: int) -> bool {
    &&& pieces.len() == 0 ==> upto == 0
    &&& pieces.len() > 0 ==> pieces[0].0 == 0 && pieces.last().1 == upto
    &&& forall|i: int|
        0 < i < pieces.len() ==> #[trigger] follows(pieces, i)
}

/// The pieces of a text: they tile it, and each is cut as [`is_cut`] says.
pub open spec fn chunked(bytes: Seq<u8>, pieces: Seq<(usize, usize)>) -> bool {
    &&& tiles(pieces, bytes.len() as int)
    &&& forall|i: int|
        0 <= i < pieces.len() ==> is_cut(
            bytes,
            (#[trigger] pieces[i]).0 as int,
            pieces[i].1 as int,
        )
}

/// From a character boundary, the next one is one to four bytes further on.
proof fn lemma_next_boundary(bytes: Seq<u8>, at: int) -> (next: int)
    requires
        valid_utf8(bytes),
        is_char_boundary(bytes, at),
        0 <= at < bytes.len(),
    ensures
        at < next <= at + 4,
        next <= bytes.len(),
        is_char_boundary(bytes, next),
        bytes[at] == 10 ==> next == at + 1,
{
    let rest = bytes.subrange(at, bytes.len() as int);
    valid_utf8_split(bytes, at);
    assert(valid_utf8(rest));
    assert(rest[0] == bytes[at]);
    let step = length_of_first_scalar(rest);
    let next = at + step;
    let tail = pop_first_scalar(rest);
    assert(step <= rest.len());
    assert(is_char_boundary(tail, 0));
    assert(is_char_boundary(rest, step));
    if next == bytes.len() {
        is_char_boundary_start_end_of_seq(bytes);
    } else {
        is_char_boundary_iff_not_is_continuation_byte(rest, step);
        is_char_boundary_iff_not_is_continuation_byte(bytes, next);
        assert(rest[step] == bytes[next]);
    }
    next
}

/// A line end is a character boundary.
proof fn lemma_line_end_is_boundary(bytes: Seq<u8>, at: int)
    requires
        valid_utf8(bytes),
        is_line_end(bytes, at),
    ensures
        is_char_boundary(bytes, at),
{
    if at == bytes.len() {
        is_char_boundary_start_end_of_seq(bytes);
    } else {
        is_char_boundary_iff_not_is_continuation_byte(bytes, at - 1);
        let next = lemma_next_boundary(bytes, at - 1);
    }
}

/// Splits text into Telegram-sized pieces, preferring line boundaries so the
/// content stays readable. A single line longer than the limit is split on
/// character boundaries.
///
/// The pieces are byte ranges: the caller sends `&text[a..b]`, so a long file is
/// never held twice over.
pub fn chunk_ranges(text: &str) -> (out: Vec<(usize, usize)>)
    ensures
        chunked(text.spec_bytes(), out@),
        forall|i: int|
            0 <= i < out@.len() ==> is_char_boundary(text.spec_bytes(), (#[trigger] out@[i]).0 as int)
                && is_char_boundary(text.spec_bytes(), out@[i].1 as int),
{
    let bytes = text.as_bytes();
    let ghost b = text.spec_bytes();
    let len: usize = bytes.len();
    let mut out: Vec<(usize, usize)> = Vec::new();
    let mut start: usize = 0;
    proof {
        encode_utf8_valid_utf8(text@);
        is_char_boundary_start_end_of_seq(b);
    }
    while start < len
        invariant
            bytes@ == b,
            b == text.spec_bytes(),
            len == b.len(),
            start <= len,
            valid_utf8(b),
            is_char_boundary(b, start as int),
            tiles(out@, start as int),
            forall|i: int|
                0 <= i < out@.len() ==> is_cut(b, (#[trigger] out@[i]).0 as int, out@[i].1 as int)
                    && is_char_boundary(b, out@[i].0 as int) && is_char_boundary(b, out@[i].1 as int),
        decreases len - start,
    {
        let end = cut_from(text, bytes, start);
        proof {
            if line_end_in_reach(b, start as int) {
                lemma_line_end_is_boundary(b, end as int);
            }
        }
        let ghost before = out@;
        out.push((start, end));
        assert forall|i: int| 0 < i < out@.len() implies #[trigger] follows(out@, i) by {
            if i == before.len() {
                assert(before.last() == out@[i - 1]);
            } else {
                assert(follows(before, i));
            }
        }
        start = end;
    }
    out
}

/// Where the piece that begins at `start` ends.
fn cut_from(text: &str, bytes: &[u8], start: usize) -> (end: usize)
    requires
        bytes@ == text.spec_bytes(),
        valid_utf8(bytes@),
        is_char_boundary(bytes@, start as int),
        start < bytes@.len(),
    ensures
        is_cut(bytes@, start as int, end as int),
{
    let ghost b = bytes@;
    let len: usize = bytes.len();
    if len - start <= TELEGRAM_MSG_LIMIT {
        assert(is_line_end(b, len as int));
        return len;
    }
    let reach: usize = start + TELEGRAM_MSG_LIMIT;
    let mut end: usize = reach;
    while end > start && bytes[end - 1] != 10
        invariant
            bytes@ == b,
            start <= end <= reach < b.len(),
            reach == start + TELEGRAM_MSG_LIMIT,
            forall|x: int| end < x <= reach ==> !#[trigger] is_line_end(b, x),
        decreases end,
    {
        end -= 1;
    }
    if end > start {
        assert(is_line_end(b, end as int));
        return end;
    }
    assert(!line_end_in_reach(b, start as int));
    let ghost next = lemma_next_boundary(b, start as int);
    end = reach;
    while !text.is_char_boundary(end)
        invariant
            b == text.spec_bytes(),
            start < next <= end <= reach < b.len(),
            reach == start + TELEGRAM_MSG_LIMIT,
            is_char_boundary(b, next),
            forall|x: int| end < x <= reach ==> !#[trigger] is_char_boundary(b, x),
        decreases end,
    {
        end -= 1;
    }
    end
}

proof fn lemma_cut_is_unique(bytes: Seq<u8>, start: int, a: int, b: int)
    requires
        is_cut(bytes, start, a),
        is_cut(bytes, start, b),
    ensures
        a == b,
{
}

/// A text has one way of being split: two lists of pieces that both tile it
/// with cuts at the right places are the same list.
pub proof fn law_chunking_is_determined(
    bytes: Seq<u8>,
    p: Seq<(usize, usize)>,
    q: Seq<(usize, usize)>,
)
    requires
        chunked(bytes, p),
        chunked(bytes, q),
    ensures
        p == q,
{
    lemma_common_prefix(bytes, p, q, if p.len() <= q.len() { p.len() } else { q.len() });
    if p.len() < q.len() {
        assert(is_cut(bytes, q[p.len() as int].0 as int, q[p.len() as int].1 as int));
        if p.len() > 0 {
            assert(follows(q, p.len() as int));
            assert(q[p.len() - 1] == p[p.len() - 1]);
        }
    } else if q.len() < p.len() {
        assert(is_cut(bytes, p[q.len() as int].0 as int, p[q.len() as int].1 as int));
        if q.len() > 0 {
            assert(follows(p, q.len() as int));
            assert(p[q.len() - 1] == q[q.len() - 1]);
        }
    }
    assert(p =~= q);
}

proof fn lemma_common_prefix(bytes: Seq<u8>, p: Seq<(usize, usize)>, q: Seq<(usize, usize)>, n: nat)
    requires
        chunked(bytes, p),
        chunked(bytes, q),
        n <= p.len(),
        n <= q.len(),
    ensures
        forall|i: int| 0 <= i < n ==> p[i] == q[i],
    decreases n,
{
    if n > 0 {
        lemma_common_prefix(bytes, p, q, (n - 1) as nat);
        let i = n - 1;
        if i > 0 {
            assert(follows(p, i) && follows(q, i));
            assert(p[i - 1] == q[i - 1]);
        }
        assert(p[i].0 == q[i].0);
        assert(is_cut(bytes, p[i].0 as int, p[i].1 as int));
        assert(is_cut(bytes, q[i].0 as int, q[i].1 as int));
        lemma_cut_is_unique(bytes, p[i].0 as int, p[i].1 as int, q[i].1 as int);
    }
}

/// The pieces put end to end are the whole text, none is empty, and none is
/// over the limit.
pub proof fn law_chunks_tile_the_text(bytes: Seq<u8>, pieces: Seq<(usize, usize)>)
    requires
        chunked(bytes, pieces),
    ensures
        forall|i: int|
            0 <= i < pieces.len() ==> (#[trigger] pieces[i]).0 < pieces[i].1 <= bytes.len()
                && pieces[i].1 - pieces[i].0 <= TELEGRAM_MSG_LIMIT,
        pieces.map_values(
            |p: (usize, usize)| bytes.subrange(p.0 as int, p.1 as int),
        ).flatten() == bytes,
{
    let f = |p: (usize, usize)| bytes.subrange(p.0 as int, p.1 as int);
    assert forall|i: int| 0 <= i < pieces.len() implies (#[trigger] pieces[i]).0 < pieces[i].1
        <= bytes.len() && pieces[i].1 - pieces[i].0 <= TELEGRAM_MSG_LIMIT by {
        assert(is_cut(bytes, pieces[i].0 as int, pieces[i].1 as int));
    }
    if pieces.len() > 0 {
        lemma_flatten_from(bytes, pieces, 0);
        assert(pieces.skip(0) =~= pieces);
        assert(bytes.skip(0) =~= bytes);
    } else {
        assert(bytes =~= Seq::<u8>::empty());
        assert(pieces.map_values(f) =~= Seq::<Seq<u8>>::empty());
    }
}

proof fn lemma_flatten_from(bytes: Seq<u8>, pieces: Seq<(usize, usize)>, k: int)
    requires
        chunked(bytes, pieces),
        0 <= k < pieces.len(),
    ensures
        pieces.skip(k).map_values(
            |p: (usize, usize)| bytes.subrange(p.0 as int, p.1 as int),
        ).flatten() == bytes.skip(pieces[k].0 as int),
    decreases pieces.len() - k,
{
    let f = |p: (usize, usize)| bytes.subrange(p.0 as int, p.1 as int);
    let here = pieces.skip(k).map_values(f);
    assert(is_cut(bytes, pieces[k].0 as int, pieces[k].1 as int));
    assert(here.first() == f(pieces[k]));
    assert(here.drop_first() =~= pieces.skip(k + 1).map_values(f));
    if k + 1 < pieces.len() {
        lemma_flatten_from(bytes, pieces, k + 1);
        assert(follows(pieces, k + 1));
        assert(here.drop_first().flatten() == bytes.skip(pieces[k].1 as int));
        assert(f(pieces[k]) + bytes.skip(pieces[k].1 as int) =~= bytes.skip(pieces[k].0 as int));
    } else {
        assert(here.drop_first() =~= Seq::<Seq<u8>>::empty());
        assert(here.drop_first().flatten() =~= Seq::<u8>::empty());
        assert(pieces.last() == pieces[k]);
        assert(f(pieces[k]) + Seq::<u8>::empty() =~= bytes.skip(pieces[k].0 as int));
    }
    assert(here.flatten() == here.first().add(here.drop_first().flatten()));
}

/// How many UTF-16 code units a text takes: two for a character beyond the basic
/// plane, one for any other.
pub open spec fn utf16_units(text: Seq<char>) -> nat
    decreases text.len(),
{
    if text.len() == 0 {
        0
    } else {
        utf16_units(text.drop_first()) + if text[0] as u32 >= 0x10000 {
            2nat
        } else {
            1
        }
    }
}

/// A text takes no more UTF-16 code units than it takes bytes.
proof fn lemma_units_within_bytes(text: Seq<char>)
    ensures
        utf16_units(text) <= encode_utf8(text).len(),
    decreases text.len(),
{
    if text.len() > 0 {
        lemma_units_within_bytes(text.drop_first());
    }
}

/// Every piece, sent as a message, stays under Telegram's cap.
pub proof fn law_each_piece_fits_a_message(
    text: Seq<char>,
    pieces: Seq<(usize, usize)>,
    i: int,
    message: Seq<char>,
)
    requires
        chunked(encode_utf8(text), pieces),
        0 <= i < pieces.len(),
        encode_utf8(message) == encode_utf8(text).subrange(
            pieces[i].0 as int,
            pieces[i].1 as int,
        ),
    ensures
        utf16_units(message) <= TELEGRAM_MSG_CAP,
{
    lemma_units_within_bytes(message);
    assert(is_cut(encode_utf8(text), pieces[i].0 as int, pieces[i].1 as int));
}

/// A piece ends at the end of a line wherever a line ends within the limit, and
/// then at the last such end, so that as many whole lines go together as fit. Only a
/// line that is longer than a message is cut in its middle, and then as late as a
/// character allows.
pub proof fn law_pieces_hold_whole_lines(bytes: Seq<u8>, pieces: Seq<(usize, usize)>, i: int)
    requires
        chunked(bytes, pieces),
        valid_utf8(bytes),
        0 <= i < pieces.len(),
        pieces[i].1 < bytes.len(),
    ensures
        ({
            let start = pieces[i].0 as int;
            let end = pieces[i].1 as int;
            ||| bytes[end - 1] == 10 && bytes.len() > start + 4000 && forall|k: int|
                end <= k < start + 4000 ==> #[trigger] bytes[k] != 10
            ||| bytes.len() > start + 4000 && is_char_boundary(bytes, end) && start + 3997 <= end
                && forall|k: int| start <= k < start + 4000 ==> #[trigger] bytes[k] != 10
        }),
{
    let start = pieces[i].0 as int;
    let end = pieces[i].1 as int;
    assert(is_cut(bytes, start, end));
    if bytes.len() <= start + 4000 {
        assert(is_line_end(bytes, bytes.len() as int));
    }
    if line_end_in_reach(bytes, start) {
        assert forall|k: int| end <= k < start + 4000 implies #[trigger] bytes[k] != 10 by {
            if bytes[k] == 10 {
                assert(is_line_end(bytes, k + 1));
            }
        }
    } else {
        let next = lemma_next_boundary(bytes, end);
        assert(is_char_boundary(bytes, next));
        assert forall|k: int| start <= k < start + 4000 implies #[trigger] bytes[k] != 10 by {
            if bytes[k] == 10 {
                assert(is_line_end(bytes, k + 1));
            }
        }
    }
}

} // verus!
