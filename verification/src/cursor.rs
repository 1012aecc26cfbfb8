//! Cursor positions in UTF-8 text.
//!
//! A cursor is a byte offset into a text buffer. Every function here takes an
//! arbitrary offset and answers with an offset that lies on a character
//! boundary of the buffer, so a cursor never points into the middle of a
//! multi-byte character.
//!
//! The model is the byte sequence of the buffer (`encode_utf8` of its
//! characters) together with vstd's `is_char_boundary`.
use vstd::prelude::*;
use vstd::utf8::*;

verus! {

/// The byte that ends a line.
pub const LINE_FEED: u8 = 0x0a;

/// Which neighbouring line a vertical step goes to.
#[derive(Clone, Copy, Debug, PartialEq, Eq, Structural)]
pub enum Direction {
    Up,
    Down,
}

/// The smaller of two offsets.
pub open spec fn lesser(a: int, b: int) -> int {
    if a <= b {
        a
    } else {
        b
    }
}

/// The first character boundary at or after `from`; the length of the buffer
/// when `from` lies beyond it.
pub open spec fn boundary_at_or_after(bytes: Seq<u8>, from: int) -> int
    decreases bytes.len() - from,
{
    if from >= bytes.len() {
        bytes.len() as int
    } else if is_char_boundary(bytes, from) {
        from
    } else {
        boundary_at_or_after(bytes, from + 1)
    }
}

/// The last character boundary at or before `from`; 0 when `from` is not
/// positive.
pub open spec fn boundary_at_or_before(bytes: Seq<u8>, from: int) -> int
    decreases from,
{
    if from <= 0 {
        0
    } else if is_char_boundary(bytes, from) {
        from
    } else {
        boundary_at_or_before(bytes, from - 1)
    }
}

/// Where a cursor at `pos` belongs: an offset beyond the buffer is clamped to
/// its length, an offset inside a character moves forward to the end of that
/// character.
pub open spec fn normalize_pos(bytes: Seq<u8>, pos: int) -> int {
    boundary_at_or_after(bytes, lesser(pos, bytes.len() as int))
}

/// The start of the last character that begins before `pos`; 0 when there is
/// none.
pub open spec fn step_left_pos(bytes: Seq<u8>, pos: int) -> int {
    boundary_at_or_before(bytes, lesser(pos, bytes.len() as int) - 1)
}

/// The first character boundary after `pos`; the length of the buffer when
/// `pos` is at or beyond its end.
pub open spec fn step_right_pos(bytes: Seq<u8>, pos: int) -> int {
    if pos >= bytes.len() {
        bytes.len() as int
    } else {
        boundary_at_or_after(bytes, pos + 1)
    }
}

/// The offset at which the line holding `pos` starts: just after the nearest
/// line feed before `pos`, or 0.
pub open spec fn line_start(bytes: Seq<u8>, pos: int) -> int
    decreases pos,
{
    if pos <= 0 {
        0
    } else if bytes[pos - 1] == LINE_FEED {
        pos
    } else {
        line_start(bytes, pos - 1)
    }
}

/// The offset at which the line holding `pos` ends: the nearest line feed at
/// or after `pos`, or the length of the buffer.
pub open spec fn line_end(bytes: Seq<u8>, pos: int) -> int
    decreases bytes.len() - pos,
{
    if pos >= bytes.len() {
        bytes.len() as int
    } else if bytes[pos] == LINE_FEED {
        pos
    } else {
        line_end(bytes, pos + 1)
    }
}

/// The offset in the neighbouring line that a cursor standing on the boundary
/// `pos` aims at: the same byte column, or the end of that line where it is
/// shorter. On the first line (going up) or the last line (going down) the
/// cursor stays where it is.
pub open spec fn vertical_target(bytes: Seq<u8>, pos: int, direction: Direction) -> int {
    let start = line_start(bytes, pos);
    let column = pos - start;
    match direction {
        Direction::Up => {
            if start == 0 {
                pos
            } else {
                let above_end = start - 1;
                let above_start = line_start(bytes, above_end);
                above_start + lesser(column, above_end - above_start)
            }
        },
        Direction::Down => {
            let end = line_end(bytes, pos);
            if end >= bytes.len() {
                pos
            } else {
                let below_start = end + 1;
                let below_end = line_end(bytes, below_start);
                below_start + lesser(column, below_end - below_start)
            }
        },
    }
}

/// Where a cursor at `pos` lands after moving one line up or down. The cursor
/// is normalized first; the byte column it aims at may fall inside a
/// character of the other line, so the target is normalized as well.
pub open spec fn vertical_pos(bytes: Seq<u8>, pos: int, direction: Direction) -> int {
    normalize_pos(bytes, vertical_target(bytes, normalize_pos(bytes, pos), direction))
}

/// `boundary_at_or_after` finds a boundary, does not go back, and passes no
/// boundary on its way.
pub proof fn lemma_boundary_at_or_after(bytes: Seq<u8>, from: int)
    requires
        valid_utf8(bytes),
    ensures
        is_char_boundary(bytes, boundary_at_or_after(bytes, from)),
        0 <= boundary_at_or_after(bytes, from) <= bytes.len(),
        from <= bytes.len() ==> from <= boundary_at_or_after(bytes, from),
        forall|k: int|
            from <= k < boundary_at_or_after(bytes, from) ==> !is_char_boundary(bytes, k),
    decreases bytes.len() - from,
{
    is_char_boundary_start_end_of_seq(bytes);
    if from < bytes.len() && !is_char_boundary(bytes, from) {
        lemma_boundary_at_or_after(bytes, from + 1);
    }
}

/// `boundary_at_or_before` finds a boundary, does not go forward, and passes
/// no boundary on its way.
pub proof fn lemma_boundary_at_or_before(bytes: Seq<u8>, from: int)
    requires
        valid_utf8(bytes),
        from <= bytes.len(),
    ensures
        is_char_boundary(bytes, boundary_at_or_before(bytes, from)),
        0 <= boundary_at_or_before(bytes, from),
        0 <= from ==> boundary_at_or_before(bytes, from) <= from,
        forall|k: int|
            boundary_at_or_before(bytes, from) < k <= from ==> !is_char_boundary(bytes, k),
    decreases from,
{
    if from > 0 && !is_char_boundary(bytes, from) {
        lemma_boundary_at_or_before(bytes, from - 1);
    }
}

/// A boundary inside the buffer is its own normal form.
pub proof fn lemma_normalize_fixes_boundaries(bytes: Seq<u8>, pos: int)
    requires
        valid_utf8(bytes),
        is_char_boundary(bytes, pos),
    ensures
        0 <= pos <= bytes.len(),
        normalize_pos(bytes, pos) == pos,
{
}

/// Normalizing a cursor gives a character boundary inside the buffer, at or
/// after the cursor where it was inside, with no boundary skipped; and
/// normalizing twice changes nothing more.
pub proof fn lemma_normalize_idempotent(bytes: Seq<u8>, pos: int)
    requires
        valid_utf8(bytes),
    ensures
        is_char_boundary(bytes, normalize_pos(bytes, pos)),
        0 <= normalize_pos(bytes, pos) <= bytes.len(),
        lesser(pos, bytes.len() as int) <= normalize_pos(bytes, pos),
        forall|k: int|
            lesser(pos, bytes.len() as int) <= k < normalize_pos(bytes, pos) ==> !is_char_boundary(
                bytes,
                k,
            ),
        normalize_pos(bytes, normalize_pos(bytes, pos)) == normalize_pos(bytes, pos),
{
    lemma_boundary_at_or_after(bytes, lesser(pos, bytes.len() as int));
    lemma_normalize_fixes_boundaries(bytes, normalize_pos(bytes, pos));
}

/// A step to the left gives the start of a character, strictly before the
/// cursor unless the cursor is at the start, with no boundary skipped.
pub proof fn lemma_step_left(bytes: Seq<u8>, pos: int)
    requires
        valid_utf8(bytes),
        0 <= pos,
    ensures
        is_char_boundary(bytes, step_left_pos(bytes, pos)),
        0 <= step_left_pos(bytes, pos) <= lesser(pos, bytes.len() as int),
        pos > 0 && bytes.len() > 0 ==> step_left_pos(bytes, pos) < lesser(pos, bytes.len() as int),
        pos == 0 || bytes.len() == 0 ==> step_left_pos(bytes, pos) == 0,
        forall|k: int|
            step_left_pos(bytes, pos) < k < lesser(pos, bytes.len() as int) ==> !is_char_boundary(
                bytes,
                k,
            ),
{
    lemma_boundary_at_or_before(bytes, lesser(pos, bytes.len() as int) - 1);
}

/// A step to the right gives a character boundary, strictly after the cursor
/// unless the cursor is at or beyond the end, with no boundary skipped.
pub proof fn lemma_step_right(bytes: Seq<u8>, pos: int)
    requires
        valid_utf8(bytes),
        0 <= pos,
    ensures
        is_char_boundary(bytes, step_right_pos(bytes, pos)),
        step_right_pos(bytes, pos) <= bytes.len(),
        pos < bytes.len() ==> pos < step_right_pos(bytes, pos),
        pos >= bytes.len() ==> step_right_pos(bytes, pos) == bytes.len(),
        forall|k: int| pos < k < step_right_pos(bytes, pos) ==> !is_char_boundary(bytes, k),
{
    is_char_boundary_start_end_of_seq(bytes);
    if pos < bytes.len() {
        lemma_boundary_at_or_after(bytes, pos + 1);
    }
}

/// In a buffer that is not empty, a step to the left followed by a step to
/// the right moves over exactly one character: both offsets are character
/// boundaries, the second lies after the first, and no boundary lies between
/// them. From any cursor but the start, the two steps lead to the cursor's
/// normal form, so a cursor on a boundary comes back to where it was.
pub proof fn lemma_step_left_then_right(bytes: Seq<u8>, pos: int)
    requires
        valid_utf8(bytes),
        bytes.len() > 0,
        0 <= pos,
    ensures
        is_char_boundary(bytes, step_left_pos(bytes, pos)),
        is_char_boundary(bytes, step_right_pos(bytes, step_left_pos(bytes, pos))),
        step_left_pos(bytes, pos) < step_right_pos(bytes, step_left_pos(bytes, pos)) <= bytes.len(),
        forall|k: int|
            step_left_pos(bytes, pos) < k < step_right_pos(bytes, step_left_pos(bytes, pos))
                ==> !is_char_boundary(bytes, k),
        pos > 0 ==> step_right_pos(bytes, step_left_pos(bytes, pos)) == normalize_pos(bytes, pos),
{
    let left = step_left_pos(bytes, pos);
    lemma_step_left(bytes, pos);
    lemma_step_right(bytes, left);
    lemma_normalize_idempotent(bytes, pos);
}

/// Without a line feed before it, an offset is on the first line.
pub proof fn lemma_line_start_without_line_feed(bytes: Seq<u8>, pos: int)
    requires
        pos <= bytes.len(),
        forall|i: int| 0 <= i < bytes.len() ==> bytes[i] != LINE_FEED,
    ensures
        line_start(bytes, pos) == 0,
    decreases pos,
{
    if pos > 0 {
        lemma_line_start_without_line_feed(bytes, pos - 1);
    }
}

/// Without a line feed after it, an offset is on the last line.
pub proof fn lemma_line_end_without_line_feed(bytes: Seq<u8>, pos: int)
    requires
        0 <= pos,
        forall|i: int| 0 <= i < bytes.len() ==> bytes[i] != LINE_FEED,
    ensures
        line_end(bytes, pos) == bytes.len(),
    decreases bytes.len() - pos,
{
    if pos < bytes.len() {
        lemma_line_end_without_line_feed(bytes, pos + 1);
    }
}

/// The line holding `pos` starts at or before `pos`, just after a line feed
/// or at 0, and holds no line feed between its start and `pos`.
pub proof fn lemma_line_start(bytes: Seq<u8>, pos: int)
    requires
        0 <= pos <= bytes.len(),
    ensures
        0 <= line_start(bytes, pos) <= pos,
        line_start(bytes, pos) > 0 ==> bytes[line_start(bytes, pos) - 1] == LINE_FEED,
        forall|k: int| line_start(bytes, pos) <= k < pos ==> bytes[k] != LINE_FEED,
    decreases pos,
{
    if pos > 0 && bytes[pos - 1] != LINE_FEED {
        lemma_line_start(bytes, pos - 1);
    }
}

/// The line holding `pos` ends at or after `pos`, on a line feed or at the
/// end of the buffer, and holds no line feed between `pos` and its end.
pub proof fn lemma_line_end(bytes: Seq<u8>, pos: int)
    requires
        0 <= pos <= bytes.len(),
    ensures
        pos <= line_end(bytes, pos) <= bytes.len(),
        line_end(bytes, pos) < bytes.len() ==> bytes[line_end(bytes, pos)] == LINE_FEED,
        forall|k: int| pos <= k < line_end(bytes, pos) ==> bytes[k] != LINE_FEED,
    decreases bytes.len() - pos,
{
    if pos < bytes.len() && bytes[pos] != LINE_FEED {
        lemma_line_end(bytes, pos + 1);
    }
}

/// The target of a vertical step lies inside the buffer.
pub proof fn lemma_vertical_target_in_buffer(bytes: Seq<u8>, pos: int, direction: Direction)
    requires
        0 <= pos <= bytes.len(),
    ensures
        0 <= vertical_target(bytes, pos, direction) <= bytes.len(),
{
    lemma_line_start(bytes, pos);
    lemma_line_end(bytes, pos);
    let start = line_start(bytes, pos);
    if start > 0 {
        lemma_line_start(bytes, start - 1);
    }
    let end = line_end(bytes, pos);
    if end < bytes.len() {
        lemma_line_end(bytes, end + 1);
    }
}

/// A vertical step always ends on a character boundary inside the buffer.
pub proof fn lemma_vertical_pos_is_boundary(bytes: Seq<u8>, pos: int, direction: Direction)
    requires
        valid_utf8(bytes),
        0 <= pos,
    ensures
        is_char_boundary(bytes, vertical_pos(bytes, pos, direction)),
        0 <= vertical_pos(bytes, pos, direction) <= bytes.len(),
{
    lemma_normalize_idempotent(bytes, pos);
    let from = normalize_pos(bytes, pos);
    lemma_vertical_target_in_buffer(bytes, from, direction);
    lemma_normalize_idempotent(bytes, vertical_target(bytes, from, direction));
}

/// A line feed is a character of its own: where one stands there is a
/// character boundary.
pub proof fn lemma_line_feed_on_boundary(bytes: Seq<u8>, at: int)
    requires
        valid_utf8(bytes),
        0 <= at < bytes.len(),
        bytes[at] == LINE_FEED,
    ensures
        is_char_boundary(bytes, at),
{
    is_char_boundary_iff_not_is_continuation_byte(bytes, at);
}

/// A vertical step from a cursor on a character boundary ends in the line
/// next to the cursor's own: going down, between the start and the end of
/// the line below; going up, between the start and the end of the line
/// above. On the last line a step down, and on the first line a step up,
/// leaves the cursor where it is.
pub proof fn lemma_vertical_step_reaches_neighbour(bytes: Seq<u8>, pos: int, direction: Direction)
    requires
        valid_utf8(bytes),
        is_char_boundary(bytes, pos),
    ensures
        direction == Direction::Down && line_end(bytes, pos) < bytes.len() ==> line_end(bytes, pos)
            + 1 <= vertical_pos(bytes, pos, direction) <= line_end(
            bytes,
            line_end(bytes, pos) + 1,
        ),
        direction == Direction::Down && line_end(bytes, pos) >= bytes.len() ==> vertical_pos(
            bytes,
            pos,
            direction,
        ) == pos,
        direction == Direction::Up && line_start(bytes, pos) > 0 ==> line_start(
            bytes,
            line_start(bytes, pos) - 1,
        ) <= vertical_pos(bytes, pos, direction) <= line_start(bytes, pos) - 1,
        direction == Direction::Up && line_start(bytes, pos) == 0 ==> vertical_pos(
            bytes,
            pos,
            direction,
        ) == pos,
{
    lemma_normalize_fixes_boundaries(bytes, pos);
    lemma_line_start(bytes, pos);
    lemma_line_end(bytes, pos);
    is_char_boundary_start_end_of_seq(bytes);
    let target = vertical_target(bytes, pos, direction);
    lemma_vertical_target_in_buffer(bytes, pos, direction);
    lemma_boundary_at_or_after(bytes, target);
    let start = line_start(bytes, pos);
    let end = line_end(bytes, pos);
    if direction == Direction::Down && end < bytes.len() {
        lemma_line_end(bytes, end + 1);
        let below_end = line_end(bytes, end + 1);
        if below_end < bytes.len() {
            lemma_line_feed_on_boundary(bytes, below_end);
        }
    }
    if direction == Direction::Up && start > 0 {
        lemma_line_start(bytes, start - 1);
        lemma_line_feed_on_boundary(bytes, start - 1);
    }
}

/// In a buffer of a single line, a vertical step in either direction leaves
/// the cursor where normalizing puts it; a cursor on a character boundary
/// does not move at all.
pub proof fn lemma_vertical_step_single_line(bytes: Seq<u8>, pos: int, direction: Direction)
    requires
        valid_utf8(bytes),
        0 <= pos,
        forall|i: int| 0 <= i < bytes.len() ==> bytes[i] != LINE_FEED,
    ensures
        vertical_pos(bytes, pos, direction) == normalize_pos(bytes, pos),
        is_char_boundary(bytes, pos) ==> vertical_pos(bytes, pos, direction) == pos,
{
    lemma_normalize_idempotent(bytes, pos);
    let from = normalize_pos(bytes, pos);
    lemma_line_start_without_line_feed(bytes, from);
    lemma_line_end_without_line_feed(bytes, from);
    if is_char_boundary(bytes, pos) {
        lemma_normalize_fixes_boundaries(bytes, pos);
    }
}

/// Brings a cursor back onto the text: an offset beyond the end becomes the
/// length, an offset inside a character moves forward to the next boundary.
pub fn normalize(value: &str, pos: usize) -> (r: usize)
    ensures
        r == normalize_pos(encode_utf8(value@), pos as int),
        is_char_boundary(encode_utf8(value@), r as int),
        r <= encode_utf8(value@).len(),
        pos <= encode_utf8(value@).len() ==> pos <= r,
{
    let ghost bytes = encode_utf8(value@);
    proof {
        encode_utf8_valid_utf8(value@);
        lemma_normalize_idempotent(bytes, pos as int);
    }
    let n = value.as_bytes().len();
    let mut p: usize = if pos > n {
        n
    } else {
        pos
    };
    while p < n && !value.is_char_boundary(p)
        invariant
            bytes == encode_utf8(value@),
            n == bytes.len(),
            p <= n,
            boundary_at_or_after(bytes, p as int) == normalize_pos(bytes, pos as int),
        decreases n - p,
    {
        p = p + 1;
    }
    p
}

/// Moves a cursor one character to the left: to the start of the last
/// character that begins before it. A cursor at the start, or in an empty
/// buffer, stays at 0.
pub fn step_left(value: &str, pos: usize) -> (r: usize)
    ensures
        r == step_left_pos(encode_utf8(value@), pos as int),
        is_char_boundary(encode_utf8(value@), r as int),
        r <= pos,
        r <= encode_utf8(value@).len(),
        pos > 0 && encode_utf8(value@).len() > 0 ==> r < pos && r < encode_utf8(value@).len(),
{
    let ghost bytes = encode_utf8(value@);
    proof {
        encode_utf8_valid_utf8(value@);
        lemma_step_left(bytes, pos as int);
    }
    let n = value.as_bytes().len();
    if pos == 0 || n == 0 {
        return 0;
    }
    let mut p: usize = if pos > n {
        n - 1
    } else {
        pos - 1
    };
    while p > 0 && !value.is_char_boundary(p)
        invariant
            bytes == encode_utf8(value@),
            n == bytes.len(),
            p < n,
            boundary_at_or_before(bytes, p as int) == step_left_pos(bytes, pos as int),
        decreases p,
    {
        p = p - 1;
    }
    p
}

/// Moves a cursor one character to the right: to the first boundary after
/// it. A cursor at or beyond the end lands on the length of the buffer.
pub fn step_right(value: &str, pos: usize) -> (r: usize)
    ensures
        r == step_right_pos(encode_utf8(value@), pos as int),
        is_char_boundary(encode_utf8(value@), r as int),
        r <= encode_utf8(value@).len(),
        pos < encode_utf8(value@).len() ==> pos < r,
{
    let ghost bytes = encode_utf8(value@);
    proof {
        encode_utf8_valid_utf8(value@);
        lemma_step_right(bytes, pos as int);
    }
    let n = value.as_bytes().len();
    if pos >= n {
        return n;
    }
    let mut p: usize = pos + 1;
    while p < n && !value.is_char_boundary(p)
        invariant
            bytes == encode_utf8(value@),
            n == bytes.len(),
            p <= n,
            boundary_at_or_after(bytes, p as int) == step_right_pos(bytes, pos as int),
        decreases n - p,
    {
        p = p + 1;
    }
    p
}

/// Finds the start of the line that holds `pos`.
fn find_line_start(bytes: &[u8], pos: usize) -> (r: usize)
    requires
        pos <= bytes@.len(),
    ensures
        r == line_start(bytes@, pos as int),
        r <= pos,
{
    proof {
        lemma_line_start(bytes@, pos as int);
    }
    let mut p: usize = pos;
    while p > 0 && bytes[p - 1] != LINE_FEED
        invariant
            p <= pos <= bytes@.len(),
            line_start(bytes@, p as int) == line_start(bytes@, pos as int),
        decreases p,
    {
        p = p - 1;
    }
    p
}

/// Finds the end of the line that holds `pos`.
fn find_line_end(bytes: &[u8], pos: usize) -> (r: usize)
    requires
        pos <= bytes@.len(),
    ensures
        r == line_end(bytes@, pos as int),
        pos <= r <= bytes@.len(),
{
    proof {
        lemma_line_end(bytes@, pos as int);
    }
    let n = bytes.len();
    let mut p: usize = pos;
    while p < n && bytes[p] != LINE_FEED
        invariant
            n == bytes@.len(),
            pos <= p <= n,
            line_end(bytes@, p as int) == line_end(bytes@, pos as int),
        decreases n - p,
    {
        p = p + 1;
    }
    p
}

/// Moves a cursor to the line above or below, keeping its byte column where
/// the other line is long enough and going to the end of that line where it
/// is not. On the first line a step up, and on the last line a step down,
/// only normalizes the cursor.
pub fn vertical_step(value: &str, pos: usize, direction: Direction) -> (r: usize)
    ensures
        r == vertical_pos(encode_utf8(value@), pos as int, direction),
        is_char_boundary(encode_utf8(value@), r as int),
        r <= encode_utf8(value@).len(),
{
    let ghost text = encode_utf8(value@);
    let from = normalize(value, pos);
    let bytes = value.as_bytes();
    proof {
        encode_utf8_valid_utf8(value@);
        lemma_vertical_pos_is_boundary(text, pos as int, direction);
        lemma_vertical_target_in_buffer(text, from as int, direction);
        lemma_normalize_fixes_boundaries(text, from as int);
    }
    let start = find_line_start(bytes, from);
    let column = from - start;
    match direction {
        Direction::Up => {
            if start == 0 {
                from
            } else {
                let above_end = start - 1;
                let above_start = find_line_start(bytes, above_end);
                let above_len = above_end - above_start;
                let target = above_start + if column < above_len {
                    column
                } else {
                    above_len
                };
                normalize(value, target)
            }
        },
        Direction::Down => {
            let end = find_line_end(bytes, from);
            if end >= bytes.len() {
                from
            } else {
                let below_start = end + 1;
                let below_end = find_line_end(bytes, below_start);
                let below_len = below_end - below_start;
                let target = below_start + if column < below_len {
                    column
                } else {
                    below_len
                };
                normalize(value, target)
            }
        },
    }
}

} // verus!
