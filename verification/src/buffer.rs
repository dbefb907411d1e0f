//! The document text and its caret.
//!
//! Text is one sequence of characters with `'\n'` separating lines. A
//! position `(row, col)` names the gap before the `col`-th character of line
//! `row`; an offset names the same gap counted from the start of the
//! document. The two are converted by walking the text, and every offset in
//! `0..=len` has exactly one position.

use vstd::prelude::*;
pub use crate::position::Position;
use crate::position::{pos_le, pos_lt};
use crate::text::{chars_of, string_of, slice_vec};

verus! {

/// The position of offset `off`: how many newlines precede it, and how many
/// characters since the last one.
pub open spec fn pos_at(t: Seq<char>, off: int) -> Position
    decreases off,
{
    if off <= 0 {
        Position { row: 0, col: 0 }
    } else {
        let p = pos_at(t, off - 1);
        if t[off - 1] == '\n' {
            Position { row: (p.row + 1) as usize, col: 0 }
        } else {
            Position { row: p.row, col: (p.col + 1) as usize }
        }
    }
}

/// The last offset in `0..=n` whose position does not come after `p`.
pub open spec fn last_le(t: Seq<char>, p: Position, n: int) -> int
    decreases n,
{
    if n <= 0 {
        0
    } else if pos_le(pos_at(t, n), p) {
        n
    } else {
        last_le(t, p, n - 1)
    }
}

/// The offset of `p`. A column past the end of its line lands on the line's
/// end; a row past the last line lands on the end of the document.
pub open spec fn off_of(t: Seq<char>, p: Position) -> int {
    last_le(t, p, t.len() as int)
}

/// Number of lines: one more than the number of newlines.
pub open spec fn line_count_of(t: Seq<char>) -> int {
    pos_at(t, t.len() as int).row + 1
}

pub open spec fn line_start(t: Seq<char>, row: int) -> int {
    off_of(t, Position { row: row as usize, col: 0 })
}

pub open spec fn line_end(t: Seq<char>, row: int) -> int {
    off_of(t, Position { row: row as usize, col: usize::MAX })
}

/// The characters of line `row`, without its newline.
pub open spec fn line_of(t: Seq<char>, row: int) -> Seq<char> {
    t.subrange(line_start(t, row), line_end(t, row))
}

pub proof fn lemma_pos_bound(t: Seq<char>, off: int)
    requires
        0 <= off,
    ensures
        pos_at(t, off).row + pos_at(t, off).col <= off,
    decreases off,
{
    if off > 0 {
        lemma_pos_bound(t, off - 1);
    }
}

/// Positions strictly increase with the offset.
pub proof fn lemma_pos_increasing(t: Seq<char>, a: int, b: int)
    requires
        0 <= a < b,
        b <= usize::MAX,
    ensures
        pos_lt(pos_at(t, a), pos_at(t, b)),
    decreases b - a,
{
    lemma_pos_bound(t, b - 1);
    if a + 1 < b {
        lemma_pos_increasing(t, a, b - 1);
    }
}

pub proof fn lemma_last_le_range(t: Seq<char>, p: Position, n: int)
    requires
        0 <= n,
    ensures
        0 <= last_le(t, p, n) <= n,
        pos_le(pos_at(t, last_le(t, p, n)), p),
    decreases n,
{
    if n > 0 && !pos_le(pos_at(t, n), p) {
        lemma_last_le_range(t, p, n - 1);
    }
}

/// An offset's own position leads back to it.
pub proof fn lemma_last_le_of_pos(t: Seq<char>, off: int, n: int)
    requires
        0 <= off <= n <= usize::MAX,
    ensures
        last_le(t, pos_at(t, off), n) == off,
    decreases n,
{
    if n > off {
        lemma_pos_increasing(t, off, n);
        lemma_last_le_of_pos(t, off, n - 1);
    }
}

/// Offsets come in the same order as the positions they are asked for.
pub proof fn lemma_last_le_monotone(t: Seq<char>, p: Position, q: Position, n: int)
    requires
        0 <= n,
        pos_le(p, q),
    ensures
        last_le(t, p, n) <= last_le(t, q, n),
    decreases n,
{
    if n > 0 {
        lemma_last_le_monotone(t, p, q, n - 1);
        lemma_last_le_range(t, q, n - 1);
    }
}

/// Every offset maps to a position and back to itself.
pub proof fn law_offset_position_roundtrip(t: Seq<char>, off: int)
    requires
        0 <= off <= t.len(),
        t.len() <= usize::MAX,
    ensures
        off_of(t, pos_at(t, off)) == off,
{
    lemma_last_le_of_pos(t, off, t.len() as int);
}

pub proof fn lemma_line_bounds(t: Seq<char>, row: int)
    ensures
        0 <= line_start(t, row) <= line_end(t, row) <= t.len(),
{
    let a = Position { row: row as usize, col: 0 };
    let b = Position { row: row as usize, col: usize::MAX };
    lemma_last_le_monotone(t, a, b, t.len() as int);
    lemma_last_le_range(t, b, t.len() as int);
    lemma_last_le_range(t, a, t.len() as int);
}

/// A character a line can be indented with.
pub open spec fn indent_char(c: char) -> bool {
    c == ' ' || c == '\t'
}

/// The end of the run of indentation characters in `l` starting at `i`.
pub open spec fn indent_from(l: Seq<char>, i: int) -> int
    decreases l.len() - i,
{
    if 0 <= i < l.len() && indent_char(l[i]) {
        indent_from(l, i + 1)
    } else {
        i
    }
}

/// Where `l` ends once trailing indentation characters before `i` are set
/// aside.
pub open spec fn trail_from(l: Seq<char>, i: int) -> int
    decreases i,
{
    if 0 < i <= l.len() && indent_char(l[i - 1]) {
        trail_from(l, i - 1)
    } else {
        i
    }
}

/// A character that opens a block when a line ends with it.
pub open spec fn block_opener(c: char) -> bool {
    c == '{' || c == '(' || c == '[' || c == ':'
}

/// `before` ends, past trailing blanks, with a block opener.
pub open spec fn opens_block(before: Seq<char>) -> bool {
    let k = trail_from(before, before.len() as int);
    k > 0 && block_opener(before[k - 1])
}

/// What Return inserts with the caret at offset `at` of `t`: a newline, and,
/// when indenting and the caret is past the line's indentation, that
/// indentation again, plus one `unit` after a block opener.
/// What Return inserts at offset `at` of `t`, as far as memory allows: the
/// full text, else a bare newline, else nothing.
pub open spec fn newline_insert(t: Seq<char>, at: int, unit: Seq<char>, auto_indent: bool) -> Seq<char> {
    let full = newline_text(t, at, unit, auto_indent);
    if t.len() + full.len() < usize::MAX {
        full
    } else if t.len() + 1 < usize::MAX {
        seq!['\n']
    } else {
        Seq::empty()
    }
}

pub open spec fn newline_text(t: Seq<char>, at: int, unit: Seq<char>, auto_indent: bool) -> Seq<char> {
    let row = pos_at(t, at).row as int;
    let ls = line_start(t, row);
    let line = line_of(t, row);
    let before = t.subrange(ls, at);
    let ind = indent_from(line, 0);
    if !auto_indent || before.len() <= ind {
        seq!['\n']
    } else {
        seq!['\n'] + line.subrange(0, ind) + (if opens_block(before) { unit } else { Seq::empty() })
    }
}

proof fn lemma_indent_from(l: Seq<char>, i: int)
    requires
        0 <= i <= l.len(),
    ensures
        i <= indent_from(l, i) <= l.len(),
    decreases l.len() - i,
{
    if i < l.len() && indent_char(l[i]) {
        lemma_indent_from(l, i + 1);
    }
}

proof fn lemma_trail_from(l: Seq<char>, i: int)
    requires
        0 <= i <= l.len(),
    ensures
        0 <= trail_from(l, i) <= i,
    decreases i,
{
    if 0 < i && indent_char(l[i - 1]) {
        lemma_trail_from(l, i - 1);
    }
}

/// The caret's own line starts no later than the caret and ends no earlier.
pub proof fn lemma_line_around(t: Seq<char>, at: int)
    requires
        0 <= at <= t.len(),
        t.len() <= usize::MAX,
    ensures
        line_start(t, pos_at(t, at).row as int) <= at <= line_end(t, pos_at(t, at).row as int),
        0 <= line_start(t, pos_at(t, at).row as int),
        line_end(t, pos_at(t, at).row as int) <= t.len(),
{
    let p = pos_at(t, at);
    lemma_pos_bound(t, at);
    let a = Position { row: p.row, col: 0 };
    let b = Position { row: p.row, col: usize::MAX };
    lemma_last_le_monotone(t, a, p, t.len() as int);
    lemma_last_le_monotone(t, p, b, t.len() as int);
    lemma_last_le_of_pos(t, at, t.len() as int);
    lemma_line_bounds(t, p.row as int);
}

/// Rows never go down as the offset grows.
pub proof fn lemma_rows_monotone(t: Seq<char>, a: int, b: int)
    requires
        0 <= a <= b <= usize::MAX,
    ensures
        pos_at(t, a).row <= pos_at(t, b).row,
    decreases b - a,
{
    if a < b {
        lemma_pos_bound(t, b - 1);
        lemma_rows_monotone(t, a, b - 1);
    }
}

/// An offset whose position is at most `p`, and whose next one (if any)
/// is past it, is the one `last_le` finds.
proof fn lemma_last_le_at(t: Seq<char>, p: Position, n: int, k: int)
    requires
        0 <= k <= n <= usize::MAX,
        pos_le(pos_at(t, k), p),
        k == n || !pos_le(pos_at(t, k + 1), p),
    ensures
        last_le(t, p, n) == k,
    decreases n,
{
    if n > k {
        if n > k + 1 {
            lemma_pos_increasing(t, k + 1, n);
        }
        lemma_last_le_at(t, p, n - 1, k);
    }
}

/// Every row up to that of offset `n` starts at some offset up to `n`.
proof fn lemma_row_starts(t: Seq<char>, q: int, n: int)
    requires
        0 <= n <= usize::MAX,
        0 <= q <= pos_at(t, n).row,
    ensures
        exists|k: int| 0 <= k <= n && pos_at(t, k) == (Position { row: q as usize, col: 0 }),
    decreases n,
{
    if n > 0 {
        lemma_pos_bound(t, n - 1);
        if q <= pos_at(t, n - 1).row {
            lemma_row_starts(t, q, n - 1);
            let k = choose|k: int| 0 <= k <= n - 1 && pos_at(t, k) == Position { row: q as usize, col: 0 };
            assert(0 <= k <= n && pos_at(t, k) == Position { row: q as usize, col: 0 });
        } else {
            assert(pos_at(t, n) == Position { row: q as usize, col: 0 });
        }
    } else {
        assert(pos_at(t, 0) == Position { row: q as usize, col: 0 });
    }
}

/// Offsets on one row run along it one column at a time, and no newline
/// lies between them.
pub proof fn lemma_same_row(t: Seq<char>, a: int, b: int)
    requires
        0 <= a <= b <= usize::MAX,
        pos_at(t, a).row == pos_at(t, b).row,
    ensures
        pos_at(t, b).col == pos_at(t, a).col + (b - a),
        forall|k: int| a <= k < b ==> t[k] != '\n',
    decreases b - a,
{
    if a < b {
        lemma_pos_bound(t, b - 1);
        lemma_rows_monotone(t, a, b - 1);
        lemma_same_row(t, a, b - 1);
    }
}

/// How line `q` lies in the text: it starts at column 0 of its row, the
/// next line starts just past the newline that ends it, and the last line
/// ends at the end of the text.
pub proof fn lemma_line_layout(t: Seq<char>, q: int)
    requires
        t.len() <= usize::MAX,
        0 <= q < line_count_of(t),
    ensures
        pos_at(t, line_start(t, q)) == (Position { row: q as usize, col: 0 }),
        0 <= line_start(t, q) <= line_end(t, q) <= t.len(),
        pos_at(t, line_end(t, q)).row == q,
        line_of(t, q).len() == line_end(t, q) - line_start(t, q),
        q == 0 ==> line_start(t, q) == 0,
        q + 1 < line_count_of(t) ==> {
            &&& line_end(t, q) < t.len()
            &&& t[line_end(t, q)] == '\n'
            &&& line_start(t, q + 1) == line_end(t, q) + 1
        },
        q + 1 == line_count_of(t) ==> line_end(t, q) == t.len(),
{
    let n = t.len() as int;
    lemma_row_starts(t, q, n);
    let k = choose|k: int| 0 <= k <= n && pos_at(t, k) == Position { row: q as usize, col: 0 };
    lemma_last_le_of_pos(t, k, n);
    lemma_line_bounds(t, q);
    if q == 0 {
        if k > 0 {
            lemma_pos_increasing(t, 0, k);
        }
    }
    if q + 1 < line_count_of(t) {
        lemma_row_starts(t, q + 1, n);
        let k1 = choose|k1: int| 0 <= k1 <= n && pos_at(t, k1) == Position { row: (q + 1) as usize, col: 0 };
        assert(k1 > 0);
        lemma_pos_bound(t, k1 - 1);
        assert(t[k1 - 1] == '\n');
        lemma_last_le_at(t, Position { row: q as usize, col: usize::MAX }, n, k1 - 1);
        lemma_last_le_of_pos(t, k1, n);
    } else {
        lemma_pos_bound(t, n);
        lemma_last_le_at(t, Position { row: q as usize, col: usize::MAX }, n, n);
    }
    let e = line_end(t, q);
    if k > e {
        lemma_pos_increasing(t, e, k);
    }
}

/// Column `j` of line `q`, up to its length, sits `j` past the line's
/// start.
pub proof fn lemma_in_line(t: Seq<char>, q: int, j: int)
    requires
        t.len() <= usize::MAX,
        0 <= q < line_count_of(t),
        0 <= j <= line_of(t, q).len(),
    ensures
        pos_at(t, line_start(t, q) + j) == (Position { row: q as usize, col: j as usize }),
        off_of(t, Position { row: q as usize, col: j as usize }) == line_start(t, q) + j,
{
    lemma_line_layout(t, q);
    let a = line_start(t, q);
    let e = line_end(t, q);
    lemma_rows_monotone(t, a, a + j);
    lemma_rows_monotone(t, a + j, e);
    lemma_same_row(t, a, a + j);
    lemma_last_le_of_pos(t, a + j, t.len() as int);
}

/// Texts that agree on their first `k` characters agree on the position of
/// offset `k`.
pub proof fn lemma_pos_prefix(t: Seq<char>, u: Seq<char>, k: int)
    requires
        0 <= k <= t.len(),
        k <= u.len(),
        forall|i: int| 0 <= i < k ==> t[i] == u[i],
    ensures
        pos_at(t, k) == pos_at(u, k),
    decreases k,
{
    if k > 0 {
        lemma_pos_prefix(t, u, k - 1);
    }
}

/// A position moved along row `r` by `m` columns; other rows stay.
pub open spec fn shifted(p: Position, r: int, m: int) -> Position {
    if p.row == r { Position { row: p.row, col: (p.col + m) as usize } } else { p }
}

/// Positions in a text with `s` inserted at offset `o`, where `s` has no
/// newline: up to `o` as before, then along the row of `o`, then moved by
/// the length of `s` on that row.
proof fn lemma_pos_insert(t: Seq<char>, o: int, s: Seq<char>, k: int)
    requires
        t.len() + s.len() <= usize::MAX,
        0 <= o <= k <= t.len(),
        forall|i: int| 0 <= i < s.len() ==> s[i] != '\n',
    ensures
        ({
            let u = t.subrange(0, o) + s + t.subrange(o, t.len() as int);
            let p = pos_at(t, o);
            &&& forall|j: int| 0 <= j <= s.len() ==> #[trigger] pos_at(u, o + j) == (Position { row: p.row, col: (p.col + j) as usize })
            &&& pos_at(u, k + s.len()) == shifted(pos_at(t, k), p.row as int, s.len() as int)
        }),
    decreases k - o,
{
    let u = t.subrange(0, o) + s + t.subrange(o, t.len() as int);
    let p = pos_at(t, o);
    let m = s.len() as int;
    assert forall|j: int| 0 <= j <= m implies #[trigger] pos_at(u, o + j) == (Position { row: p.row, col: (p.col + j) as usize }) by {
        lemma_pos_insert_run(t, o, s, j);
    }
    if k > o {
        lemma_pos_insert(t, o, s, k - 1);
        lemma_rows_monotone(t, o, k - 1);
        lemma_pos_bound(t, k - 1);
        lemma_pos_bound(u, k + m - 1);
        assert(u[k + m - 1] == t[k - 1]);
    }
}

proof fn lemma_pos_insert_run(t: Seq<char>, o: int, s: Seq<char>, j: int)
    requires
        t.len() + s.len() <= usize::MAX,
        0 <= o <= t.len(),
        0 <= j <= s.len(),
        forall|i: int| 0 <= i < s.len() ==> s[i] != '\n',
    ensures
        ({
            let u = t.subrange(0, o) + s + t.subrange(o, t.len() as int);
            let p = pos_at(t, o);
            pos_at(u, o + j) == (Position { row: p.row, col: (p.col + j) as usize })
        }),
    decreases j,
{
    let u = t.subrange(0, o) + s + t.subrange(o, t.len() as int);
    lemma_pos_bound(t, o);
    if j > 0 {
        lemma_pos_insert_run(t, o, s, j - 1);
        lemma_pos_bound(u, o + j - 1);
        assert(u[o + j - 1] == s[j - 1]);
    } else {
        lemma_pos_prefix(t, u, o);
    }
}

/// Inserting text without a newline inside a line changes that line alone:
/// the text is put in at the column of the offset, and the line count and
/// every other line stay.
pub proof fn lemma_insert_in_line(t: Seq<char>, o: int, s: Seq<char>)
    requires
        t.len() + s.len() <= usize::MAX,
        0 <= o <= t.len(),
        forall|i: int| 0 <= i < s.len() ==> s[i] != '\n',
    ensures
        ({
            let u = t.subrange(0, o) + s + t.subrange(o, t.len() as int);
            let p = pos_at(t, o);
            let l = line_of(t, p.row as int);
            &&& line_count_of(u) == line_count_of(t)
            &&& p.row < line_count_of(t)
            &&& p.col <= l.len()
            &&& o == line_start(t, p.row as int) + p.col
            &&& line_of(u, p.row as int) == l.subrange(0, p.col as int) + s + l.subrange(p.col as int, l.len() as int)
            &&& forall|q: int| 0 <= q < line_count_of(t) && q != p.row ==> #[trigger] line_of(u, q) == line_of(t, q)
        }),
{
    let u = t.subrange(0, o) + s + t.subrange(o, t.len() as int);
    let p = pos_at(t, o);
    let r = p.row as int;
    let m = s.len() as int;
    let n = t.len() as int;
    lemma_pos_insert(t, o, s, n);
    lemma_pos_bound(t, n);
    lemma_rows_monotone(t, o, n);
    assert(line_count_of(u) == line_count_of(t)) by {
        assert(u.len() == n + m);
    }
    // Where line q starts in u.
    assert forall|q: int| 0 <= q < line_count_of(t) implies #[trigger] line_start(u, q) == (if q <= r { line_start(t, q) } else { line_start(t, q) + m }) && (q <= r ==> line_start(t, q) <= o) && (q > r ==> line_start(t, q) > o) by {
        lemma_line_layout(t, q);
        let k = line_start(t, q);
        if q <= r {
            if k > o {
                lemma_pos_increasing(t, o, k);
            }
            lemma_pos_prefix(t, u, k);
            lemma_last_le_of_pos(u, k, n + m);
        } else {
            if k <= o {
                if k < o {
                    lemma_pos_increasing(t, k, o);
                }
            }
            lemma_pos_insert(t, o, s, k);
            lemma_last_le_of_pos(u, k + m, n + m);
        }
    }
    lemma_line_layout(t, r);
    let ls = line_start(t, r);
    let le = line_end(t, r);
    // o lies inside its own line.
    if r + 1 < line_count_of(t) {
        lemma_line_layout(t, r + 1);
        assert(line_start(u, r + 1) == line_start(t, r + 1) + m);
    }
    assert(o <= le);
    assert(line_start(u, r) == ls);
    lemma_same_row(t, ls, o);
    assert forall|q: int| 0 <= q < line_count_of(t) implies #[trigger] line_end(u, q) == (if q < r { line_end(t, q) } else { line_end(t, q) + m }) by {
        lemma_line_layout(t, q);
        lemma_line_layout(u, q);
        if q + 1 < line_count_of(t) {
            lemma_line_layout(t, q + 1);
            lemma_line_layout(u, q + 1);
            assert(line_start(u, q + 1) == (if q + 1 <= r { line_start(t, q + 1) } else { line_start(t, q + 1) + m }));
        }
    }
    assert forall|q: int| 0 <= q < line_count_of(t) && q != r implies #[trigger] line_of(u, q) == line_of(t, q) by {
        lemma_line_layout(t, q);
        assert(line_start(u, q) == (if q <= r { line_start(t, q) } else { line_start(t, q) + m }));
        assert(line_end(u, q) == (if q < r { line_end(t, q) } else { line_end(t, q) + m }));
        if q < r {
            lemma_line_layout(t, q + 1);
            assert(line_start(u, q + 1) == line_start(t, q + 1));
            assert(line_start(t, q + 1) <= o);
            assert(line_of(u, q) =~= line_of(t, q));
        } else {
            assert(line_of(u, q) =~= line_of(t, q));
        }
    }
    assert(line_start(u, r) == ls);
    assert(line_end(u, r) == le + m);
    let l = line_of(t, r);
    assert(line_of(u, r) =~= l.subrange(0, p.col as int) + s + l.subrange(p.col as int, l.len() as int));
}

/// Taking columns `c1..c2` out of line `q` changes that line alone.
pub proof fn lemma_delete_in_line(t: Seq<char>, q: int, c1: int, c2: int)
    requires
        t.len() <= usize::MAX,
        0 <= q < line_count_of(t),
        0 <= c1 <= c2 <= line_of(t, q).len(),
    ensures
        ({
            let a = line_start(t, q) + c1;
            let b = line_start(t, q) + c2;
            let u = t.subrange(0, a) + t.subrange(b, t.len() as int);
            let l = line_of(t, q);
            &&& a == off_of(t, Position { row: q as usize, col: c1 as usize })
            &&& b == off_of(t, Position { row: q as usize, col: c2 as usize })
            &&& line_count_of(u) == line_count_of(t)
            &&& line_of(u, q) == l.subrange(0, c1) + l.subrange(c2, l.len() as int)
            &&& forall|r: int| 0 <= r < line_count_of(t) && r != q ==> #[trigger] line_of(u, r) == line_of(t, r)
        }),
{
    lemma_line_layout(t, q);
    lemma_in_line(t, q, c1);
    lemma_in_line(t, q, c2);
    let ls = line_start(t, q);
    let le = line_end(t, q);
    let a = ls + c1;
    let b = ls + c2;
    let u = t.subrange(0, a) + t.subrange(b, t.len() as int);
    let piece = t.subrange(a, b);
    lemma_rows_monotone(t, ls, le);
    lemma_same_row(t, ls, le);
    assert forall|i: int| 0 <= i < piece.len() implies piece[i] != '\n' by {
        assert(piece[i] == t[a + i]);
    }
    assert(t =~= u.subrange(0, a) + piece + u.subrange(a, u.len() as int));
    lemma_pos_prefix(t, u, a);
    lemma_insert_in_line(u, a, piece);
    let lu = line_of(u, q);
    let l = line_of(t, q);
    assert(l =~= lu.subrange(0, c1) + piece + lu.subrange(c1, lu.len() as int));
    assert(lu =~= l.subrange(0, c1) + l.subrange(c2, l.len() as int));
}

/// Texts with the same lines are the same text.
pub proof fn lemma_same_lines(a: Seq<char>, b: Seq<char>)
    requires
        a.len() <= usize::MAX,
        b.len() <= usize::MAX,
        line_count_of(a) == line_count_of(b),
        forall|q: int| 0 <= q < line_count_of(a) ==> #[trigger] line_of(a, q) == line_of(b, q),
    ensures
        a == b,
{
    let n = line_count_of(a);
    assert forall|q: int| 0 <= q < n implies #[trigger] line_start(a, q) == line_start(b, q) by {
        lemma_same_starts(a, b, q);
    }
    lemma_line_layout(a, n - 1);
    lemma_line_layout(b, n - 1);
    assert(line_of(a, n - 1).len() == line_of(b, n - 1).len());
    assert(a.len() == b.len());
    assert forall|k: int| 0 <= k < a.len() implies a[k] == b[k] by {
        let q = pos_at(a, k).row as int;
        lemma_rows_monotone(a, k, a.len() as int);
        lemma_line_layout(a, q);
        lemma_line_layout(b, q);
        let ls = line_start(a, q);
        if ls > k {
            lemma_pos_increasing(a, k, ls);
        }
        if q + 1 < n {
            lemma_line_layout(a, q + 1);
            if line_start(a, q + 1) <= k {
                lemma_rows_monotone(a, line_start(a, q + 1), k);
            }
        }
        if k < line_end(a, q) {
            assert(a[k] == line_of(a, q)[k - ls]);
            assert(b[k] == line_of(b, q)[k - ls]);
        }
    }
    assert(a =~= b);
}

proof fn lemma_same_starts(a: Seq<char>, b: Seq<char>, q: int)
    requires
        a.len() <= usize::MAX,
        b.len() <= usize::MAX,
        line_count_of(a) == line_count_of(b),
        forall|r: int| 0 <= r < line_count_of(a) ==> #[trigger] line_of(a, r) == line_of(b, r),
        0 <= q < line_count_of(a),
    ensures
        line_start(a, q) == line_start(b, q),
    decreases q,
{
    lemma_line_layout(a, q);
    lemma_line_layout(b, q);
    if q > 0 {
        lemma_same_starts(a, b, q - 1);
        lemma_line_layout(a, q - 1);
        lemma_line_layout(b, q - 1);
        assert(line_of(a, q - 1) == line_of(b, q - 1));
    }
}

spec fn final_text_eq(n: Seq<char>, t: Seq<char>, a: int, b: int) -> bool {
    n == t.subrange(0, a) + Seq::<char>::empty() + t.subrange(b, t.len() as int)
}

pub open spec fn next_version(v: u64) -> u64 {
    if v < u64::MAX { (v + 1) as u64 } else { 0 }
}

/// One open document: its characters, its caret and an edit counter.
#[derive(Debug)]
pub struct Buffer {
    text: Vec<char>,
    cursor: Position,
    version: u64,
}

impl Buffer {
    /// The document's characters.
    pub closed spec fn chars(&self) -> Seq<char> {
        self.text@
    }

    pub closed spec fn caret(&self) -> Position {
        self.cursor
    }

    pub closed spec fn ver(&self) -> u64 {
        self.version
    }

    /// Sizes stay within what an offset can count.
    pub open spec fn wf(&self) -> bool {
        self.chars().len() < usize::MAX
    }

    pub fn from_string(s: &str) -> (b: Buffer)
        requires
            s@.len() < usize::MAX,
        ensures
            b.chars() == s@,
            b.caret() == (Position { row: 0, col: 0 }),
            b.ver() == 0,
            b.wf(),
    {
        Buffer { text: chars_of(s), cursor: Position { row: 0, col: 0 }, version: 0 }
    }

    pub fn text(&self) -> (s: String)
        ensures
            s@ == self.chars(),
    {
        string_of(self.text.as_slice())
    }

    pub fn len_chars(&self) -> (n: usize)
        ensures
            n == self.chars().len(),
    {
        self.text.len()
    }

    pub fn version(&self) -> (v: u64)
        ensures
            v == self.ver(),
    {
        self.version
    }

    pub fn cursor(&self) -> (p: Position)
        ensures
            p == self.caret(),
    {
        self.cursor
    }

    /// The document's characters, borrowed.
    pub(crate) fn text_chars(&self) -> (v: &Vec<char>)
        ensures
            v@ == self.chars(),
    {
        &self.text
    }

    /// Swap in new text, bumping the version when asked; the caret stays.
    pub(crate) fn replace_all(&mut self, v: Vec<char>, bump: bool)
        requires
            v@.len() < usize::MAX,
        ensures
            final(self).chars() == v@,
            final(self).caret() == old(self).caret(),
            final(self).ver() == (if bump { next_version(old(self).ver()) } else { old(self).ver() }),
            final(self).wf(),
    {
        self.text = v;
        if bump {
            self.version = if self.version < u64::MAX { self.version + 1 } else { 0 };
        }
    }

    /// Put the caret at `p`.
    pub fn set_cursor(&mut self, p: Position)
        ensures
            final(self).caret() == p,
            final(self).chars() == old(self).chars(),
            final(self).ver() == old(self).ver(),
    {
        self.cursor = p;
    }

    pub fn char_at(&self, off: usize) -> (c: char)
        requires
            off < self.chars().len(),
        ensures
            c == self.chars()[off as int],
    {
        self.text[off]
    }

    pub fn offset_to_position(&self, off: usize) -> (p: Position)
        requires
            off <= self.chars().len(),
        ensures
            p == pos_at(self.chars(), off as int),
    {
        let mut row: usize = 0;
        let mut col: usize = 0;
        let mut i: usize = 0;
        while i < off
            invariant
                i <= off <= self.text@.len(),
                (Position { row, col }) == pos_at(self.text@, i as int),
                row + col <= i,
            decreases off - i,
        {
            if self.text[i] == '\n' {
                row += 1;
                col = 0;
            } else {
                col += 1;
            }
            i += 1;
        }
        Position { row, col }
    }

    pub fn position_to_offset(&self, p: Position) -> (off: usize)
        ensures
            off == off_of(self.chars(), p),
    {
        let mut row: usize = 0;
        let mut col: usize = 0;
        let mut i: usize = 0;
        let mut ans: usize = 0;
        while i < self.text.len()
            invariant
                i <= self.text@.len(),
                (Position { row, col }) == pos_at(self.text@, i as int),
                row + col <= i,
                ans == last_le(self.text@, p, i as int),
            decreases self.text@.len() - i,
        {
            if self.text[i] == '\n' {
                row += 1;
                col = 0;
            } else {
                col += 1;
            }
            i += 1;
            if row < p.row || (row == p.row && col <= p.col) {
                ans = i;
            }
        }
        ans
    }

    pub fn line_count(&self) -> (n: usize)
        requires
            self.wf(),
        ensures
            n == line_count_of(self.chars()),
    {
        proof {
            lemma_pos_bound(self.text@, self.text@.len() as int);
        }
        let p = self.offset_to_position(self.text.len());
        p.row + 1
    }

    /// The characters of line `row`.
    pub fn line_chars(&self, row: usize) -> (v: Vec<char>)
        ensures
            v@ == line_of(self.chars(), row as int),
    {
        let a = self.position_to_offset(Position { row, col: 0 });
        let b = self.position_to_offset(Position { row, col: usize::MAX });
        proof {
            lemma_line_bounds(self.text@, row as int);
        }
        slice_vec(self.text.as_slice(), a, b)
    }

    /// The text of line `row`.
    pub fn line(&self, row: usize) -> (s: String)
        ensures
            s@ == line_of(self.chars(), row as int),
    {
        let v = self.line_chars(row);
        string_of(v.as_slice())
    }

    /// Every line's text, in order.
    pub fn lines(&self) -> (v: Vec<String>)
        requires
            self.wf(),
        ensures
            v@.len() == line_count_of(self.chars()),
            forall|r: int| 0 <= r < v@.len() ==> (#[trigger] v@[r])@ == line_of(self.chars(), r),
    {
        let n = self.line_count();
        let mut v: Vec<String> = Vec::new();
        let mut r: usize = 0;
        while r < n
            invariant
                r <= n,
                n == line_count_of(self.chars()),
                v@.len() == r,
                forall|k: int| 0 <= k < r ==> (#[trigger] v@[k])@ == line_of(self.chars(), k),
            decreases n - r,
        {
            v.push(self.line(r));
            r += 1;
        }
        v
    }

    /// The caret as an offset.
    pub fn cursor_offset(&self) -> (off: usize)
        ensures
            off == off_of(self.chars(), self.caret()),
    {
        self.position_to_offset(self.cursor)
    }

    /// Replace the characters `[from, to)` with `new`, leaving the caret at
    /// the end of the inserted text.
    pub fn splice(&mut self, from: usize, to: usize, new: &[char])
        requires
            from <= to <= old(self).chars().len(),
            old(self).chars().len() - (to - from) + new@.len() < usize::MAX,
        ensures
            final(self).chars() == old(self).chars().subrange(0, from as int) + new@
                + old(self).chars().subrange(to as int, old(self).chars().len() as int),
            final(self).caret() == pos_at(final(self).chars(), from + new@.len()),
            final(self).ver() == next_version(old(self).ver()),
            final(self).wf(),
    {
        let mut out: Vec<char> = Vec::new();
        let mut i: usize = 0;
        while i < from
            invariant
                i <= from <= to <= self.text@.len(),
                out@ == self.text@.subrange(0, i as int),
            decreases from - i,
        {
            out.push(self.text[i]);
            assert(self.text@.subrange(0, i as int).push(self.text@[i as int])
                =~= self.text@.subrange(0, i + 1));
            i += 1;
        }
        let mut j: usize = 0;
        while j < new.len()
            invariant
                i == from,
                j <= new@.len(),
                out@ == self.text@.subrange(0, from as int) + new@.take(j as int),
            decreases new@.len() - j,
        {
            out.push(new[j]);
            assert(new@.take(j as int).push(new@[j as int]) =~= new@.take(j + 1));
            j += 1;
        }
        assert(new@.take(new@.len() as int) =~= new@);
        let ghost mid = out@;
        let mut k: usize = to;
        while k < self.text.len()
            invariant
                to <= k <= self.text@.len(),
                out@ == mid + self.text@.subrange(to as int, k as int),
            decreases self.text@.len() - k,
        {
            out.push(self.text[k]);
            assert(self.text@.subrange(to as int, k as int).push(self.text@[k as int])
                =~= self.text@.subrange(to as int, k + 1));
            k += 1;
        }
        self.text = out;
        self.version = if self.version < u64::MAX { self.version + 1 } else { 0 };
        let at = from + new.len();
        self.cursor = self.offset_to_position(at);
    }

    /// Insert `s` at the caret; the caret moves past it.
    pub fn insert_str(&mut self, s: &str)
        requires
            old(self).chars().len() + s@.len() < usize::MAX,
        ensures
            ({
                let at = off_of(old(self).chars(), old(self).caret());
                &&& final(self).chars() == old(self).chars().subrange(0, at) + s@
                    + old(self).chars().subrange(at, old(self).chars().len() as int)
                &&& final(self).caret() == pos_at(final(self).chars(), at + s@.len())
            }),
            final(self).ver() == next_version(old(self).ver()),
            final(self).wf(),
    {
        let at = self.cursor_offset();
        proof {
            lemma_last_le_range(self.text@, self.cursor, self.text@.len() as int);
        }
        let v = chars_of(s);
        self.splice(at, at, v.as_slice());
    }

    /// Delete from `from` to `to`; the caret lands where the text was.
    pub fn delete_range(&mut self, from: Position, to: Position)
        requires
            pos_le(from, to),
            old(self).wf(),
        ensures
            ({
                let t = old(self).chars();
                let a = off_of(t, from);
                let b = off_of(t, to);
                &&& a <= b
                &&& final(self).chars() == t.subrange(0, a) + t.subrange(b, t.len() as int)
                &&& final(self).caret() == pos_at(final(self).chars(), a)
            }),
            final(self).ver() == next_version(old(self).ver()),
            final(self).wf(),
    {
        let a = self.position_to_offset(from);
        let b = self.position_to_offset(to);
        proof {
            lemma_last_le_monotone(self.text@, from, to, self.text@.len() as int);
            lemma_last_le_range(self.text@, to, self.text@.len() as int);
        }
        let none: Vec<char> = Vec::new();
        self.splice(a, b, none.as_slice());
        assert(final_text_eq(self.text@, old(self).text@, a as int, b as int));
    }

    /// Insert `open` and `close` at the caret, leaving the caret between
    /// them.
    pub fn insert_char_pair(&mut self, open: char, close: char)
        requires
            old(self).chars().len() + 2 < usize::MAX,
        ensures
            ({
                let t = old(self).chars();
                let at = off_of(t, old(self).caret());
                &&& final(self).chars() == t.subrange(0, at) + seq![open, close] + t.subrange(at, t.len() as int)
                &&& final(self).caret() == pos_at(final(self).chars(), at + 1)
            }),
            final(self).ver() == next_version(old(self).ver()),
            final(self).wf(),
    {
        let at = self.cursor_offset();
        proof {
            lemma_last_le_range(self.text@, self.cursor, self.text@.len() as int);
        }
        let mut v: Vec<char> = Vec::new();
        v.push(open);
        v.push(close);
        self.splice(at, at, v.as_slice());
        assert(v@ =~= seq![open, close]);
        self.cursor = self.offset_to_position(at + 1);
    }

    /// Return at the caret: a newline, carrying the line's indentation down
    /// when `auto_indent` holds and the caret is past it, plus one `unit`
    /// after a block opener. What would not fit in memory is not inserted.
    pub fn insert_newline_smart(&mut self, unit: &str, auto_indent: bool)
        requires
            old(self).wf(),
        ensures
            ({
                let t = old(self).chars();
                let at = off_of(t, old(self).caret());
                let ins = newline_insert(t, at, unit@, auto_indent);
                &&& final(self).chars() == t.subrange(0, at) + ins + t.subrange(at, t.len() as int)
                &&& final(self).caret() == pos_at(final(self).chars(), at + ins.len())
            }),
            final(self).ver() == next_version(old(self).ver()),
            final(self).wf(),
    {
        let at = self.cursor_offset();
        proof {
            lemma_last_le_range(self.text@, self.cursor, self.text@.len() as int);
        }
        let p = self.offset_to_position(at);
        let ls = self.position_to_offset(Position { row: p.row, col: 0 });
        let le = self.position_to_offset(Position { row: p.row, col: usize::MAX });
        proof {
            lemma_line_around(self.text@, at as int);
        }
        let line = slice_vec(self.text.as_slice(), ls, le);
        let before = slice_vec(self.text.as_slice(), ls, at);
        let mut ind: usize = 0;
        while ind < line.len() && (line[ind] == ' ' || line[ind] == '\t')
            invariant
                ind <= line@.len(),
                indent_from(line@, ind as int) == indent_from(line@, 0),
            decreases line@.len() - ind,
        {
            ind += 1;
        }
        let mut ins: Vec<char> = Vec::new();
        if self.text.len() < usize::MAX - 1 {
            ins.push('\n');
            if auto_indent && before.len() > ind {
                let mut k: usize = before.len();
                while k > 0 && (before[k - 1] == ' ' || before[k - 1] == '\t')
                    invariant
                        k <= before@.len(),
                        trail_from(before@, k as int) == trail_from(before@, before@.len() as int),
                    decreases k,
                {
                    k -= 1;
                }
                let opens = k > 0 && (before[k - 1] == '{' || before[k - 1] == '(' || before[k - 1] == '['
                    || before[k - 1] == ':');
                let u = chars_of(unit);
                let extra: usize = if opens { u.len() } else { 0 };
                if self.text.len() < usize::MAX - 1 - ind && self.text.len() + 1 + ind < usize::MAX - extra {
                    let mut j: usize = 0;
                    while j < ind
                        invariant
                            j <= ind <= line@.len(),
                            ins@ == seq!['\n'] + line@.subrange(0, j as int),
                        decreases ind - j,
                    {
                        ins.push(line[j]);
                        assert(line@.subrange(0, j as int).push(line@[j as int]) =~= line@.subrange(0, j + 1));
                        j += 1;
                    }
                    if opens {
                        let mut q: usize = 0;
                        while q < u.len()
                            invariant
                                q <= u@.len(),
                                ins@ == seq!['\n'] + line@.subrange(0, ind as int) + u@.take(q as int),
                            decreases u@.len() - q,
                        {
                            ins.push(u[q]);
                            assert(u@.take(q as int).push(u@[q as int]) =~= u@.take(q + 1));
                            q += 1;
                        }
                        assert(u@.take(u@.len() as int) =~= u@);
                    } else {
                        assert(ins@ =~= seq!['\n'] + line@.subrange(0, ind as int) + Seq::<char>::empty());
                    }
                }
            }
        }
        proof {
            assert(line@ == line_of(old(self).text@, p.row as int));
        }
        self.splice(at, at, ins.as_slice());
    }
}

} // verus!
