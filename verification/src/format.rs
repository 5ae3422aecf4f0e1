//! Rendering of one evaluated value (or raw source, during an edit) to a
//! fixed display width, and of a whole row of values to one line of text.
//! Only a text's first line is shown in the grid; multi-line content is
//! edited in a scratch surface.

use crate::coords::{CELL_UNIT_WIDTH, CELL_WIDTH};
use vstd::prelude::*;

verus! {

/// `n` spaces.
pub open spec fn spaces(n: nat) -> Seq<char> {
    Seq::new(n, |i: int| ' ')
}

/// Prefix of `s` up to, and not including, its first line break.
pub open spec fn first_line(s: Seq<char>) -> Seq<char>
    decreases s.len(),
{
    if s.len() == 0 || s[0] == '\n' {
        Seq::empty()
    } else {
        seq![s[0]] + first_line(s.drop_first())
    }
}

/// `s` cut, or padded with spaces on the right, to exactly `n` characters.
pub open spec fn pad_truncate(s: Seq<char>, n: nat) -> Seq<char> {
    if s.len() >= n {
        s.take(n as int)
    } else {
        s + spaces((n - s.len()) as nat)
    }
}

/// One value rendered to a fixed display width: its first line, cut or
/// right-padded to exactly `width` characters.
pub open spec fn format_spec(text: Seq<char>, width: nat) -> Seq<char> {
    pad_truncate(first_line(text), width)
}

/// The text a cell shows; an absent value shows as nothing (so formats as
/// spaces alone).
pub open spec fn cell_text(v: Option<Seq<char>>) -> Seq<char> {
    match v {
        Some(t) => t,
        None => Seq::empty(),
    }
}

/// One cell's slot on screen: the formatted value followed by the
/// separator.
pub open spec fn cell_unit(v: Option<Seq<char>>) -> Seq<char> {
    format_spec(cell_text(v), CELL_WIDTH as nat) + seq![' ']
}

/// A whole row of cells laid side by side, untruncated.
pub open spec fn row_chars(row: Seq<Option<Seq<char>>>) -> Seq<char>
    decreases row.len(),
{
    if row.len() == 0 {
        Seq::empty()
    } else {
        row_chars(row.drop_last()) + cell_unit(row.last())
    }
}

/// The first line of a text is a prefix of it and holds no line break.
pub proof fn lemma_first_line_clean(s: Seq<char>)
    ensures
        first_line(s).len() <= s.len(),
        forall|i: int| 0 <= i < first_line(s).len() ==> first_line(s)[i] != '\n',
    decreases s.len(),
{
    if s.len() == 0 || s[0] == '\n' {
    } else {
        lemma_first_line_clean(s.drop_first());
    }
}

/// Scanning for the first line break identifies the first line: if
/// nothing before `i` is a line break and `i` is the text's end or a
/// line break, the first line is the prefix of length `i`.
pub proof fn lemma_first_line_prefix(s: Seq<char>, i: int)
    requires
        0 <= i <= s.len(),
        forall|j: int| 0 <= j < i ==> s[j] != '\n',
        i == s.len() || s[i] == '\n',
    ensures
        first_line(s) == s.take(i),
    decreases s.len(),
{
    if s.len() == 0 || s[0] == '\n' {
        assert(s.take(i) =~= Seq::empty());
    } else {
        lemma_first_line_prefix(s.drop_first(), i - 1);
        assert(seq![s[0]] + s.drop_first().take(i - 1) =~= s.take(i));
    }
}

/// Cutting or padding yields exactly the asked-for length and introduces
/// no line break.
pub proof fn lemma_pad_truncate_clean(s: Seq<char>, n: nat)
    requires
        forall|i: int| 0 <= i < s.len() ==> s[i] != '\n',
    ensures
        pad_truncate(s, n).len() == n,
        forall|i: int| 0 <= i < n ==> pad_truncate(s, n)[i] != '\n',
{
}

/// A formatted value is exactly `width` characters and holds no line
/// break.
pub proof fn lemma_format_clean(text: Seq<char>, width: nat)
    ensures
        format_spec(text, width).len() == width,
        forall|i: int| 0 <= i < width ==> format_spec(text, width)[i] != '\n',
{
    lemma_first_line_clean(text);
    lemma_pad_truncate_clean(first_line(text), width);
}

/// A formatted row is one cell unit per cell and holds no line break.
pub proof fn lemma_row_chars_clean(row: Seq<Option<Seq<char>>>)
    ensures
        row_chars(row).len() == row.len() * CELL_UNIT_WIDTH,
        forall|i: int| 0 <= i < row_chars(row).len() ==> row_chars(row)[i] != '\n',
    decreases row.len(),
{
    if row.len() == 0 {
    } else {
        lemma_row_chars_clean(row.drop_last());
        lemma_format_clean(cell_text(row.last()), CELL_WIDTH as nat);
        assert(row.len() * CELL_UNIT_WIDTH == (row.len() - 1) * CELL_UNIT_WIDTH + CELL_UNIT_WIDTH)
            by (nonlinear_arith);
    }
}

/// Index of the first line break in `text`, or its character length if
/// it has none.
fn first_line_end(text: &str) -> (i: usize)
    ensures
        0 <= i <= text@.len(),
        forall|j: int| 0 <= j < i ==> text@[j] != '\n',
        i == text@.len() || text@[i as int] == '\n',
        first_line(text@) == text@.take(i as int),
{
    let n = text.unicode_len();
    let mut i: usize = 0;
    while i < n && text.get_char(i) != '\n'
        invariant
            0 <= i <= n,
            n == text@.len(),
            forall|j: int| 0 <= j < i ==> text@[j] != '\n',
        decreases n - i,
    {
        i += 1;
    }
    proof {
        lemma_first_line_prefix(text@, i as int);
    }
    i
}

/// `text` cut, or padded with spaces on the right, to exactly `n`
/// characters.
pub fn pad_truncate_text(text: &str, n: usize) -> (r: String)
    ensures
        r@ == pad_truncate(text@, n as nat),
{
    let len = text.unicode_len();
    if len >= n {
        let r = text.substring_char(0, n).to_owned();
        proof {
            assert(r@ =~= text@.take(n as int));
        }
        r
    } else {
        let mut r = text.to_owned();
        let mut k = len;
        proof {
            assert(text@ + spaces(0) =~= text@);
        }
        while k < n
            invariant
                len <= k <= n,
                len == text@.len(),
                r@ == text@ + spaces((k - len) as nat),
            decreases n - k,
        {
            r.append(" ");
            proof {
                reveal_strlit(" ");
                assert(text@ + spaces((k - len) as nat) + " "@ =~= text@ + spaces(
                    (k + 1 - len) as nat,
                ));
            }
            k += 1;
        }
        r
    }
}

/// The first line of `text`: everything before its first line break.
pub fn first_line_text(text: &str) -> (r: String)
    ensures
        r@ == first_line(text@),
{
    let end = first_line_end(text);
    text.substring_char(0, end).to_owned()
}

/// One value rendered to a fixed display width: its first line, cut or
/// right-padded with spaces to exactly `width` characters.
pub fn format_to_width(text: &str, width: usize) -> (r: String)
    ensures
        r@ == format_spec(text@, width as nat),
{
    let end = first_line_end(text);
    let fl = text.substring_char(0, end);
    pad_truncate_text(fl, width)
}

/// One row of evaluated values laid side by side: each cell formatted to
/// the cell width and followed by the separator, untruncated.
pub fn format_row(row: &Vec<Option<String>>) -> (r: String)
    ensures
        r@ == row_chars(row.deep_view()),
{
    let ghost rs = row.deep_view();
    let mut r = String::new();
    let mut i: usize = 0;
    proof {
        assert(rs.take(0) =~= Seq::empty());
    }
    while i < row.len()
        invariant
            0 <= i <= row.len(),
            rs == row.deep_view(),
            rs.len() == row@.len(),
            r@ == row_chars(rs.take(i as int)),
        decreases row.len() - i,
    {
        let cell: String = match &row[i] {
            Some(s) => format_to_width(s.as_str(), CELL_WIDTH),
            None => format_to_width("", CELL_WIDTH),
        };
        r.append(cell.as_str());
        r.append(" ");
        proof {
            reveal_strlit("");
            reveal_strlit(" ");
            assert(""@ =~= Seq::<char>::empty());
            assert(" "@ =~= seq![' ']);
            assert(rs.take(i + 1).drop_last() =~= rs.take(i as int));
            assert(rs.take(i + 1).last() == rs[i as int]);
            assert(r@ == row_chars(rs.take(i as int)) + cell_unit(rs[i as int]));
            assert(r@ == row_chars(rs.take(i + 1)));
        }
        i += 1;
    }
    proof {
        assert(rs.take(row@.len() as int) =~= rs);
    }
    r
}

} // verus!
