//! The viewport renderer: projects the table onto a bounded rectangle of
//! display lines, splicing the single-cell edit overlay into the edited
//! row when an edit is pending, and producing the highlight span the host
//! marks as "in edit".

use crate::coords::{from_cell_col, CellPos, CELL_UNIT_WIDTH};
use crate::editor::EditorState;
use crate::format::{
    first_line, first_line_text, format_row, lemma_first_line_clean, lemma_pad_truncate_clean,
    lemma_row_chars_clean, pad_truncate, pad_truncate_text, row_chars,
};
use crate::table::text_or_empty;
use vstd::arithmetic::div_mod::lemma_fundamental_div_mod_converse;
use vstd::prelude::*;

verus! {

/// The region the host should visually mark as "being edited": columns
/// `col_start` to `col_end` of display row `row`.
#[derive(Clone, Copy, PartialEq, Eq, Structural, Debug)]
pub struct HighlightSpan {
    pub row: usize,
    pub col_start: usize,
    pub col_end: usize,
}

/// Cell units a viewport of `width` columns needs per row: enough to
/// cover it, a partly visible trailing cell included.
pub open spec fn width_cells_spec(width: int) -> int {
    (width + CELL_UNIT_WIDTH - 1) / (CELL_UNIT_WIDTH as int)
}

/// The value texts row `y` shows in cell columns `0..n`.
pub open spec fn row_of(m: Map<CellPos, Seq<char>>, y: usize, n: nat) -> Seq<Option<Seq<char>>> {
    Seq::new(
        n,
        |x: int|
            if m.contains_key(CellPos { x: x as usize, y }) {
                Some(m[CellPos { x: x as usize, y }])
            } else {
                None
            },
    )
}

/// One plain display line: row `y`'s formatted cells, cut to exactly the
/// viewport width.
pub open spec fn line_spec(m: Map<CellPos, Seq<char>>, y: usize, n: nat, width: nat) -> Seq<char> {
    pad_truncate(row_chars(row_of(m, y, n)), width)
}

/// The first `n` characters of `s`, or all of it if it is shorter.
pub open spec fn take_clamped(s: Seq<char>, n: int) -> Seq<char> {
    if n <= s.len() {
        s.take(n)
    } else {
        s
    }
}

/// `s` without its first `n` characters; nothing, if it is shorter.
pub open spec fn skip_clamped(s: Seq<char>, n: int) -> Seq<char> {
    if n <= s.len() {
        s.skip(n)
    } else {
        Seq::empty()
    }
}

/// The text the overlay splices over the edited cell's region: the
/// cell's raw source when the edit just opened (`replace_input`), else
/// the on-screen text of the edited row from the cell's start column on
/// — the first line of it, either way.
pub open spec fn overlay_text_spec(
    src: Map<CellPos, Seq<char>>,
    pos: CellPos,
    replace_input: bool,
    live: Seq<char>,
) -> Seq<char> {
    if replace_input {
        first_line(text_or_empty(src, pos))
    } else {
        first_line(skip_clamped(live, from_cell_col(pos.x as int)))
    }
}

/// The overlaid display line: the evaluated row up to the edited cell's
/// start column, then the overlay text, cut or space-padded to one
/// character past the viewport width, keeping a trailing edit column
/// reachable.
pub open spec fn overlay_line_spec(
    m: Map<CellPos, Seq<char>>,
    y: usize,
    n: nat,
    width: nat,
    start_col: int,
    text: Seq<char>,
) -> Seq<char> {
    pad_truncate(take_clamped(row_chars(row_of(m, y, n)), start_col) + text, (width + 1) as nat)
}

/// Cell units per display row of a `width`-column viewport.
fn width_cells(width: usize) -> (r: usize)
    requires
        width + CELL_UNIT_WIDTH <= usize::MAX,
    ensures
        r == width_cells_spec(width as int),
        CELL_UNIT_WIDTH * r >= width,
{
    let q = width / CELL_UNIT_WIDTH;
    let rem = width % CELL_UNIT_WIDTH;
    let r: usize = if rem != 0 {
        q + 1
    } else {
        q
    };
    proof {
        let u = CELL_UNIT_WIDTH as int;
        vstd::arithmetic::div_mod::lemma_fundamental_div_mod(width as int, u);
        if rem != 0 {
            lemma_fundamental_div_mod_converse(width as int + u - 1, u, q as int + 1, rem as int - 1);
        } else {
            lemma_fundamental_div_mod_converse(width as int + u - 1, u, q as int, u - 1);
        }
    }
    r
}

/// The values row `y` shows in cell columns `0..n`, read off the table.
fn row_values(state: &EditorState, y: usize, n: usize) -> (r: Vec<Option<String>>)
    requires
        state.wf(),
    ensures
        r.deep_view() == row_of(state.value_map(), y, n as nat),
{
    let ghost m = state.value_map();
    let mut r: Vec<Option<String>> = Vec::new();
    let mut x: usize = 0;
    proof {
        assert(r.deep_view() =~= row_of(m, y, 0));
    }
    while x < n
        invariant
            0 <= x <= n,
            state.wf(),
            m == state.value_map(),
            r@.len() == x,
            r.deep_view() == row_of(m, y, x as nat),
        decreases n - x,
    {
        let ghost before = r.deep_view();
        let v = state.table.get(CellPos { x, y });
        r.push(v);
        proof {
            let now = r.deep_view();
            let want = row_of(m, y, x as nat + 1);
            assert forall|i: int| 0 <= i < now.len() implies now[i] == want[i] by {
                if i < x {
                    assert(now[i] == before[i]);
                    assert(before[i] == row_of(m, y, x as nat)[i]);
                } else {
                    assert(r@[i] == v);
                }
            }
            assert(now =~~= want);
        }
        x += 1;
    }
    r
}

/// Renders the viewport with the edit overlay spliced into the edited
/// row: forces one evaluation pass, formats every row to the viewport
/// width, replaces the edited cell's region from its start column on by
/// the overlay text, and answers the highlight span covering the edited
/// region. No produced line carries a line break, and none is longer
/// than one past the viewport width.
pub fn render_buffer_edit(
    state: &mut EditorState,
    width: usize,
    height: usize,
    pos: CellPos,
    replace_input: bool,
    live_line: &str,
) -> (r: (Vec<String>, HighlightSpan))
    requires
        old(state).wf(),
        pos.x * CELL_UNIT_WIDTH + width + CELL_UNIT_WIDTH <= usize::MAX,
    ensures
        final(state).wf(),
        final(state).source_map() == old(state).source_map(),
        final(state).value_map() == old(state).source_map(),
        final(state).pending_edit() == old(state).pending_edit(),
        final(state).visual_anchor() == old(state).visual_anchor(),
        final(state).clipboard_view() == old(state).clipboard_view(),
        r.0@.len() == height,
        forall|i: int|
            0 <= i < height && i != pos.y ==> r.0@[i]@ == line_spec(
                old(state).source_map(),
                i as usize,
                width_cells_spec(width as int) as nat,
                width as nat,
            ),
        pos.y < height ==> r.0@[pos.y as int]@ == overlay_line_spec(
            old(state).source_map(),
            pos.y,
            width_cells_spec(width as int) as nat,
            width as nat,
            from_cell_col(pos.x as int),
            overlay_text_spec(old(state).source_map(), pos, replace_input, live_line@),
        ),
        r.1 == (HighlightSpan {
            row: pos.y,
            col_start: (pos.x * CELL_UNIT_WIDTH) as usize,
            col_end: (pos.x * CELL_UNIT_WIDTH + width) as usize,
        }),
        forall|i: int| 0 <= i < height ==> r.0@[i]@.len() <= width + 1,
        forall|i: int, j: int|
            0 <= i < height && 0 <= j < r.0@[i]@.len() ==> r.0@[i]@[j] != '\n',
{
    state.table.evaluate();
    let ghost m = state.value_map();
    let wc = width_cells(width);
    let col = pos.x * CELL_UNIT_WIDTH;

    let otext: String = if replace_input {
        match state.table.get_source(pos) {
            Some(s) => first_line_text(s.as_str()),
            None => String::new(),
        }
    } else {
        let llen = live_line.unicode_len();
        let cut: usize = if col < llen {
            col
        } else {
            llen
        };
        let suffix = live_line.substring_char(cut, llen);
        proof {
            assert(suffix@ =~= skip_clamped(live_line@, col as int));
        }
        first_line_text(suffix)
    };
    let ghost ot = overlay_text_spec(old(state).source_map(), pos, replace_input, live_line@);

    let mut lines: Vec<String> = Vec::new();
    let mut y: usize = 0;
    while y < height
        invariant
            0 <= y <= height,
            state.wf(),
            m == state.value_map(),
            state.source_map() == old(state).source_map(),
            state.value_map() == old(state).source_map(),
            state.pending_edit() == old(state).pending_edit(),
            state.visual_anchor() == old(state).visual_anchor(),
            state.clipboard_view() == old(state).clipboard_view(),
            wc == width_cells_spec(width as int),
            col == pos.x * CELL_UNIT_WIDTH,
            col + width + 1 <= usize::MAX,
            otext@ == ot,
            ot == overlay_text_spec(old(state).source_map(), pos, replace_input, live_line@),
            lines@.len() == y,
            forall|i: int|
                0 <= i < y && i != pos.y ==> lines@[i]@ == line_spec(
                    m,
                    i as usize,
                    wc as nat,
                    width as nat,
                ),
            pos.y < y ==> lines@[pos.y as int]@ == overlay_line_spec(
                m,
                pos.y,
                wc as nat,
                width as nat,
                col as int,
                ot,
            ),
            forall|i: int| 0 <= i < y ==> lines@[i]@.len() <= width + 1,
            forall|i: int, j: int|
                0 <= i < y && 0 <= j < lines@[i]@.len() ==> lines@[i]@[j] != '\n',
        decreases height - y,
    {
        let rowv = row_values(state, y, wc);
        let full = format_row(&rowv);
        let ghost rc = row_chars(row_of(m, y, wc as nat));
        proof {
            lemma_row_chars_clean(row_of(m, y, wc as nat));
        }
        let line: String = if y != pos.y {
            let l = pad_truncate_text(full.as_str(), width);
            proof {
                lemma_pad_truncate_clean(rc, width as nat);
            }
            l
        } else {
            let flen = full.as_str().unicode_len();
            let pcut: usize = if col < flen {
                col
            } else {
                flen
            };
            let prefix = full.as_str().substring_char(0, pcut);
            let mut combined = prefix.to_owned();
            combined.append(otext.as_str());
            proof {
                assert(prefix@ =~= take_clamped(rc, col as int));
                lemma_first_line_clean(
                    if replace_input {
                        text_or_empty(old(state).source_map(), pos)
                    } else {
                        skip_clamped(live_line@, from_cell_col(pos.x as int))
                    },
                );
                lemma_pad_truncate_clean(combined@, (width + 1) as nat);
            }
            pad_truncate_text(combined.as_str(), width + 1)
        };
        lines.push(line);
        y += 1;
    }
    (lines, HighlightSpan { row: pos.y, col_start: col, col_end: col + width })
}

/// Renders the whole viewport: one evaluation pass, then each display
/// row's evaluated cells cut to exactly the viewport width. When an edit
/// is pending, the edited row instead carries the overlay echoing the
/// on-screen text of `live_line`, and a highlight span is produced for
/// the host to mark. No produced line carries a line break, and none is
/// longer than one past the viewport width.
pub fn render_buffer(state: &mut EditorState, width: usize, height: usize, live_line: &str) -> (r:
    (Vec<String>, Option<HighlightSpan>))
    requires
        old(state).wf(),
        width + CELL_UNIT_WIDTH <= usize::MAX,
        old(state).pending_edit() matches Some(p) ==> p.x * CELL_UNIT_WIDTH + width
            + CELL_UNIT_WIDTH <= usize::MAX,
    ensures
        final(state).wf(),
        final(state).source_map() == old(state).source_map(),
        final(state).value_map() == old(state).source_map(),
        final(state).pending_edit() == old(state).pending_edit(),
        final(state).visual_anchor() == old(state).visual_anchor(),
        final(state).clipboard_view() == old(state).clipboard_view(),
        r.0@.len() == height,
        old(state).pending_edit() is None ==> {
            &&& r.1 is None
            &&& forall|i: int|
                0 <= i < height ==> r.0@[i]@ == line_spec(
                    old(state).source_map(),
                    i as usize,
                    width_cells_spec(width as int) as nat,
                    width as nat,
                )
        },
        old(state).pending_edit() matches Some(pos) ==> {
            &&& r.1 == Some(
                HighlightSpan {
                    row: pos.y,
                    col_start: (pos.x * CELL_UNIT_WIDTH) as usize,
                    col_end: (pos.x * CELL_UNIT_WIDTH + width) as usize,
                },
            )
            &&& forall|i: int|
                0 <= i < height && i != pos.y ==> r.0@[i]@ == line_spec(
                    old(state).source_map(),
                    i as usize,
                    width_cells_spec(width as int) as nat,
                    width as nat,
                )
            &&& pos.y < height ==> r.0@[pos.y as int]@ == overlay_line_spec(
                old(state).source_map(),
                pos.y,
                width_cells_spec(width as int) as nat,
                width as nat,
                from_cell_col(pos.x as int),
                overlay_text_spec(old(state).source_map(), pos, false, live_line@),
            )
        },
        forall|i: int| 0 <= i < height ==> r.0@[i]@.len() <= width + 1,
        forall|i: int, j: int|
            0 <= i < height && 0 <= j < r.0@[i]@.len() ==> r.0@[i]@[j] != '\n',
{
    match state.edit {
        Some(pos) => {
            let (lines, span) = render_buffer_edit(state, width, height, pos, false, live_line);
            (lines, Some(span))
        },
        None => {
            state.table.evaluate();
            let ghost m = state.value_map();
            let wc = width_cells(width);
            let mut lines: Vec<String> = Vec::new();
            let mut y: usize = 0;
            while y < height
                invariant
                    0 <= y <= height,
                    state.wf(),
                    m == state.value_map(),
                    state.source_map() == old(state).source_map(),
                    state.value_map() == old(state).source_map(),
                    state.pending_edit() == old(state).pending_edit(),
                    state.visual_anchor() == old(state).visual_anchor(),
                    state.clipboard_view() == old(state).clipboard_view(),
                    wc == width_cells_spec(width as int),
                    lines@.len() == y,
                    forall|i: int|
                        0 <= i < y ==> lines@[i]@ == line_spec(m, i as usize, wc as nat, width as nat),
                    forall|i: int| 0 <= i < y ==> lines@[i]@.len() <= width + 1,
                    forall|i: int, j: int|
                        0 <= i < y && 0 <= j < lines@[i]@.len() ==> lines@[i]@[j] != '\n',
                decreases height - y,
            {
                let rowv = row_values(state, y, wc);
                let full = format_row(&rowv);
                proof {
                    lemma_row_chars_clean(row_of(m, y, wc as nat));
                    lemma_pad_truncate_clean(row_chars(row_of(m, y, wc as nat)), width as nat);
                }
                let line = pad_truncate_text(full.as_str(), width);
                lines.push(line);
                y += 1;
            }
            (lines, None)
        },
    }
}

} // verus!
