//! The editor state and its controller operations: one per open grid
//! surface, owning the table capability, the clipboard register, the
//! selection anchor and the single pending cell edit.

use crate::clipboard::Clipboard;
use crate::coords::{from_cell_col, CellPos, CELL_UNIT_WIDTH};
use crate::range::{range_between, CellRange};
use crate::table::{text_or_empty, Table};
use vstd::prelude::*;

verus! {

/// Is `c` blank space for the commit trim rule? The rule trims the ASCII
/// blanks.
pub open spec fn is_blank(c: char) -> bool {
    c == ' ' || c == '\t' || c == '\r' || c == '\n'
}

/// `s` without its leading blanks.
pub open spec fn trim_start_spec(s: Seq<char>) -> Seq<char>
    decreases s.len(),
{
    if s.len() > 0 && is_blank(s[0]) {
        trim_start_spec(s.drop_first())
    } else {
        s
    }
}

/// `s` without its trailing blanks.
pub open spec fn trim_end_spec(s: Seq<char>) -> Seq<char>
    decreases s.len(),
{
    if s.len() > 0 && is_blank(s.last()) {
        trim_end_spec(s.drop_last())
    } else {
        s
    }
}

/// `s` without its leading and trailing blanks.
pub open spec fn trim_spec(s: Seq<char>) -> Seq<char> {
    trim_end_spec(trim_start_spec(s))
}

/// The text a commit stores for a cell whose screen region begins at
/// column `col`: the edited row without its first `col` characters,
/// blanks trimmed from both ends.
pub open spec fn committed_text(row: Seq<char>, col: int) -> Seq<char> {
    if col <= row.len() {
        trim_spec(row.skip(col))
    } else {
        Seq::empty()
    }
}

/// Scanning over leading blanks identifies the trimmed prefix: if all of
/// `s` before `a` is blank and `a` is the end or not blank, trimming the
/// start drops exactly `a` characters.
proof fn lemma_trim_start_prefix(s: Seq<char>, a: int)
    requires
        0 <= a <= s.len(),
        forall|j: int| 0 <= j < a ==> is_blank(s[j]),
        a == s.len() || !is_blank(s[a]),
    ensures
        trim_start_spec(s) == s.skip(a),
    decreases s.len(),
{
    if a == 0 {
        assert(s.skip(0) =~= s);
    } else {
        lemma_trim_start_prefix(s.drop_first(), a - 1);
        assert(s.drop_first().skip(a - 1) =~= s.skip(a));
    }
}

/// Scanning back over trailing blanks identifies the trimmed suffix: if
/// all of `s` from `b` on is blank and `b` is the start or preceded by a
/// non-blank, trimming the end keeps exactly `b` characters.
proof fn lemma_trim_end_suffix(s: Seq<char>, b: int)
    requires
        0 <= b <= s.len(),
        forall|j: int| b <= j < s.len() ==> is_blank(s[j]),
        b == 0 || !is_blank(s[b - 1]),
    ensures
        trim_end_spec(s) == s.take(b),
    decreases s.len(),
{
    if b == s.len() {
        assert(s.take(b) =~= s);
    } else {
        lemma_trim_end_suffix(s.drop_last(), b);
        assert(s.drop_last().take(b) =~= s.take(b));
    }
}

/// Is `c` blank space for the commit trim rule?
fn is_blank_char(c: char) -> (b: bool)
    ensures
        b == is_blank(c),
{
    c == ' ' || c == '\t' || c == '\r' || c == '\n'
}

/// `s` with blanks trimmed from both ends.
fn trim_text(s: &str) -> (r: String)
    ensures
        r@ == trim_spec(s@),
{
    let n = s.unicode_len();
    let mut a: usize = 0;
    while a < n && is_blank_char(s.get_char(a))
        invariant
            0 <= a <= n,
            n == s@.len(),
            forall|j: int| 0 <= j < a ==> is_blank(s@[j]),
        decreases n - a,
    {
        a += 1;
    }
    proof {
        lemma_trim_start_prefix(s@, a as int);
    }
    if a == n {
        proof {
            assert(s@.skip(n as int) =~= Seq::<char>::empty());
        }
        return String::new();
    }
    let mut b: usize = n;
    while b > a + 1 && is_blank_char(s.get_char(b - 1))
        invariant
            a + 1 <= b <= n,
            n == s@.len(),
            forall|j: int| b <= j < n ==> is_blank(s@[j]),
        decreases b,
    {
        b -= 1;
    }
    // Here either `s[b - 1]` is not blank, or `b == a + 1` and `s[a]`
    // is not blank.
    proof {
        let t = s@.skip(a as int);
        assert(forall|j: int| b - a <= j < t.len() ==> is_blank(t[j]));
        assert(!is_blank(t[b - a - 1]));
        lemma_trim_end_suffix(t, b - a);
        assert(t.take(b - a) =~= s@.subrange(a as int, b as int));
    }
    s.substring_char(a, b).to_owned()
}

/// `m` with every position inside `range` removed.
pub open spec fn map_without(m: Map<CellPos, Seq<char>>, range: CellRange) -> Map<
    CellPos,
    Seq<char>,
> {
    Map::new(|p: CellPos| m.contains_key(p) && !range.contains(p), |p: CellPos| m[p])
}

/// `m` with every position inside `range` set to `t`.
pub open spec fn map_filled(m: Map<CellPos, Seq<char>>, range: CellRange, t: Seq<char>) -> Map<
    CellPos,
    Seq<char>,
> {
    Map::new(
        |p: CellPos| m.contains_key(p) || range.contains(p),
        |p: CellPos|
            if range.contains(p) {
                t
            } else {
                m[p]
            },
    )
}

/// Has a row-major sweep of `range` — rows outward, cells inward — that
/// stands before cell `dx` of row `dy` already visited `p`?
spec fn visited(range: CellRange, dy: int, dx: int, p: CellPos) -> bool {
    &&& range.contains(p)
    &&& (p.y - range.start.y < dy || (p.y - range.start.y == dy && p.x - range.start.x < dx))
}

/// `m0` after a row-major sweep has cleared everything before cell `dx`
/// of row `dy`.
spec fn partly_cleared(m0: Map<CellPos, Seq<char>>, range: CellRange, dy: int, dx: int) -> Map<
    CellPos,
    Seq<char>,
> {
    Map::new(|p: CellPos| m0.contains_key(p) && !visited(range, dy, dx, p), |p: CellPos| m0[p])
}

/// `m0` after a row-major sweep has set everything before cell `dx` of
/// row `dy` to `t`.
spec fn partly_filled(
    m0: Map<CellPos, Seq<char>>,
    range: CellRange,
    t: Seq<char>,
    dy: int,
    dx: int,
) -> Map<CellPos, Seq<char>> {
    Map::new(
        |p: CellPos| m0.contains_key(p) || visited(range, dy, dx, p),
        |p: CellPos|
            if visited(range, dy, dx, p) {
                t
            } else {
                m0[p]
            },
    )
}

/// One range row as delimiter-separated text: the evaluated texts of its
/// first `w` cells from column `x0` on, joined by commas.
pub open spec fn csv_row(m: Map<CellPos, Seq<char>>, y: usize, x0: usize, w: nat) -> Seq<char>
    decreases w,
{
    if w == 0 {
        Seq::empty()
    } else if w == 1 {
        text_or_empty(m, CellPos { x: x0, y })
    } else {
        csv_row(m, y, x0, (w - 1) as nat) + seq![','] + text_or_empty(
            m,
            CellPos { x: (x0 + w - 1) as usize, y },
        )
    }
}

/// A rectangle of evaluated values as tabular text: the first `h` rows of
/// `range`, each row's cells joined by commas and each row ended by a
/// line break.
pub open spec fn csv_rows(m: Map<CellPos, Seq<char>>, range: CellRange, h: nat) -> Seq<char>
    decreases h,
{
    if h == 0 {
        Seq::empty()
    } else {
        csv_rows(m, range, (h - 1) as nat) + csv_row(
            m,
            (range.start.y + h - 1) as usize,
            range.start.x,
            range.width as nat,
        ) + seq!['\n']
    }
}

/// Why a controller operation was refused.
#[derive(Clone, Copy, PartialEq, Eq, Structural, Debug)]
pub enum EditError {
    /// An edit is already pending at the carried position; it must be
    /// committed before another may begin.
    AlreadyEditing(CellPos),
}

/// Editor state of one grid surface.
pub struct EditorState {
    pub table: Table,
    pub clipboard: Clipboard,
    pub visual_start: CellPos,
    pub edit: Option<CellPos>,
}

impl EditorState {
    /// Raw source text per cell.
    pub open spec fn source_map(self) -> Map<CellPos, Seq<char>> {
        self.table.source_map()
    }

    /// Evaluated value per cell, as of the last evaluation pass.
    pub open spec fn value_map(self) -> Map<CellPos, Seq<char>> {
        self.table.value_map()
    }

    /// The cell whose edit is pending, if any.
    pub open spec fn pending_edit(self) -> Option<CellPos> {
        self.edit
    }

    /// The block-visual selection anchor.
    pub open spec fn visual_anchor(self) -> CellPos {
        self.visual_start
    }

    /// The clipboard register's content.
    pub open spec fn clipboard_view(self) -> Option<Seq<char>> {
        self.clipboard@
    }

    /// Internal well-formedness of the owned table.
    pub open spec fn wf(self) -> bool {
        self.table.wf()
    }

    /// May an edit begin? Exactly when none is pending.
    pub open spec fn can_begin_edit(self) -> bool {
        self.pending_edit() is None
    }

    /// A fresh surface: empty table, empty clipboard, anchor at the
    /// origin, no pending edit.
    pub fn new() -> (s: EditorState)
        ensures
            s.wf(),
            s.source_map() == Map::<CellPos, Seq<char>>::empty(),
            s.value_map() == Map::<CellPos, Seq<char>>::empty(),
            s.pending_edit() is None,
            s.visual_anchor() == (CellPos { x: 0, y: 0 }),
            s.clipboard_view() is None,
    {
        EditorState {
            table: Table::new(),
            clipboard: Clipboard::new(),
            visual_start: CellPos { x: 0, y: 0 },
            edit: None,
        }
    }

    /// Raw text of one cell, if it has any: a pass-through to the table.
    pub fn get_source(&self, pos: CellPos) -> (r: Option<String>)
        requires
            self.wf(),
        ensures
            match r {
                Some(s) => self.source_map().contains_key(pos) && s@ == self.source_map()[pos],
                None => !self.source_map().contains_key(pos),
            },
    {
        self.table.get_source(pos)
    }

    /// Sets or clears one cell's raw text: a pass-through to the table.
    /// Triggers no render and no evaluation.
    pub fn set_source(&mut self, pos: CellPos, src: Option<String>)
        requires
            old(self).wf(),
        ensures
            final(self).wf(),
            final(self).source_map() == match src {
                Some(s) => old(self).source_map().insert(pos, s@),
                None => old(self).source_map().remove(pos),
            },
            final(self).value_map() == old(self).value_map(),
            final(self).pending_edit() == old(self).pending_edit(),
            final(self).visual_anchor() == old(self).visual_anchor(),
            final(self).clipboard_view() == old(self).clipboard_view(),
    {
        self.table.set_source(pos, src);
    }

    /// Evaluated text of one cell at full width, for programmatic reads:
    /// forces an evaluation pass first; a cell with no value reads as
    /// empty text.
    pub fn get_value(&mut self, pos: CellPos) -> (r: String)
        requires
            old(self).wf(),
        ensures
            final(self).wf(),
            r@ == text_or_empty(old(self).source_map(), pos),
            final(self).source_map() == old(self).source_map(),
            final(self).value_map() == old(self).source_map(),
            final(self).pending_edit() == old(self).pending_edit(),
            final(self).visual_anchor() == old(self).visual_anchor(),
            final(self).clipboard_view() == old(self).clipboard_view(),
    {
        self.table.evaluate();
        match self.table.get(pos) {
            Some(s) => s,
            None => String::new(),
        }
    }

    /// Sets the selection anchor; called on entry into block-visual mode.
    pub fn set_visual_start(&mut self, pos: CellPos)
        ensures
            final(self).visual_anchor() == pos,
            final(self).wf() == old(self).wf(),
            final(self).source_map() == old(self).source_map(),
            final(self).value_map() == old(self).value_map(),
            final(self).pending_edit() == old(self).pending_edit(),
            final(self).clipboard_view() == old(self).clipboard_view(),
    {
        self.visual_start = pos;
    }

    /// The selection anchor.
    pub fn get_visual_start(&self) -> (r: CellPos)
        ensures
            r == self.visual_anchor(),
    {
        self.visual_start
    }

    /// The normalized rectangle between the selection anchor and the
    /// cursor's cell; both corners are inside it.
    pub fn get_current_visual_range(&self, cursor: CellPos) -> (r: CellRange)
        requires
            self.visual_anchor().x - cursor.x < usize::MAX,
            cursor.x - self.visual_anchor().x < usize::MAX,
            self.visual_anchor().y - cursor.y < usize::MAX,
            cursor.y - self.visual_anchor().y < usize::MAX,
        ensures
            r.wf(),
            r.contains(self.visual_anchor()),
            r.contains(cursor),
            r.start.x == vstd::math::min(self.visual_anchor().x as int, cursor.x as int),
            r.start.y == vstd::math::min(self.visual_anchor().y as int, cursor.y as int),
            r.start.x + r.width == vstd::math::max(self.visual_anchor().x as int, cursor.x as int)
                + 1,
            r.start.y + r.height == vstd::math::max(self.visual_anchor().y as int, cursor.y as int)
                + 1,
    {
        range_between(self.visual_start, cursor)
    }

    /// Copies one cell's raw text to the clipboard; a cell with none
    /// yanks as empty text.
    pub fn yank_source(&mut self, pos: CellPos)
        requires
            old(self).wf(),
        ensures
            final(self).wf(),
            final(self).clipboard_view() == Some(text_or_empty(old(self).source_map(), pos)),
            final(self).source_map() == old(self).source_map(),
            final(self).value_map() == old(self).value_map(),
            final(self).pending_edit() == old(self).pending_edit(),
            final(self).visual_anchor() == old(self).visual_anchor(),
    {
        let text = match self.table.get_source(pos) {
            Some(s) => s,
            None => String::new(),
        };
        self.clipboard.set(text);
    }

    /// Copies one cell's evaluated text to the clipboard, forcing an
    /// evaluation pass first.
    pub fn yank_value(&mut self, pos: CellPos)
        requires
            old(self).wf(),
        ensures
            final(self).wf(),
            final(self).clipboard_view() == Some(text_or_empty(old(self).source_map(), pos)),
            final(self).source_map() == old(self).source_map(),
            final(self).value_map() == old(self).source_map(),
            final(self).pending_edit() == old(self).pending_edit(),
            final(self).visual_anchor() == old(self).visual_anchor(),
    {
        let text = self.get_value(pos);
        self.clipboard.set(text);
    }

    /// Writes the clipboard's content as one cell's source; an empty
    /// clipboard clears the cell.
    pub fn paste_at(&mut self, pos: CellPos)
        requires
            old(self).wf(),
        ensures
            final(self).wf(),
            final(self).source_map() == match old(self).clipboard_view() {
                Some(t) => old(self).source_map().insert(pos, t),
                None => old(self).source_map().remove(pos),
            },
            final(self).value_map() == old(self).value_map(),
            final(self).pending_edit() == old(self).pending_edit(),
            final(self).visual_anchor() == old(self).visual_anchor(),
            final(self).clipboard_view() == old(self).clipboard_view(),
    {
        let src = self.clipboard.get();
        self.table.set_source(pos, src);
    }

    /// Begins editing `pos`. Succeeds exactly when no edit is pending;
    /// a pending edit is never silently replaced, and a refusal changes
    /// nothing.
    pub fn begin_edit(&mut self, pos: CellPos) -> (r: Result<(), EditError>)
        ensures
            r is Ok <==> old(self).can_begin_edit(),
            r is Ok ==> final(self).pending_edit() == Some(pos),
            r is Err ==> *final(self) == *old(self) && r == Result::<(), EditError>::Err(
                EditError::AlreadyEditing(old(self).pending_edit()->Some_0),
            ),
            final(self).wf() == old(self).wf(),
            final(self).source_map() == old(self).source_map(),
            final(self).value_map() == old(self).value_map(),
            final(self).visual_anchor() == old(self).visual_anchor(),
            final(self).clipboard_view() == old(self).clipboard_view(),
    {
        match self.edit {
            Some(cur) => Err(EditError::AlreadyEditing(cur)),
            None => {
                self.edit = Some(pos);
                Ok(())
            },
        }
    }

    /// Commits the pending edit from the edited row's text: strips the
    /// part of the row before the cell's start column, trims surrounding
    /// blanks, and stores the remainder as the cell's source — clearing
    /// the cell when nothing remains. Clears the pending edit and answers
    /// the edited cell; with no edit pending it changes nothing.
    pub fn commit_edit(&mut self, row_text: &str) -> (r: Option<CellPos>)
        requires
            old(self).wf(),
            old(self).pending_edit() matches Some(p) ==> p.x * CELL_UNIT_WIDTH <= usize::MAX,
        ensures
            final(self).wf(),
            r == old(self).pending_edit(),
            old(self).pending_edit() is None ==> *final(self) == *old(self),
            old(self).pending_edit() matches Some(pos) ==> {
                &&& final(self).pending_edit() is None
                &&& final(self).source_map() == {
                    let t = committed_text(row_text@, from_cell_col(pos.x as int));
                    if t.len() == 0 {
                        old(self).source_map().remove(pos)
                    } else {
                        old(self).source_map().insert(pos, t)
                    }
                }
                &&& final(self).value_map() == old(self).value_map()
                &&& final(self).visual_anchor() == old(self).visual_anchor()
                &&& final(self).clipboard_view() == old(self).clipboard_view()
            },
    {
        let pos = match self.edit {
            Some(p) => p,
            None => {
                return None;
            },
        };
        self.edit = None;
        let col = pos.x * CELL_UNIT_WIDTH;
        let n = row_text.unicode_len();
        let cut: usize = if col < n {
            col
        } else {
            n
        };
        let suffix = row_text.substring_char(cut, n);
        let trimmed = trim_text(suffix);
        proof {
            assert(suffix@ =~= row_text@.skip(cut as int));
            if col as int > row_text@.len() {
                assert(row_text@.skip(cut as int) =~= Seq::<char>::empty());
            }
        }
        if trimmed.as_str().is_empty() {
            self.table.set_source(pos, None);
        } else {
            self.table.set_source(pos, Some(trimmed));
        }
        Some(pos)
    }

    /// The scratch-surface entry point into the commit contract: stores
    /// `text` as `pos`'s source under the same trim rule as an inline
    /// commit — surrounding blanks trimmed, the cell cleared when nothing
    /// remains. An inline commit first strips the columns before the
    /// cell; a scratch surface holds only the cell's own text, so here
    /// nothing is stripped.
    pub fn commit_source_text(&mut self, pos: CellPos, text: &str)
        requires
            old(self).wf(),
        ensures
            final(self).wf(),
            final(self).source_map() == if trim_spec(text@).len() == 0 {
                old(self).source_map().remove(pos)
            } else {
                old(self).source_map().insert(pos, trim_spec(text@))
            },
            final(self).value_map() == old(self).value_map(),
            final(self).pending_edit() == old(self).pending_edit(),
            final(self).visual_anchor() == old(self).visual_anchor(),
            final(self).clipboard_view() == old(self).clipboard_view(),
    {
        let trimmed = trim_text(text);
        if trimmed.as_str().is_empty() {
            self.table.set_source(pos, None);
        } else {
            self.table.set_source(pos, Some(trimmed));
        }
    }

    /// Clears every cell of `range`, sweeping row-major — rows outward,
    /// cells inward. Afterwards no cell of the range has a source, and no
    /// cell outside it moved.
    pub fn clear_range(&mut self, range: CellRange)
        requires
            old(self).wf(),
            range.wf(),
        ensures
            final(self).wf(),
            final(self).source_map() == map_without(old(self).source_map(), range),
            forall|p: CellPos| range.contains(p) ==> !final(self).source_map().contains_key(p),
            final(self).value_map() == old(self).value_map(),
            final(self).pending_edit() == old(self).pending_edit(),
            final(self).visual_anchor() == old(self).visual_anchor(),
            final(self).clipboard_view() == old(self).clipboard_view(),
    {
        let ghost m0 = old(self).source_map();
        proof {
            assert(self.source_map() =~= partly_cleared(m0, range, 0, 0));
        }
        let mut dy: usize = 0;
        while dy < range.height
            invariant
                0 <= dy <= range.height,
                range.wf(),
                self.wf(),
                self.source_map() == partly_cleared(m0, range, dy as int, 0),
                self.value_map() == old(self).value_map(),
                self.pending_edit() == old(self).pending_edit(),
                self.visual_anchor() == old(self).visual_anchor(),
                self.clipboard_view() == old(self).clipboard_view(),
            decreases range.height - dy,
        {
            let mut dx: usize = 0;
            while dx < range.width
                invariant
                    0 <= dx <= range.width,
                    0 <= dy < range.height,
                    range.wf(),
                    self.wf(),
                    self.source_map() == partly_cleared(m0, range, dy as int, dx as int),
                    self.value_map() == old(self).value_map(),
                    self.pending_edit() == old(self).pending_edit(),
                    self.visual_anchor() == old(self).visual_anchor(),
                    self.clipboard_view() == old(self).clipboard_view(),
                decreases range.width - dx,
            {
                let pos = CellPos { x: range.start.x + dx, y: range.start.y + dy };
                self.table.set_source(pos, None);
                proof {
                    assert(partly_cleared(m0, range, dy as int, dx as int).remove(pos)
                        =~= partly_cleared(m0, range, dy as int, dx as int + 1));
                }
                dx += 1;
            }
            proof {
                assert(partly_cleared(m0, range, dy as int, range.width as int) =~= partly_cleared(
                    m0,
                    range,
                    dy as int + 1,
                    0,
                ));
            }
            dy += 1;
        }
        proof {
            assert(partly_cleared(m0, range, range.height as int, 0) =~= map_without(m0, range));
        }
    }

    /// Writes the clipboard's content as the source of every cell of
    /// `range`, sweeping row-major; an empty clipboard clears the range.
    pub fn paste_range(&mut self, range: CellRange)
        requires
            old(self).wf(),
            range.wf(),
        ensures
            final(self).wf(),
            final(self).source_map() == match old(self).clipboard_view() {
                Some(t) => map_filled(old(self).source_map(), range, t),
                None => map_without(old(self).source_map(), range),
            },
            final(self).value_map() == old(self).value_map(),
            final(self).pending_edit() == old(self).pending_edit(),
            final(self).visual_anchor() == old(self).visual_anchor(),
            final(self).clipboard_view() == old(self).clipboard_view(),
    {
        let content = match self.clipboard.get() {
            Some(s) => s,
            None => {
                self.clear_range(range);
                return ;
            },
        };
        let ghost m0 = old(self).source_map();
        let ghost t = content@;
        proof {
            assert(self.source_map() =~= partly_filled(m0, range, t, 0, 0));
        }
        let mut dy: usize = 0;
        while dy < range.height
            invariant
                0 <= dy <= range.height,
                range.wf(),
                self.wf(),
                self.source_map() == partly_filled(m0, range, t, dy as int, 0),
                content@ == t,
                self.value_map() == old(self).value_map(),
                self.pending_edit() == old(self).pending_edit(),
                self.visual_anchor() == old(self).visual_anchor(),
                self.clipboard_view() == old(self).clipboard_view(),
            decreases range.height - dy,
        {
            let mut dx: usize = 0;
            while dx < range.width
                invariant
                    0 <= dx <= range.width,
                    0 <= dy < range.height,
                    range.wf(),
                    self.wf(),
                    self.source_map() == partly_filled(m0, range, t, dy as int, dx as int),
                    content@ == t,
                    self.value_map() == old(self).value_map(),
                    self.pending_edit() == old(self).pending_edit(),
                    self.visual_anchor() == old(self).visual_anchor(),
                    self.clipboard_view() == old(self).clipboard_view(),
                decreases range.width - dx,
            {
                let pos = CellPos { x: range.start.x + dx, y: range.start.y + dy };
                self.table.set_source(pos, Some(content.clone()));
                proof {
                    assert(partly_filled(m0, range, t, dy as int, dx as int).insert(pos, t)
                        =~= partly_filled(m0, range, t, dy as int, dx as int + 1));
                }
                dx += 1;
            }
            proof {
                assert(partly_filled(m0, range, t, dy as int, range.width as int) =~= partly_filled(
                    m0,
                    range,
                    t,
                    dy as int + 1,
                    0,
                ));
            }
            dy += 1;
        }
        proof {
            assert(partly_filled(m0, range, t, range.height as int, 0) =~= map_filled(
                m0,
                range,
                t,
            ));
        }
    }

    /// The evaluated values of `range` as tabular text, row-major: forces
    /// an evaluation pass, then joins each row's cells with commas and
    /// ends each row with a line break.
    pub fn get_value_range_as_csv(&mut self, range: CellRange) -> (r: String)
        requires
            old(self).wf(),
            range.wf(),
        ensures
            final(self).wf(),
            r@ == csv_rows(old(self).source_map(), range, range.height as nat),
            final(self).source_map() == old(self).source_map(),
            final(self).value_map() == old(self).source_map(),
            final(self).pending_edit() == old(self).pending_edit(),
            final(self).visual_anchor() == old(self).visual_anchor(),
            final(self).clipboard_view() == old(self).clipboard_view(),
    {
        self.table.evaluate();
        let ghost m = old(self).source_map();
        let mut out = String::new();
        let mut dy: usize = 0;
        proof {
            assert(out@ =~= csv_rows(m, range, 0));
        }
        while dy < range.height
            invariant
                0 <= dy <= range.height,
                range.wf(),
                self.wf(),
                out@ == csv_rows(m, range, dy as nat),
                self.value_map() == m,
                self.source_map() == old(self).source_map(),
                self.value_map() == old(self).source_map(),
                self.pending_edit() == old(self).pending_edit(),
                self.visual_anchor() == old(self).visual_anchor(),
                self.clipboard_view() == old(self).clipboard_view(),
            decreases range.height - dy,
        {
            let y = range.start.y + dy;
            let ghost row_start = out@;
            let mut dx: usize = 0;
            while dx < range.width
                invariant
                    0 <= dx <= range.width,
                    0 <= dy < range.height,
                    y == range.start.y + dy,
                    range.wf(),
                    self.wf(),
                    row_start == csv_rows(m, range, dy as nat),
                    out@ == row_start + csv_row(m, y, range.start.x, dx as nat),
                    self.value_map() == m,
                    self.source_map() == old(self).source_map(),
                    self.value_map() == old(self).source_map(),
                    self.pending_edit() == old(self).pending_edit(),
                    self.visual_anchor() == old(self).visual_anchor(),
                    self.clipboard_view() == old(self).clipboard_view(),
                decreases range.width - dx,
            {
                if dx > 0 {
                    out.append(",");
                }
                let pos = CellPos { x: range.start.x + dx, y };
                let cell = match self.table.get(pos) {
                    Some(s) => s,
                    None => String::new(),
                };
                out.append(cell.as_str());
                proof {
                    reveal_strlit(",");
                    assert(cell@ == text_or_empty(m, pos));
                    if dx == 0 {
                        assert(row_start + csv_row(m, y, range.start.x, 0) + cell@ =~= row_start
                            + csv_row(m, y, range.start.x, 1));
                    } else {
                        assert(","@ =~= seq![',']);
                        assert(row_start + csv_row(m, y, range.start.x, dx as nat) + ","@ + cell@
                            =~= row_start + csv_row(m, y, range.start.x, dx as nat + 1));
                    }
                }
                dx += 1;
            }
            out.append("\n");
            proof {
                reveal_strlit("\n");
                assert("\n"@ =~= seq!['\n']);
                assert(row_start + csv_row(m, y, range.start.x, range.width as nat) + "\n"@
                    =~= csv_rows(m, range, dy as nat + 1));
            }
            dy += 1;
        }
        out
    }

    /// Copies the evaluated values of `range`, as tabular text, to the
    /// clipboard.
    pub fn yank_value_range_as_csv(&mut self, range: CellRange)
        requires
            old(self).wf(),
            range.wf(),
        ensures
            final(self).wf(),
            final(self).clipboard_view() == Some(
                csv_rows(old(self).source_map(), range, range.height as nat),
            ),
            final(self).source_map() == old(self).source_map(),
            final(self).value_map() == old(self).source_map(),
            final(self).pending_edit() == old(self).pending_edit(),
            final(self).visual_anchor() == old(self).visual_anchor(),
    {
        let text = self.get_value_range_as_csv(range);
        self.clipboard.set(text);
    }
}

/// Only one edit may be pending per surface: in a state left by a
/// successful `begin_edit` — one whose pending edit is `Some` — no
/// further edit can begin until a commit clears it, since `begin_edit`
/// succeeds exactly on `can_begin_edit`.
pub proof fn lemma_single_pending_edit(s: EditorState, p1: CellPos)
    requires
        s.pending_edit() == Some(p1),
    ensures
        !s.can_begin_edit(),
{
}

} // verus!
