use vstd::prelude::*;

use crate::manager::registry::{ids_of, TerminalInfo, TerminalRegistry};
use crate::status::events::TerminalEvent;
use crate::status::query::TerminalState;
use crate::terminal::cell::{plain_attrs, CellAttributes, Color, Cursor, TerminalCell};
use crate::terminal::grid::TerminalGrid;
use crate::terminal::model::rows_view;
use crate::text::chars_to_string;
use crate::web::interaction::InteractionEntry;

verus! {

/// A span of consecutive characters with identical attributes (RLE compression)
#[derive(Debug, Clone)]
pub struct WsSpan {
    pub text: String,
    pub fg: Color,
    pub bg: Color,
    pub attrs: CellAttributes,
}

/// A single row of spans
#[derive(Debug, Clone)]
pub struct WsRow {
    pub row: usize,
    pub spans: Vec<WsSpan>,
}

/// Server -> Client WebSocket messages
#[derive(Debug)]
pub enum WsServerMessage {
    ScreenSnapshot {
        terminal_id: String,
        cols: usize,
        rows: usize,
        screen_rows: Vec<WsRow>,
        cursor: Cursor,
        state: TerminalState,
    },
    ScreenUpdate { terminal_id: String, changed_rows: Vec<WsRow>, cursor: Cursor, state: TerminalState },
    TerminalEvent { terminal_id: String, event: TerminalEvent },
    Interaction { entry: InteractionEntry },
    TerminalList { terminals: Vec<TerminalInfo> },
}

/// Client -> Server WebSocket messages
#[derive(Debug)]
pub enum WsClientMessage {
    /// Subscribe to a specific terminal's updates
    Subscribe { terminal_id: String },
    /// Request the current terminal list
    ListTerminals,
}

/// The mathematical form of a span: its text as characters and its style.
pub struct SpanView {
    pub text: Seq<char>,
    pub fg: Color,
    pub bg: Color,
    pub attrs: CellAttributes,
}

impl View for WsSpan {
    type V = SpanView;

    open spec fn view(&self) -> SpanView {
        SpanView { text: self.text@, fg: self.fg, bg: self.bg, attrs: self.attrs }
    }
}

/// A character with the colors and attributes it is drawn with.
pub type Styled = (char, Color, Color, CellAttributes);

/// What a cell shows, apart from whether it is wide.
pub open spec fn styled(c: TerminalCell) -> Styled {
    (c.c, c.fg, c.bg, c.attrs)
}

/// Whether a cell is drawn in the span's style.
pub open spec fn same_style(s: SpanView, c: TerminalCell) -> bool {
    s.fg == c.fg && s.bg == c.bg && s.attrs == c.attrs
}

/// Whether two spans share a style.
pub open spec fn spans_share_style(a: SpanView, b: SpanView) -> bool {
    a.fg == b.fg && a.bg == b.bg && a.attrs == b.attrs
}

/// The span of a single cell.
pub open spec fn span_of(c: TerminalCell) -> SpanView {
    SpanView { text: seq![c.c], fg: c.fg, bg: c.bg, attrs: c.attrs }
}

/// The run-length encoding of a row: each run of neighbouring cells in the
/// same style becomes one span.
pub open spec fn rle(cells: Seq<TerminalCell>) -> Seq<SpanView>
    decreases cells.len(),
{
    if cells.len() == 0 {
        Seq::empty()
    } else {
        let prev = rle(cells.drop_last());
        let c = cells.last();
        if prev.len() > 0 && same_style(prev.last(), c) {
            prev.update(
                prev.len() - 1,
                SpanView { text: prev.last().text.push(c.c), ..prev.last() },
            )
        } else {
            prev.push(span_of(c))
        }
    }
}

/// The characters of a span, each with the span's style.
pub open spec fn span_cells(s: SpanView) -> Seq<Styled> {
    s.text.map_values(|ch: char| (ch, s.fg, s.bg, s.attrs))
}

/// The styled characters that a list of spans stands for, in order.
pub open spec fn expand(spans: Seq<SpanView>) -> Seq<Styled>
    decreases spans.len(),
{
    if spans.len() == 0 {
        Seq::empty()
    } else {
        expand(spans.drop_last()) + span_cells(spans.last())
    }
}

/// Whether a color is the default one (a span leaves such a color out of
/// its message).
pub fn is_default_color(c: &Color) -> (b: bool)
    ensures
        b == (*c == Color::Default),
{
    match c {
        Color::Default => true,
        _ => false,
    }
}

/// Whether no attribute flag is set (a span leaves such attributes out of
/// its message).
pub fn is_default_attrs(a: &CellAttributes) -> (b: bool)
    ensures
        b == (*a == plain_attrs()),
{
    *a == CellAttributes::default()
}

fn make_span(text: &Vec<char>, fg: Color, bg: Color, attrs: CellAttributes) -> (s: WsSpan)
    ensures
        s@ == (SpanView { text: text@, fg, bg, attrs }),
{
    WsSpan { text: chars_to_string(text), fg, bg, attrs }
}

/// Compress a row of TerminalCells into spans (RLE by attributes)
pub fn cells_to_spans(cells: &[TerminalCell]) -> (spans: Vec<WsSpan>)
    ensures
        spans@.map_values(|s: WsSpan| s@) == rle(cells@),
{
    if cells.len() == 0 {
        assert(spans_views(Seq::empty()) =~= rle(cells@));
        return Vec::new();
    }
    let mut spans: Vec<WsSpan> = Vec::new();
    let mut current_text: Vec<char> = Vec::new();
    let mut current_fg = cells[0].fg;
    let mut current_bg = cells[0].bg;
    let mut current_attrs = cells[0].attrs;
    let mut i: usize = 0;
    while i < cells.len()
        invariant
            i <= cells@.len(),
            cells@.len() > 0,
            i == 0 ==> spans@.len() == 0 && current_text@.len() == 0 && current_fg == cells@[0].fg
                && current_bg == cells@[0].bg && current_attrs == cells@[0].attrs,
            i > 0 ==> current_text@.len() > 0 && spans_views(spans@).push(
                SpanView { text: current_text@, fg: current_fg, bg: current_bg, attrs: current_attrs },
            ) == rle(cells@.subrange(0, i as int)),
        decreases cells@.len() - i,
    {
        let cell = cells[i];
        let ghost prefix = cells@.subrange(0, i as int);
        let ghost next = cells@.subrange(0, i + 1);
        assert(next.drop_last() =~= prefix);
        assert(next.last() == cell);
        if cell.fg == current_fg && cell.bg == current_bg && cell.attrs == current_attrs {
            let ghost old_cur = SpanView { text: current_text@, fg: current_fg, bg: current_bg, attrs: current_attrs };
            current_text.push(cell.c);
            proof {
                if i > 0 {
                    let prev = rle(prefix);
                    assert(prev.len() > 0 && prev.last() == old_cur);
                    assert(same_style(prev.last(), cell));
                    assert(rle(next) == prev.update(prev.len() - 1, SpanView { text: old_cur.text.push(cell.c), ..old_cur }));
                }
                if i == 0 {
                    assert(prefix =~= Seq::<TerminalCell>::empty());
                    assert(rle(prefix) =~= Seq::<SpanView>::empty());
                    assert(spans_views(spans@) =~= Seq::<SpanView>::empty());
                    assert(current_text@ =~= seq![cell.c]);
                    assert(spans_views(spans@).push(
                        SpanView { text: current_text@, fg: current_fg, bg: current_bg, attrs: current_attrs },
                    ) =~= rle(next));
                } else {
                    assert(spans_views(spans@).push(
                        SpanView { text: current_text@, fg: current_fg, bg: current_bg, attrs: current_attrs },
                    ) =~= rle(next));
                }
            }
        } else {
            proof {
                if i == 0 {
                    assert(false);
                }
            }
            let ghost before = spans@;
            let span = make_span(&current_text, current_fg, current_bg, current_attrs);
            spans.push(span);
            assert(spans_views(spans@) =~= spans_views(before).push(span@));
            current_text = Vec::new();
            current_text.push(cell.c);
            current_fg = cell.fg;
            current_bg = cell.bg;
            current_attrs = cell.attrs;
            assert(spans_views(spans@).push(
                SpanView { text: current_text@, fg: current_fg, bg: current_bg, attrs: current_attrs },
            ) =~= rle(next));
        }
        i = i + 1;
    }
    let ghost before = spans@;
    let span = make_span(&current_text, current_fg, current_bg, current_attrs);
    spans.push(span);
    assert(spans_views(spans@) =~= spans_views(before).push(span@));
    assert(cells@.subrange(0, cells@.len() as int) =~= cells@);
    spans
}

/// The views of a list of spans.
pub open spec fn spans_views(spans: Seq<WsSpan>) -> Seq<SpanView> {
    spans.map_values(|s: WsSpan| s@)
}

/// Build WsRow from a grid row at a given index
pub fn row_to_ws_row(row_idx: usize, cells: &[TerminalCell]) -> (r: WsRow)
    ensures
        r.row == row_idx,
        spans_views(r.spans@) == rle(cells@),
{
    WsRow { row: row_idx, spans: cells_to_spans(cells) }
}

/// Whether `r` is row `i` of `rows`, compressed.
pub open spec fn is_ws_row(r: WsRow, i: nat, rows: Seq<Seq<TerminalCell>>) -> bool {
    r.row == i && i < rows.len() && spans_views(r.spans@) == rle(rows[i as int])
}

/// Every row of a screen, compressed, top to bottom.
pub fn screen_ws_rows(grid: &TerminalGrid) -> (out: Vec<WsRow>)
    ensures
        out@.len() == grid@.screen.rows.len(),
        forall|i: int| 0 <= i < out@.len() ==> is_ws_row(#[trigger] out@[i], i as nat, grid@.screen.rows),
{
    let rows = grid.get_rows();
    let mut out: Vec<WsRow> = Vec::new();
    let mut i: usize = 0;
    while i < rows.len()
        invariant
            i <= rows@.len(),
            rows_view(rows@) == grid@.screen.rows,
            out@.len() == i,
            forall|k: int| 0 <= k < i ==> is_ws_row(#[trigger] out@[k], k as nat, grid@.screen.rows),
        decreases rows@.len() - i,
    {
        let row = row_to_ws_row(i, rows[i].as_slice());
        assert(rows@[i as int]@ == grid@.screen.rows[i as int]);
        out.push(row);
        i = i + 1;
    }
    out
}

/// The listed rows that exist on the screen, compressed, in the order
/// listed.
pub open spec fn listed_ws_rows(out: Seq<WsRow>, rows: Seq<Seq<TerminalCell>>, idx: Seq<usize>) -> bool {
    let kept = idx.filter(|i: usize| (i as nat) < rows.len());
    &&& out.len() == kept.len()
    &&& forall|k: int| 0 <= k < out.len() ==> is_ws_row(#[trigger] out[k], kept[k] as nat, rows)
}

/// The rows at `indices` that exist on the screen, compressed.
pub fn changed_ws_rows(grid: &TerminalGrid, indices: &[usize]) -> (out: Vec<WsRow>)
    ensures
        listed_ws_rows(out@, grid@.screen.rows, indices@),
{
    let rows = grid.get_rows();
    let mut out: Vec<WsRow> = Vec::new();
    let mut k: usize = 0;
    while k < indices.len()
        invariant
            k <= indices@.len(),
            rows_view(rows@) == grid@.screen.rows,
            listed_ws_rows(out@, grid@.screen.rows, indices@.subrange(0, k as int)),
        decreases indices@.len() - k,
    {
        let i = indices[k];
        let ghost pre = indices@.subrange(0, k as int);
        let ghost next = indices@.subrange(0, k + 1);
        assert(next == pre.push(i));
        proof {
            reveal(Seq::filter);
            assert(next.drop_last() =~= pre);
        }
        if i < rows.len() {
            let row = row_to_ws_row(i, rows[i].as_slice());
            assert(rows@[i as int]@ == grid@.screen.rows[i as int]);
            out.push(row);
        }
        k = k + 1;
        assert(listed_ws_rows(out@, grid@.screen.rows, next));
    }
    assert(indices@.subrange(0, indices@.len() as int) =~= indices@);
    out
}

/// The full picture of a terminal for a viewer that subscribes, if there
/// is a terminal with that identifier.
pub fn build_snapshot(registry: &TerminalRegistry, terminal_id: &str) -> (msg: Option<WsServerMessage>)
    ensures
        msg is None <==> !ids_of(registry@.instances).contains(terminal_id@),
        msg matches Some(m) ==> m matches WsServerMessage::ScreenSnapshot {
            terminal_id: id,
            cols,
            rows,
            screen_rows,
            cursor,
            state,
        } && exists|t: int|
            0 <= t < registry@.instances.len() && registry@.instances[t].id == terminal_id@ && {
                let v = registry@.instances[t];
                &&& id@ == terminal_id@
                &&& cols == v.grid.screen.cols
                &&& rows == v.grid.screen.rows_count
                &&& cursor == v.grid.cur.cursor
                &&& state == v.process_state
                &&& screen_rows@.len() == v.grid.screen.rows.len()
                &&& forall|i: int| 0 <= i < screen_rows@.len() ==> is_ws_row(#[trigger] screen_rows@[i], i as nat, v.grid.screen.rows)
            },
{
    match registry.get(terminal_id) {
        Some(instance) => {
            proof {
                let k = choose|k: int| 0 <= k < registry@.instances.len() && registry@.instances[k] == instance@;
                assert(ids_of(registry@.instances)[k] == terminal_id@);
            }
            let grid = instance.grid();
            let screen_rows = screen_ws_rows(grid);
            let id_chars = crate::text::chars_of(terminal_id);
            Some(WsServerMessage::ScreenSnapshot {
                terminal_id: chars_to_string(&id_chars),
                cols: instance.cols(),
                rows: instance.rows(),
                screen_rows,
                cursor: grid.cursor(),
                state: instance.state(),
            })
        },
        None => None,
    }
}

/// The spans of a row stand for exactly its characters, each in the style
/// of its cell: nothing is lost, added or reordered by the compression.
pub proof fn lemma_rle_expands(cells: Seq<TerminalCell>)
    ensures
        expand(rle(cells)) == cells.map_values(|c: TerminalCell| styled(c)),
    decreases cells.len(),
{
    if cells.len() > 0 {
        let prev = rle(cells.drop_last());
        let c = cells.last();
        lemma_rle_expands(cells.drop_last());
        assert(cells.map_values(|c: TerminalCell| styled(c)) =~= cells.drop_last().map_values(
            |c: TerminalCell| styled(c),
        ).push(styled(c)));
        if prev.len() > 0 && same_style(prev.last(), c) {
            let ext = SpanView { text: prev.last().text.push(c.c), ..prev.last() };
            let upd = prev.update(prev.len() - 1, ext);
            assert(upd.drop_last() =~= prev.drop_last());
            assert(span_cells(ext) =~= span_cells(prev.last()).push(styled(c)));
            assert(expand(upd) =~= expand(prev).push(styled(c)));
        } else {
            assert(prev.push(span_of(c)).drop_last() =~= prev);
            assert(span_cells(span_of(c)) =~= seq![styled(c)]);
        }
    }
}

/// The compression is maximal: no span is empty, and neighbouring spans
/// differ in style; there are never more spans than cells.
pub proof fn lemma_rle_maximal(cells: Seq<TerminalCell>)
    ensures
        rle(cells).len() <= cells.len(),
        forall|i: int| 0 <= i < rle(cells).len() ==> #[trigger] rle(cells)[i].text.len() > 0,
        forall|i: int|
            0 <= i < rle(cells).len() - 1 ==> !spans_share_style(#[trigger] rle(cells)[i], rle(cells)[i + 1]),
    decreases cells.len(),
{
    if cells.len() > 0 {
        lemma_rle_maximal(cells.drop_last());
    }
}

} // verus!
