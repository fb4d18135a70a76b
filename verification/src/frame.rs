//! The render protocol: the frame that shows a navigation state.

use vstd::prelude::*;
use vstd::string::StringExecFns;
use crate::nav::{NavigationState, Position};
use crate::text::{chars_of, decimal, push_decimal};

verus! {

/// The line that tells which keys do what.
pub const HEADER: &'static str = "Navigate: ↑ ↓ pageUp pageDown; Choose: space →> ";

/// What stands before the chosen item.
pub const CHOSEN_MARK: &'static str = ">>> ";

/// What stands before every other item.
pub const PLAIN_MARK: &'static str = "    ";

/// What the footer begins with.
pub const PAGE_LABEL: &'static str = "page ";

/// How much is shown around the items.
#[derive(Clone, Copy, Debug, PartialEq, Eq, Structural)]
pub enum ViewMode {
    /// Header above the items, and a footer below them where the list has
    /// more than one page.
    Full,
    /// The items alone.
    Minimal,
}

/// One line of a frame.
#[derive(Debug, PartialEq, Eq)]
pub struct Line {
    pub text: String,
    pub highlighted: bool,
}

/// The mathematical picture of a `Line`.
pub struct LineView {
    pub text: Seq<char>,
    pub highlighted: bool,
}

impl View for Line {
    type V = LineView;

    open spec fn view(&self) -> LineView {
        LineView { text: self.text@, highlighted: self.highlighted }
    }
}

/// What one redraw paints.
#[derive(Debug, PartialEq, Eq)]
pub struct RenderFrame {
    /// The lines, top to bottom.
    pub lines: Vec<Line>,
    /// How many lines the cursor goes up, once they are printed, to stand
    /// on the first of them again.
    pub rewind: usize,
    /// The line of the frame, counted from zero, that shows the chosen item.
    pub highlight_row: usize,
}

/// The mathematical picture of a `RenderFrame`.
pub struct FrameView {
    pub lines: Seq<LineView>,
    pub rewind: int,
    pub highlight_row: int,
}

impl View for RenderFrame {
    type V = FrameView;

    open spec fn view(&self) -> FrameView {
        FrameView {
            lines: line_views(self.lines@),
            rewind: self.rewind as int,
            highlight_row: self.highlight_row as int,
        }
    }
}

/// The views of a list of lines.
pub open spec fn line_views(lines: Seq<Line>) -> Seq<LineView> {
    lines.map_values(|line: Line| line@)
}

/// The name that asks for the full view.
pub open spec fn full_view_name() -> Seq<char> {
    seq!['a', 'l', 'l']
}

/// The view mode that a name asks for.
pub open spec fn view_mode_of(name: Seq<char>) -> ViewMode {
    if name == full_view_name() {
        ViewMode::Full
    } else {
        ViewMode::Minimal
    }
}

/// A line of text without highlight.
pub open spec fn plain_line(text: Seq<char>) -> LineView {
    LineView { text, highlighted: false }
}

/// An empty line.
pub open spec fn blank_line() -> LineView {
    plain_line(Seq::empty())
}

/// How many pages a list of `len` items has.
pub open spec fn page_count(len: int, page_size: int) -> int {
    (len + page_size - 1) / page_size
}

/// How many lines stand above the items.
pub open spec fn header_height(mode: ViewMode) -> int {
    if mode == ViewMode::Full {
        2
    } else {
        0
    }
}

/// Whether a footer is shown.
pub open spec fn has_footer(len: int, page_size: int, mode: ViewMode) -> bool {
    mode == ViewMode::Full && page_count(len, page_size) > 1
}

/// How many lines every frame has.
pub open spec fn frame_height(len: int, page_size: int, mode: ViewMode) -> int {
    header_height(mode) + page_size + if has_footer(len, page_size, mode) {
        2int
    } else {
        0int
    }
}

/// The lines above the items.
pub open spec fn header_lines(mode: ViewMode) -> Seq<LineView> {
    if mode == ViewMode::Full {
        seq![plain_line(HEADER@), blank_line()]
    } else {
        Seq::empty()
    }
}

/// The row at `offset` of the page: the item with its mark, the chosen one
/// highlighted, or an empty line below the last item.
pub open spec fn item_row(items: Seq<Seq<char>>, p: Position, offset: int) -> LineView {
    let index = p.page_start + offset;
    if index >= items.len() {
        blank_line()
    } else if index == p.selected {
        LineView { text: CHOSEN_MARK@ + items[index], highlighted: true }
    } else {
        LineView { text: PLAIN_MARK@ + items[index], highlighted: false }
    }
}

/// The rows of the page: as many as the page size, whatever the page holds.
pub open spec fn item_rows(items: Seq<Seq<char>>, p: Position, page_size: int) -> Seq<LineView> {
    Seq::new(page_size as nat, |offset: int| item_row(items, p, offset))
}

/// The text of the footer: the page shown and the number of pages.
pub open spec fn footer_text(len: int, p: Position, page_size: int) -> Seq<char> {
    PAGE_LABEL@ + decimal((p.page_start / page_size + 1) as nat) + seq!['/'] + decimal(
        page_count(len, page_size) as nat,
    )
}

/// The lines below the items.
pub open spec fn footer_lines(
    len: int,
    p: Position,
    page_size: int,
    mode: ViewMode,
) -> Seq<LineView> {
    if has_footer(len, page_size, mode) {
        seq![blank_line(), plain_line(footer_text(len, p, page_size))]
    } else {
        Seq::empty()
    }
}

/// The lines of the frame, top to bottom.
pub open spec fn frame_lines(
    items: Seq<Seq<char>>,
    p: Position,
    page_size: int,
    mode: ViewMode,
) -> Seq<LineView> {
    header_lines(mode) + item_rows(items, p, page_size) + footer_lines(
        items.len() as int,
        p,
        page_size,
        mode,
    )
}

/// The frame that shows position `p` of the items.
pub open spec fn frame_of(
    items: Seq<Seq<char>>,
    p: Position,
    page_size: int,
    mode: ViewMode,
) -> FrameView {
    FrameView {
        lines: frame_lines(items, p, page_size, mode),
        rewind: frame_height(items.len() as int, page_size, mode),
        highlight_row: header_height(mode) + p.selected - p.page_start,
    }
}

/// The view mode that a name asks for: the full view for `all`, the
/// minimal view for every other name.
pub fn view_mode_for(name: &str) -> (mode: ViewMode)
    ensures
        mode == view_mode_of(name@),
{
    let v = chars_of(name);
    if v.len() == 3 && v[0] == 'a' && v[1] == 'l' && v[2] == 'l' {
        assert(name@ =~= full_view_name());
        ViewMode::Full
    } else {
        ViewMode::Minimal
    }
}

/// A line of text without highlight.
fn plain(text: String) -> (line: Line)
    ensures
        line@ == plain_line(text@),
{
    Line { text, highlighted: false }
}

/// The row that shows an item: its mark, then its text.
fn item_line(item: &String, chosen: bool) -> (line: Line)
    ensures
        line@ == (LineView {
            text: if chosen {
                CHOSEN_MARK@
            } else {
                PLAIN_MARK@
            } + item@,
            highlighted: chosen,
        }),
{
    let mut text = if chosen {
        CHOSEN_MARK.to_owned()
    } else {
        PLAIN_MARK.to_owned()
    };
    text.append(item.as_str());
    Line { text, highlighted: chosen }
}

/// The footer: which page is shown, and of how many.
fn footer_line(len: usize, state: NavigationState, page_size: usize) -> (line: Line)
    requires
        state@.valid(len as int, page_size as int),
    ensures
        line@ == plain_line(footer_text(len as int, state@, page_size as int)),
{
    let mut text = PAGE_LABEL.to_owned();
    push_decimal(&mut text, state.page_start / page_size + 1);
    text.push('/');
    push_decimal(&mut text, count_pages(len, page_size));
    assert(text@ =~= footer_text(len as int, state@, page_size as int));
    plain(text)
}

/// The frame for a state: header and footer as the view mode asks, and
/// between them one row for each place of the page, filled or empty, so that
/// every frame of a session has the same height.
pub fn render_frame(
    items: &Vec<String>,
    state: NavigationState,
    page_size: usize,
    mode: ViewMode,
) -> (frame: RenderFrame)
    requires
        state@.valid(items.len() as int, page_size as int),
        page_size + 4 <= usize::MAX,
    ensures
        frame@ == frame_of(items.deep_view(), state@, page_size as int, mode),
        frame.lines.len() == frame_height(items.len() as int, page_size as int, mode),
{
    let len = items.len();
    let chrome = mode == ViewMode::Full;
    let ghost texts = items.deep_view();
    let ghost rows = item_rows(texts, state@, page_size as int);
    let mut lines: Vec<Line> = Vec::new();
    if chrome {
        lines.push(plain(HEADER.to_owned()));
        lines.push(plain(String::new()));
    }
    let top = lines.len();
    assert(line_views(lines@) =~= header_lines(mode) + rows.take(0));
    let on_page = len - state.page_start;
    let mut offset: usize = 0;
    while offset < page_size
        invariant
            offset <= page_size,
            page_size + 4 <= usize::MAX,
            state@.valid(len as int, page_size as int),
            len == items.len(),
            texts == items.deep_view(),
            rows == item_rows(texts, state@, page_size as int),
            on_page == len - state.page_start,
            top == header_height(mode),
            lines.len() == top + offset,
            line_views(lines@) == header_lines(mode) + rows.take(offset as int),
        decreases page_size - offset,
    {
        let ghost before = lines@;
        let line = if offset < on_page {
            let index = state.page_start + offset;
            item_line(&items[index], index == state.selected)
        } else {
            plain(String::new())
        };
        assert(line@ == rows[offset as int]);
        lines.push(line);
        offset += 1;
        assert(line_views(lines@) =~= line_views(before).push(line@));
        assert(rows.take(offset as int) =~= rows.take(offset - 1).push(rows[offset - 1]));
        assert(line_views(lines@) =~= header_lines(mode) + rows.take(offset as int));
    }
    assert(rows.take(page_size as int) =~= rows);
    if chrome && count_pages(len, page_size) > 1 {
        let ghost before = lines@;
        let footer = footer_line(len, state, page_size);
        lines.push(plain(String::new()));
        lines.push(footer);
        assert(line_views(lines@) =~= line_views(before).push(blank_line()).push(footer@));
    }
    assert(line_views(lines@) =~= frame_lines(texts, state@, page_size as int, mode));
    let rewind = lines.len();
    RenderFrame { lines, rewind, highlight_row: top + (state.selected - state.page_start) }
}

/// The number of pages of a list of `len` items.
pub fn count_pages(len: usize, page_size: usize) -> (pages: usize)
    requires
        page_size >= 1,
    ensures
        pages == page_count(len as int, page_size as int),
{
    if len == 0 {
        assert(page_count(0, page_size as int) == 0) by {
            vstd::arithmetic::div_mod::lemma_fundamental_div_mod_converse(
                page_size - 1,
                page_size as int,
                0,
                page_size - 1,
            );
        }
        0
    } else {
        proof {
            lemma_page_count(len as int, page_size as int);
        }
        (len - 1) / page_size + 1
    }
}

/// Every frame of a session has the same height: whichever valid positions
/// two frames show, they have as many lines, and that many lines the cursor
/// goes up after each.
pub proof fn lemma_frame_height_is_constant(
    items: Seq<Seq<char>>,
    p: Position,
    q: Position,
    page_size: int,
    mode: ViewMode,
)
    requires
        p.valid(items.len() as int, page_size),
        q.valid(items.len() as int, page_size),
    ensures
        frame_lines(items, p, page_size, mode).len() == frame_height(
            items.len() as int,
            page_size,
            mode,
        ),
        frame_lines(items, p, page_size, mode).len() == frame_lines(
            items,
            q,
            page_size,
            mode,
        ).len(),
        frame_of(items, p, page_size, mode).rewind == frame_of(items, q, page_size, mode).rewind,
{
}

/// The frame shows the chosen item on the row it reports, highlighted and
/// with the mark of the chosen item, and highlights no other line.
pub proof fn lemma_highlight_row(items: Seq<Seq<char>>, p: Position, page_size: int, mode: ViewMode)
    requires
        p.valid(items.len() as int, page_size),
    ensures
        ({
            let frame = frame_of(items, p, page_size, mode);
            &&& 0 <= frame.highlight_row < frame.lines.len()
            &&& frame.lines[frame.highlight_row] == (LineView {
                text: CHOSEN_MARK@ + items[p.selected],
                highlighted: true,
            })
            &&& forall|i: int|
                0 <= i < frame.lines.len() && i != frame.highlight_row
                    ==> !(#[trigger] frame.lines[i]).highlighted
        }),
{
    let frame = frame_of(items, p, page_size, mode);
    let top = header_height(mode);
    let rows = item_rows(items, p, page_size);
    assert(frame.lines[frame.highlight_row] == rows[p.selected - p.page_start]);
    assert forall|i: int|
        0 <= i < frame.lines.len() && i != frame.highlight_row implies !(
    #[trigger] frame.lines[i]).highlighted by {
        if top <= i < top + page_size {
            assert(frame.lines[i] == rows[i - top]);
        }
    }
}

/// A list that fits on one page gets no footer, in either view mode.
pub proof fn lemma_single_page_has_no_footer(len: int, page_size: int, mode: ViewMode)
    requires
        1 <= len <= page_size,
    ensures
        page_count(len, page_size) == 1,
        !has_footer(len, page_size, mode),
{
    lemma_page_count(len, page_size);
}

/// The number of pages is one more than the pages that lie wholly before
/// the last item.
pub proof fn lemma_page_count(len: int, page_size: int)
    requires
        len >= 1,
        page_size >= 1,
    ensures
        page_count(len, page_size) == (len - 1) / page_size + 1,
        page_count(len, page_size) >= 1,
        page_count(len, page_size) > 1 <==> len > page_size,
{
    let q = (len - 1) / page_size;
    let r = (len - 1) % page_size;
    vstd::arithmetic::div_mod::lemma_fundamental_div_mod(len - 1, page_size);
    assert((q + 1) * page_size == page_size * q + page_size) by (nonlinear_arith);
    vstd::arithmetic::div_mod::lemma_fundamental_div_mod_converse(
        len + page_size - 1,
        page_size,
        q + 1,
        r,
    );
    assert(q >= 0) by (nonlinear_arith)
        requires
            len - 1 == page_size * q + r,
            0 <= r < page_size,
            len >= 1,
    ;
    if q >= 1 {
        assert(page_size * q >= page_size) by (nonlinear_arith)
            requires
                q >= 1,
                page_size >= 1,
        ;
    } else {
        assert(page_size * q == 0) by (nonlinear_arith)
            requires
                q == 0,
        ;
    }
}

} // verus!
