//! The screen's geometry: where the sidebar, the active screen, the
//! command bar and the status line go, and how many rows a page is.
//!
//! The arithmetic of splitting an area under constraints is ratatui's
//! `Layout`, called here rather than redone: the renderers split with the
//! same solver, so paging and drawing cannot disagree about a row. When
//! the area holds what the constraints ask for, the solver's answer is the
//! only optimum and is stated exactly; when it is too small, several
//! answers are equally good and which one comes back is left open.

use vstd::prelude::*;
use crate::app::Screen;
use crate::components::{sat_sub, Rect};
use ratatui::layout::{Constraint as Cut, Direction as Axis, Layout, Rect as Cells};

verus! {

pub const SIDEBAR_WIDTH: u16 = 24;
pub const COMMAND_HEIGHT: u16 = 3;
pub const STATUS_HEIGHT: u16 = 1;
pub const PREVIEW_HEIGHT: u16 = 8;

/// Which way an area is cut.
#[derive(Debug, Clone, Copy, PartialEq, Eq, Structural)]
pub enum Direction {
    Horizontal,
    Vertical,
}

/// What one slice of a split asks for.
#[derive(Debug, Clone, Copy, PartialEq, Eq, Structural)]
pub enum Constraint {
    /// At least this many cells, more when there is room.
    Min(u16),
    /// Exactly this many cells, when there is room.
    Length(u16),
}

/// Whether `slice` spans the whole of `area` across a cut in `direction`:
/// the full width of a vertical cut, the full height of a horizontal one.
pub open spec fn spans(slice: Rect, area: Rect, direction: Direction) -> bool {
    match direction {
        Direction::Vertical => slice.x == area.x && slice.width == area.width,
        Direction::Horizontal => slice.y == area.y && slice.height == area.height,
    }
}

/// How long `area` is along a cut in `direction`.
pub open spec fn extent(area: Rect, direction: Direction) -> int {
    match direction {
        Direction::Vertical => area.height as int,
        Direction::Horizontal => area.width as int,
    }
}

/// Where `area` begins along a cut in `direction`.
pub open spec fn origin(area: Rect, direction: Direction) -> int {
    match direction {
        Direction::Vertical => area.y as int,
        Direction::Horizontal => area.x as int,
    }
}

/// How many of the constraints are `Min`.
pub open spec fn mins(cs: Seq<Constraint>) -> nat
    decreases cs.len(),
{
    if cs.len() == 0 {
        0
    } else {
        mins(cs.drop_last()) + match cs.last() {
            Constraint::Min(_) => 1nat,
            Constraint::Length(_) => 0nat,
        }
    }
}

/// The cells the `Length` constraints ask for, together.
pub open spec fn lengths(cs: Seq<Constraint>) -> int
    decreases cs.len(),
{
    if cs.len() == 0 {
        0
    } else {
        lengths(cs.drop_last()) + match cs.last() {
            Constraint::Min(_) => 0int,
            Constraint::Length(n) => n as int,
        }
    }
}

/// The cells all the constraints ask for at the least, together.
pub open spec fn asked(cs: Seq<Constraint>) -> int
    decreases cs.len(),
{
    if cs.len() == 0 {
        0
    } else {
        asked(cs.drop_last()) + match cs.last() {
            Constraint::Min(n) => n as int,
            Constraint::Length(n) => n as int,
        }
    }
}

/// Whether `area` holds what the constraints ask for: one slice that
/// grows (`Min`), the rest of fixed length, all of it fitting along the
/// cut, and the area's far edge on the terminal's grid.
pub open spec fn fits(area: Rect, direction: Direction, cs: Seq<Constraint>) -> bool {
    &&& mins(cs) == 1
    &&& asked(cs) <= extent(area, direction)
    &&& origin(area, direction) + extent(area, direction) <= u16::MAX
}

/// How long a slice is along the cut, when the area fits: a `Length`
/// slice exactly its length, the `Min` slice everything the lengths leave.
pub open spec fn slice_size(c: Constraint, cs: Seq<Constraint>, extent: int) -> int {
    match c {
        Constraint::Length(n) => n as int,
        Constraint::Min(_) => extent - lengths(cs),
    }
}

/// Where slice `i` begins along the cut, counted from the area's start:
/// the slices follow each other with no gap.
pub open spec fn slice_offset(cs: Seq<Constraint>, i: int, extent: int) -> int
    decreases i,
{
    if i <= 0 {
        0
    } else {
        slice_offset(cs, i - 1, extent) + slice_size(cs[i - 1], cs, extent)
    }
}

/// `slice` is the piece of `area` that begins `offset` cells along the cut
/// and is `size` cells long, spanning the area across it.
pub open spec fn piece(slice: Rect, area: Rect, direction: Direction, offset: int, size: int) -> bool {
    &&& spans(slice, area, direction)
    &&& origin(slice, direction) == origin(area, direction) + offset
    &&& extent(slice, direction) == size
}

/// The rows of `area` from `offset` down, `size` of them, at its width.
pub open spec fn rows_of(area: Rect, offset: int, size: int) -> Rect {
    Rect { x: area.x, y: (area.y + offset) as u16, width: area.width, height: size as u16 }
}

/// The columns of `area` from `offset` across, `size` of them, at its
/// height.
pub open spec fn cols_of(area: Rect, offset: int, size: int) -> Rect {
    Rect { x: (area.x + offset) as u16, y: area.y, width: size as u16, height: area.height }
}

/// Whether `area`'s far corner lies on the terminal's grid.
pub open spec fn on_grid(area: Rect) -> bool {
    area.x + area.width <= u16::MAX && area.y + area.height <= u16::MAX
}

/// `ratatui::layout::Layout::split` on a default layout (no margin, no
/// spacing, the default flex) with the given direction and constraints.
///
/// Claimed of it: one slice per constraint, in order, and each spans the
/// whole of `area` across the direction of the cut — the source builds
/// every slice from the area's own `x`/`width` (vertical cuts) or
/// `y`/`height` (horizontal ones). When the area fits the constraints
/// (`fits`), each `Length` slice is exactly its length, the one `Min`
/// slice takes the rest, and the slices follow each other from the area's
/// start: the default flex (`Start`) pins the first spacer to nothing and
/// the others to the spacing, zero; a length is held at a strength
/// (`STRONG * 10`) far above the pull of the `Min` slice towards the
/// whole area (`MEDIUM`), which in turn outweighs the last spacer's
/// (`MEDIUM / 10`), so that answer is the solver's only optimum, and its
/// boundaries are whole cells. When the area does not fit, several
/// answers cost the same and which comes back depends on the order the
/// solver walks its hash maps in; nothing is said of it. The required
/// constraints (every boundary inside the area, in order) are met by any
/// area, so it does not fail on these constraints.
#[verifier::external_body]
fn split(area: Rect, direction: Direction, constraints: &[Constraint]) -> (res: Vec<Rect>)
    ensures
        res@.len() == constraints@.len(),
        forall|i: int| 0 <= i < res@.len() ==> spans(#[trigger] res@[i], area, direction),
        fits(area, direction, constraints@) ==> forall|i: int|
            0 <= i < res@.len() ==> piece(
                #[trigger] res@[i],
                area,
                direction,
                slice_offset(constraints@, i, extent(area, direction)),
                slice_size(constraints@[i], constraints@, extent(area, direction)),
            ),
{
    let axis = match direction {
        Direction::Horizontal => Axis::Horizontal,
        Direction::Vertical => Axis::Vertical,
    };
    let cuts: Vec<Cut> = constraints.iter().map(|c| match *c {
        Constraint::Min(n) => Cut::Min(n),
        Constraint::Length(n) => Cut::Length(n),
    }).collect();
    let cells = Cells { x: area.x, y: area.y, width: area.width, height: area.height };
    let slices = Layout::default().direction(axis).constraints(cuts).split(cells);
    slices.iter().map(|r| Rect { x: r.x, y: r.y, width: r.width, height: r.height }).collect()
}

/// `Rect::inner`: the area less a margin on each side, or nothing at all
/// when the margins do not fit.
pub open spec fn inner_view(area: Rect, horizontal: u16, vertical: u16) -> Rect {
    let dh = if 2 * horizontal > u16::MAX { u16::MAX as int } else { 2 * horizontal };
    let dv = if 2 * vertical > u16::MAX { u16::MAX as int } else { 2 * vertical };
    if area.width < dh || area.height < dv {
        Rect { x: 0, y: 0, width: 0, height: 0 }
    } else {
        Rect {
            x: if area.x + horizontal > u16::MAX { u16::MAX } else { (area.x + horizontal) as u16 },
            y: if area.y + vertical > u16::MAX { u16::MAX } else { (area.y + vertical) as u16 },
            width: (area.width - dh) as u16,
            height: (area.height - dv) as u16,
        }
    }
}

/// The area inside a margin of `horizontal` cells left and right and
/// `vertical` cells top and bottom (`Rect::inner`).
pub fn inner(area: Rect, horizontal: u16, vertical: u16) -> (res: Rect)
    ensures
        res == inner_view(area, horizontal, vertical),
{
    let dh: u16 = if horizontal > u16::MAX / 2 {
        u16::MAX
    } else {
        horizontal * 2
    };
    let dv: u16 = if vertical > u16::MAX / 2 {
        u16::MAX
    } else {
        vertical * 2
    };
    if area.width < dh || area.height < dv {
        Rect { x: 0, y: 0, width: 0, height: 0 }
    } else {
        Rect {
            x: area.x.saturating_add(horizontal),
            y: area.y.saturating_add(vertical),
            width: area.width - dh,
            height: area.height - dv,
        }
    }
}

/// The four regions of the whole terminal.
#[derive(Debug, Clone, Copy, PartialEq, Eq, Structural)]
pub struct Areas {
    pub sidebar: Rect,
    pub main: Rect,
    pub command: Rect,
    pub status: Rect,
}

/// Whether a terminal holds the screen's frame: the status line, the
/// command bar and a row of body, and the sidebar and a column of screen.
pub open spec fn main_fits(area: Rect) -> bool {
    area.height >= 5 && area.width >= 25 && on_grid(area)
}

/// The frame of a terminal that holds it: the body on top, then the
/// command bar, then the status line; the body is the sidebar on the
/// left and the active screen on the right.
pub open spec fn main_view(area: Rect) -> Areas {
    let body = rows_of(area, 0, area.height - 4);
    Areas {
        sidebar: cols_of(body, 0, SIDEBAR_WIDTH as int),
        main: cols_of(body, SIDEBAR_WIDTH as int, area.width - SIDEBAR_WIDTH),
        command: rows_of(area, area.height - 4, COMMAND_HEIGHT as int),
        status: rows_of(area, area.height - 1, STATUS_HEIGHT as int),
    }
}

/// Where everything on the screen goes: top to bottom the body, the
/// command bar (`COMMAND_HEIGHT` rows) and the status line
/// (`STATUS_HEIGHT`); the body left to right the sidebar
/// (`SIDEBAR_WIDTH`) and the active screen. The command bar and the status
/// line span the terminal's width, and the sidebar and the active screen
/// share the body's rows; on a terminal that holds the frame, exactly as
/// `main_view` draws it.
pub fn main(area: Rect) -> (res: Areas)
    ensures
        spans(res.command, area, Direction::Vertical),
        spans(res.status, area, Direction::Vertical),
        res.sidebar.y == res.main.y,
        res.sidebar.height == res.main.height,
        main_fits(area) ==> res == main_view(area),
{
    let mut outer: Vec<Constraint> = Vec::new();
    outer.push(Constraint::Min(1));
    outer.push(Constraint::Length(COMMAND_HEIGHT));
    outer.push(Constraint::Length(STATUS_HEIGHT));
    let rows = split(area, Direction::Vertical, outer.as_slice());
    let mut across: Vec<Constraint> = Vec::new();
    across.push(Constraint::Length(SIDEBAR_WIDTH));
    across.push(Constraint::Min(1));
    proof {
        reveal_with_fuel(mins, 4);
        reveal_with_fuel(lengths, 4);
        reveal_with_fuel(asked, 4);
        reveal_with_fuel(slice_offset, 4);
        assert(outer@ =~= seq![Constraint::Min(1), Constraint::Length(3), Constraint::Length(1)]);
        assert(across@ =~= seq![Constraint::Length(24), Constraint::Min(1)]);
        if main_fits(area) {
            assert(fits(area, Direction::Vertical, outer@));
            assert(piece(rows@[0], area, Direction::Vertical, 0, area.height - 4));
            assert(piece(rows@[1], area, Direction::Vertical, area.height - 4, 3));
            assert(piece(rows@[2], area, Direction::Vertical, area.height - 1, 1));
            assert(rows@[0] == rows_of(area, 0, area.height - 4));
            assert(fits(rows@[0], Direction::Horizontal, across@));
        }
    }
    let body = split(rows[0], Direction::Horizontal, across.as_slice());
    proof {
        reveal_with_fuel(slice_offset, 3);
        assert(spans(body@[0], rows@[0], Direction::Horizontal));
        assert(spans(body@[1], rows@[0], Direction::Horizontal));
        assert(spans(rows@[1], area, Direction::Vertical));
        assert(spans(rows@[2], area, Direction::Vertical));
        if main_fits(area) {
            assert(piece(body@[0], rows@[0], Direction::Horizontal, 0, 24));
            assert(piece(body@[1], rows@[0], Direction::Horizontal, 24, area.width - 24));
        }
    }
    Areas { sidebar: body[0], main: body[1], command: rows[1], status: rows[2] }
}

/// An area cut in two.
#[derive(Debug, Clone, Copy, PartialEq, Eq, Structural)]
pub struct Split {
    pub first: Rect,
    pub second: Rect,
}

/// Both halves of a top-to-bottom cut span the area's width.
pub open spec fn split_spans(res: Split, area: Rect) -> bool {
    spans(res.first, area, Direction::Vertical) && spans(res.second, area, Direction::Vertical)
}

/// `area` cut top to bottom: its first `top` rows, and the rest.
pub open spec fn cut_view(area: Rect, top: int) -> Split {
    Split { first: rows_of(area, 0, top), second: rows_of(area, top, area.height - top) }
}

/// `area` cut top to bottom into two slices; when it fits them, each gets
/// what `split` gives it.
fn vertical(area: Rect, first: Constraint, second: Constraint) -> (res: Split)
    ensures
        split_spans(res, area),
        fits(area, Direction::Vertical, seq![first, second]) ==> res == cut_view(
            area,
            slice_size(first, seq![first, second], area.height as int),
        ),
{
    let mut cs: Vec<Constraint> = Vec::new();
    cs.push(first);
    cs.push(second);
    let chunks = split(area, Direction::Vertical, cs.as_slice());
    proof {
        reveal_with_fuel(mins, 3);
        reveal_with_fuel(lengths, 3);
        reveal_with_fuel(asked, 3);
        reveal_with_fuel(slice_offset, 3);
        assert(cs@ =~= seq![first, second]);
        assert(spans(chunks@[0], area, Direction::Vertical));
        assert(spans(chunks@[1], area, Direction::Vertical));
        if fits(area, Direction::Vertical, seq![first, second]) {
            let h = area.height as int;
            let top = slice_size(first, cs@, h);
            assert(piece(chunks@[0], area, Direction::Vertical, 0, top));
            assert(piece(chunks@[1], area, Direction::Vertical, top, slice_size(second, cs@, h)));
            assert(top + slice_size(second, cs@, h) == h);
        }
    }
    Split { first: chunks[0], second: chunks[1] }
}

/// A list (at least three rows) above the argv preview
/// (`PREVIEW_HEIGHT` rows); in an area that holds both, the preview is
/// the bottom `PREVIEW_HEIGHT` rows and the list everything above.
pub fn with_preview(area: Rect) -> (res: Split)
    ensures
        split_spans(res, area),
        area.height >= 3 + PREVIEW_HEIGHT && on_grid(area) ==> res == cut_view(
            area,
            area.height - PREVIEW_HEIGHT,
        ),
{
    let res = vertical(area, Constraint::Min(3), Constraint::Length(PREVIEW_HEIGHT));
    proof {
        reveal_with_fuel(mins, 3);
        reveal_with_fuel(lengths, 3);
        reveal_with_fuel(asked, 3);
        let cs = seq![Constraint::Min(3), Constraint::Length(PREVIEW_HEIGHT)];
        assert(mins(cs) == 1);
    }
    res
}

/// A list's header, its rows and its footer.
#[derive(Debug, Clone, Copy, PartialEq, Eq, Structural)]
pub struct ListAreas {
    pub header: Rect,
    pub rows: Rect,
    pub footer: Rect,
}

/// A list with a fixed header and footer around rows that take the rest;
/// all three span the area's width, and in an area with room for a row
/// between them the header is the top `header` rows, the footer the
/// bottom `footer` rows and the rows everything between.
pub fn list(area: Rect, header: u16, footer: u16) -> (res: ListAreas)
    ensures
        spans(res.header, area, Direction::Vertical),
        spans(res.rows, area, Direction::Vertical),
        spans(res.footer, area, Direction::Vertical),
        area.height >= header + footer + 1 && on_grid(area) ==> res == (ListAreas {
            header: rows_of(area, 0, header as int),
            rows: rows_of(area, header as int, area.height - header - footer),
            footer: rows_of(area, area.height - footer, footer as int),
        }),
{
    let mut cs: Vec<Constraint> = Vec::new();
    cs.push(Constraint::Length(header));
    cs.push(Constraint::Min(1));
    cs.push(Constraint::Length(footer));
    let chunks = split(area, Direction::Vertical, cs.as_slice());
    proof {
        reveal_with_fuel(mins, 4);
        reveal_with_fuel(lengths, 4);
        reveal_with_fuel(asked, 4);
        reveal_with_fuel(slice_offset, 4);
        assert(cs@ =~= seq![Constraint::Length(header), Constraint::Min(1), Constraint::Length(footer)]);
        assert(spans(chunks@[0], area, Direction::Vertical));
        assert(spans(chunks@[1], area, Direction::Vertical));
        assert(spans(chunks@[2], area, Direction::Vertical));
        if area.height >= header + footer + 1 && on_grid(area) {
            let h = area.height as int;
            assert(fits(area, Direction::Vertical, cs@));
            assert(piece(chunks@[0], area, Direction::Vertical, 0, header as int));
            assert(piece(chunks@[1], area, Direction::Vertical, header as int, h - header - footer));
            assert(piece(chunks@[2], area, Direction::Vertical, h - footer, footer as int));
        }
    }
    ListAreas { header: chunks[0], rows: chunks[1], footer: chunks[2] }
}

/// Rows above a footer of fixed height; in an area with room for a row
/// above it, the footer is the bottom `footer` rows.
pub fn rows_with_footer(area: Rect, footer: u16) -> (res: Split)
    ensures
        split_spans(res, area),
        area.height >= footer + 1 && on_grid(area) ==> res == cut_view(area, area.height - footer),
{
    let res = vertical(area, Constraint::Min(1), Constraint::Length(footer));
    proof {
        reveal_with_fuel(mins, 3);
        reveal_with_fuel(lengths, 3);
        reveal_with_fuel(asked, 3);
        let cs = seq![Constraint::Min(1), Constraint::Length(footer)];
        assert(mins(cs) == 1);
    }
    res
}

/// The Server screen: its summary (ten rows) above the process output;
/// in an area with room for three rows of output, exactly so.
pub fn server(area: Rect) -> (res: Split)
    ensures
        split_spans(res, area),
        area.height >= 13 && on_grid(area) ==> res == cut_view(area, 10),
{
    let res = vertical(area, Constraint::Length(10), Constraint::Min(3));
    proof {
        reveal_with_fuel(mins, 3);
        reveal_with_fuel(lengths, 3);
        reveal_with_fuel(asked, 3);
        let cs = seq![Constraint::Length(10), Constraint::Min(3)];
        assert(mins(cs) == 1);
    }
    res
}

/// How far a page key moves on `screen`, given the height of the region
/// its selectable rows are drawn in: one row fewer than a screenful, so
/// successive pages overlap by a row, and never fewer than three. On the
/// Settings screen the region also holds up to three section headers of
/// two rows each, which are not entries. The Router screen has two rows;
/// the Server, Test and Stats screens one.
pub open spec fn page_of_view(screen: Screen, region: u16) -> int {
    let rows = match screen {
        Screen::Models | Screen::Hub | Screen::Logs => region as int,
        Screen::Settings => sat_sub(region as int, 6),
        Screen::Router => 2,
        Screen::Server | Screen::Test | Screen::Stats => 1,
    };
    let page = sat_sub(rows, 1);
    if page < 3 {
        3
    } else {
        page
    }
}

/// The page for a screen whose selectable rows have `region` rows to be
/// drawn in.
pub fn page_of(screen: Screen, region: u16) -> (res: usize)
    ensures
        res == page_of_view(screen, region),
{
    let rows: u16 = match screen {
        Screen::Models | Screen::Hub | Screen::Logs => region,
        Screen::Settings => region.saturating_sub(6),
        Screen::Router => 2,
        Screen::Server | Screen::Test | Screen::Stats => 1,
    };
    let page = rows.saturating_sub(1);
    if page < 3 {
        3
    } else {
        page as usize
    }
}

/// Whether a terminal is large enough for a screen's list to be laid out
/// with all its parts: Models needs eighteen rows (the frame, the preview,
/// the borders, a header, a footer of two and a row), Hub ten, Settings
/// and Logs eight; every screen needs the sidebar and two columns of
/// border beside it.
pub open spec fn tall_enough(screen: Screen, terminal: Rect) -> bool {
    &&& on_grid(terminal)
    &&& terminal.width >= 26
    &&& terminal.height >= match screen {
        Screen::Models => 18int,
        Screen::Hub => 10,
        Screen::Settings | Screen::Logs => 8,
        _ => 0,
    }
}

/// The height of the region a screen's selectable rows are drawn in, on a
/// terminal large enough: the terminal less the command bar and status
/// line (4), then on Models less the preview (8), the borders (2), the
/// header (1) and the footer (2); on Hub less the borders, the header and
/// the footer; on Settings and Logs less the borders and the footer (1).
/// The other screens draw no such region.
pub open spec fn region_view(screen: Screen, terminal: Rect) -> int {
    match screen {
        Screen::Models => terminal.height - 17,
        Screen::Hub => terminal.height - 9,
        Screen::Settings | Screen::Logs => terminal.height - 7,
        _ => 0,
    }
}

/// The height of the region a screen's selectable rows are drawn in, cut
/// by the same constraints the renderers use.
fn region_height(screen: Screen, terminal: Rect) -> (res: u16)
    ensures
        tall_enough(screen, terminal) ==> res == region_view(screen, terminal),
{
    let main = main(terminal).main;
    match screen {
        Screen::Models => {
            let above = with_preview(main).first;
            let framed = inner(above, 1, 1);
            let res = list(framed, 1, 2).rows.height;
            proof {
                if tall_enough(screen, terminal) {
                    assert(main == main_view(terminal).main);
                    assert(main.height == terminal.height - 4 && main.width == terminal.width - 24);
                    assert(above.height == terminal.height - 12 && above.width == terminal.width - 24);
                    assert(framed.height == terminal.height - 14);
                }
            }
            res
        },
        Screen::Hub => {
            let framed = inner(main, 1, 1);
            let res = list(framed, 1, 2).rows.height;
            proof {
                if tall_enough(screen, terminal) {
                    assert(main == main_view(terminal).main);
                    assert(framed.height == terminal.height - 6);
                }
            }
            res
        },
        Screen::Settings | Screen::Logs => {
            let framed = inner(main, 1, 1);
            let res = rows_with_footer(framed, 1).first.height;
            proof {
                if tall_enough(screen, terminal) {
                    assert(main == main_view(terminal).main);
                    assert(framed.height == terminal.height - 6);
                }
            }
            res
        },
        _ => 0,
    }
}

/// The exact selectable rows produced by the same constraints renderers
/// consume, so input paging and drawing cannot acquire parallel,
/// hand-counted versions of the layout. On a terminal large enough for
/// the screen's list that is `page_of_view` of the list's region, so a
/// taller terminal pages further; even a terminal too small to hold a list
/// at all pages by something, or the key would silently do nothing.
pub fn page_rows(screen: Screen, terminal: Rect) -> (res: usize)
    ensures
        tall_enough(screen, terminal) ==> res == page_of_view(screen, region_view(screen, terminal) as u16),
        exists|region: u16| res == page_of_view(screen, region),
        res >= 3,
        (screen is Router || screen is Server || screen is Test || screen is Stats) ==> res == 3,
{
    let region = region_height(screen, terminal);
    page_of(screen, region)
}

/// A taller terminal never pages by less, on any screen.
pub proof fn lemma_a_taller_terminal_pages_further(screen: Screen, short: Rect, tall: Rect)
    requires
        tall_enough(screen, short),
        tall_enough(screen, tall),
        short.height <= tall.height,
    ensures
        page_of_view(screen, region_view(screen, short) as u16) <= page_of_view(
            screen,
            region_view(screen, tall) as u16,
        ),
{
}

/// The width and line count inside a bordered pane.
pub open spec fn pane_size_view(pane: Rect) -> (int, int) {
    let inside = inner_view(pane, 1, 1);
    (inside.width as int, inside.height as int)
}

/// The width and visible line count inside a bordered pane.
pub fn pane_size(pane: Rect) -> (res: (usize, usize))
    ensures
        (res.0 as int, res.1 as int) == pane_size_view(pane),
{
    let inside = inner(pane, 1, 1);
    (inside.width as usize, inside.height as usize)
}

/// Whether a terminal holds the frame and, under the screen's list, the
/// argv pane with a border and a column inside it.
pub open spec fn preview_fits(terminal: Rect) -> bool {
    on_grid(terminal) && terminal.height >= 4 + 3 + PREVIEW_HEIGHT && terminal.width >= 26
}

/// Width and visible line count of the argv pane, on the screens that
/// have one (Models and Router): the inside of the pane below the list —
/// on a terminal that holds it, the terminal's width less the sidebar and
/// the borders, and the pane's height less the borders.
pub fn preview_viewport(screen: Screen, terminal: Rect) -> (res: Option<(usize, usize)>)
    ensures
        res is Some <==> (screen is Models || screen is Router),
        res matches Some((w, h)) ==> exists|pane: Rect| pane_size_view(pane) == (w as int, h as int),
        (screen is Models || screen is Router) && preview_fits(terminal) ==> res == Some(
            ((terminal.width - 26) as usize, (PREVIEW_HEIGHT - 2) as usize),
        ),
{
    match screen {
        Screen::Models | Screen::Router => {
            let main = main(terminal).main;
            let pane = with_preview(main).second;
            let size = pane_size(pane);
            proof {
                if preview_fits(terminal) {
                    assert(main == main_view(terminal).main);
                    assert(pane.height == PREVIEW_HEIGHT && pane.width == terminal.width - 24);
                }
            }
            Some(size)
        },
        _ => None,
    }
}

} // verus!
