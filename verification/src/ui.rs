//! What the page shows, short of drawing it: what the stores column calls
//! each store, how wide that column is, how far the action lists scroll to
//! keep the cursor in view, how many rows wrapped text takes, each panel's
//! title and key hints, and the wasteland map cropped around the wanderer.
use unicode_width::UnicodeWidthStr;
use vstd::prelude::*;
use vstd::view::View as _;

use crate::data::{self, Building, Resource, ResourceKind};
use crate::collections::Keyed;
use crate::model::{self, income_half, Expedition, Game, View};
use crate::pace;
use crate::state;
use crate::world_data::{self, Tile};

verus! {

/// Label column width for the stores and pack rows: the longest label plus a
/// two-space gutter, so a count never butts up against its name.
pub const SIDEBAR_LABEL_PAD: usize = 14;

/// The stores whose own name is too long for that column, and what the
/// column calls them instead. Everything absent renders under its real name.
pub const SIDEBAR_LABELS: [(Resource, &'static str); 8] = [
    (Resource::KineticArmour, "k armour"),
    (Resource::FluidRecycler, "recycler"),
    (Resource::HypoBlueprint, "bp: hypo"),
    (Resource::KineticArmourBlueprint, "bp: armour"),
    (Resource::DisruptorBlueprint, "bp: disruptor"),
    (Resource::PlasmaRifleBlueprint, "bp: plasma"),
    (Resource::StimBlueprint, "bp: stim"),
    (Resource::GlowstoneBlueprint, "bp: glowstone"),
];

/// Total width of the stores column: the indent, the label column, and room
/// for the widest value a long run reaches.
pub const SIDEBAR_WIDTH: u16 = 30;

/// What the stores column calls a store.
pub open spec fn sidebar_name(r: Resource) -> Seq<char> {
    match r {
        Resource::KineticArmour => "k armour"@,
        Resource::FluidRecycler => "recycler"@,
        Resource::HypoBlueprint => "bp: hypo"@,
        Resource::KineticArmourBlueprint => "bp: armour"@,
        Resource::DisruptorBlueprint => "bp: disruptor"@,
        Resource::PlasmaRifleBlueprint => "bp: plasma"@,
        Resource::StimBlueprint => "bp: stim"@,
        Resource::GlowstoneBlueprint => "bp: glowstone"@,
        _ => data::resource_label(r),
    }
}

/// What the stores column calls a store: its entry in the abbreviation list,
/// or its own name.
pub fn sidebar_label(resource: Resource) -> (r: &'static str)
    ensures
        r@ == sidebar_name(resource),
{
    match resource {
        Resource::KineticArmour => "k armour",
        Resource::FluidRecycler => "recycler",
        Resource::HypoBlueprint => "bp: hypo",
        Resource::KineticArmourBlueprint => "bp: armour",
        Resource::DisruptorBlueprint => "bp: disruptor",
        Resource::PlasmaRifleBlueprint => "bp: plasma",
        Resource::StimBlueprint => "bp: stim",
        Resource::GlowstoneBlueprint => "bp: glowstone",
        _ => resource.label(),
    }
}

/// How far a list scrolls to follow the cursor: nothing while everything
/// fits, then just far enough that the cursor is the last row in view, and
/// never past the end.
pub open spec fn scroll_spec(cursor: int, total: int, visible: int) -> int {
    if visible == 0 || total <= visible {
        0
    } else {
        let c = if cursor < total - 1 {
            cursor
        } else {
            total - 1
        };
        let past = if c > visible - 1 {
            c - (visible - 1)
        } else {
            0
        };
        if past < total - visible {
            past
        } else {
            total - visible
        }
    }
}

/// How many action rows to scroll past so the cursor stays on screen. Follows
/// the cursor rather than paging, so moving one row at a time never jumps the
/// list further than necessary.
pub fn scroll_offset(cursor: usize, total: usize, visible: usize) -> (r: u16)
    ensures
        r == scroll_spec(cursor as int, total as int, visible as int) as u16,
{
    if visible == 0 || total <= visible {
        return 0;
    }
    let c = if cursor < total - 1 {
        cursor
    } else {
        total - 1
    };
    let past = if c > visible - 1 {
        c - (visible - 1)
    } else {
        0
    };
    let max_offset = total - visible;
    let offset = if past < max_offset {
        past
    } else {
        max_offset
    };
    offset as u16
}

/// Following the cursor keeps it in view: the scroll never passes the
/// cursor, never leaves it below the last visible row, and never scrolls past
/// the end of the list.
pub proof fn law_the_cursor_stays_in_view(cursor: int, total: int, visible: int)
    requires
        0 <= cursor < total,
        visible > 0,
    ensures
        scroll_spec(cursor, total, visible) <= cursor < scroll_spec(cursor, total, visible) + visible,
        0 <= scroll_spec(cursor, total, visible),
        total > visible ==> scroll_spec(cursor, total, visible) <= total - visible,
{
}

/// How far the room's action list scrolls: nothing while everything fits,
/// otherwise the cursor held in the middle of the view, up to the end.
pub open spec fn centred_spec(cursor_line: int, total: int, height: int) -> int {
    if total <= height || height == 0 {
        0
    } else {
        let centred = if cursor_line > height / 2 {
            cursor_line - height / 2
        } else {
            0
        };
        if centred < total - height {
            centred
        } else {
            total - height
        }
    }
}

/// How far the room's action list scrolls to keep the cursor mid-view.
pub fn action_scroll(cursor_line: usize, total: usize, height: usize) -> (r: u16)
    ensures
        r == centred_spec(cursor_line as int, total as int, height as int) as u16,
{
    if total <= height || height == 0 {
        return 0;
    }
    let centred = if cursor_line > height / 2 {
        cursor_line - height / 2
    } else {
        0
    };
    let most = total - height;
    let offset = if centred < most {
        centred
    } else {
        most
    };
    offset as u16
}

// ---------------------------------------------------------------------------
// Wrapped text
// ---------------------------------------------------------------------------

/// The columns a string takes on a terminal, as `UnicodeWidthStr::width`
/// measures it (ambiguous-width characters count as one).
pub uninterp spec fn str_width(s: Seq<char>) -> nat;

/// `UnicodeWidthStr::width`: the columns a string takes on a terminal. The
/// width tables take pages, so the result is named, not stated.
#[verifier::external_body]
fn display_width(s: &str) -> (w: usize)
    ensures
        w == str_width(s@),
{
    UnicodeWidthStr::width(s)
}

/// A line cut at every space, as `str::split(' ')` cuts it: one more piece
/// than there are spaces, empty pieces included.
pub open spec fn pieces(s: Seq<char>) -> Seq<Seq<char>>
    decreases s.len(),
{
    if s.len() == 0 {
        seq![Seq::empty()]
    } else {
        let p = pieces(s.drop_last());
        if s.last() == ' ' {
            p.push(Seq::empty())
        } else {
            p.update(p.len() - 1, p.last().push(s.last()))
        }
    }
}

proof fn lemma_pieces_len(s: Seq<char>)
    ensures
        pieces(s).len() >= 1,
    decreases s.len(),
{
    if s.len() > 0 {
        lemma_pieces_len(s.drop_last());
    }
}

/// One word laid into the wrap: the space before it (unless it opens the
/// line), then the word on the current row if it fits, else on a fresh one,
/// a word wider than the card broken across rows. `(rows, col)` in and out.
pub open spec fn wrap_word(rows: int, col: int, first: bool, tw: int, width: int) -> (int, int) {
    let (rows, col) = if first {
        (rows, col)
    } else if col + 1 > width {
        (rows + 1, 0)
    } else {
        (rows, col + 1)
    };
    if tw == 0 {
        (rows, col)
    } else if col + tw <= width {
        (rows, col + tw)
    } else {
        let rows = if col > 0 {
            rows + 1
        } else {
            rows
        };
        if tw > width {
            let extra = (tw - 1) / width;
            (rows + extra, tw - extra * width)
        } else {
            (rows, tw)
        }
    }
}

/// The wrap after laying every word in.
pub open spec fn wrap_all(words: Seq<Seq<char>>, width: int) -> (int, int)
    decreases words.len(),
{
    if words.len() == 0 {
        (1, 0)
    } else {
        let (rows, col) = wrap_all(words.drop_last(), width);
        wrap_word(rows, col, words.len() == 1, str_width(words.last()) as int, width)
    }
}

/// Rows a line takes word-wrapped at `width`: broken on spaces, a word
/// longer than the width split across rows, and always at least one.
pub open spec fn rows_for(text: Seq<char>, width: int) -> int {
    if width == 0 {
        1
    } else {
        wrap_all(pieces(text), width).0
    }
}

proof fn lemma_wrap_bounds(words: Seq<Seq<char>>, width: int)
    requires
        width > 0,
    ensures
        wrap_all(words, width).0 >= 1,
        0 <= wrap_all(words, width).1 <= width,
    decreases words.len(),
{
    if words.len() > 0 {
        lemma_wrap_bounds(words.drop_last(), width);
        let (rows, col) = wrap_all(words.drop_last(), width);
        let tw = str_width(words.last()) as int;
        if tw > width {
            let extra = (tw - 1) / width;
            assert(0 < tw - extra * width <= width) by (nonlinear_arith)
                requires
                    extra == (tw - 1) / width,
                    width > 0,
                    tw > width,
            ;
        }
    }
}

/// `x`, or the largest `usize` where it is larger.
pub open spec fn sat(x: int) -> int {
    if x > usize::MAX {
        usize::MAX as int
    } else {
        x
    }
}

proof fn lemma_wrap_shift(rows: int, col: int, first: bool, tw: int, width: int)
    requires
        width > 0,
        0 <= col <= width,
        tw >= 0,
    ensures
        wrap_word(rows, col, first, tw, width).0 == rows + wrap_word(0, col, first, tw, width).0,
        wrap_word(rows, col, first, tw, width).1 == wrap_word(0, col, first, tw, width).1,
        wrap_word(0, col, first, tw, width).0 >= 0,
{
    if tw > width {
        assert((tw - 1) / width >= 0) by (nonlinear_arith)
            requires
                tw > width,
                width > 0,
        ;
    }
}

/// `a + b` for a count, held at the largest `usize`.
fn sat_add(a: usize, b: usize) -> (r: usize)
    ensures
        r == sat(a + b),
{
    if a > usize::MAX - b {
        usize::MAX
    } else {
        a + b
    }
}

/// Lay one word into the wrap, the row count held at the largest `usize`.
fn lay_word(rows: usize, col: usize, first: bool, tw: usize, width: usize) -> (r: (usize, usize))
    requires
        width > 0,
        col <= width,
    ensures
        r.0 == sat(wrap_word(rows as int, col as int, first, tw as int, width as int).0),
        r.1 == wrap_word(rows as int, col as int, first, tw as int, width as int).1,
{
    let mut rows = rows;
    let mut col = col;
    if !first {
        if col >= width {
            rows = sat_add(rows, 1);
            col = 0;
        } else {
            col = col + 1;
        }
    }
    if tw == 0 {
        return (rows, col);
    }
    if tw <= width - col {
        return (rows, col + tw);
    }
    if col > 0 {
        rows = sat_add(rows, 1);
    }
    if tw > width {
        let extra = (tw - 1) / width;
        assert(extra * width <= tw - 1) by (nonlinear_arith)
            requires
                extra as int == (tw as int - 1) / (width as int),
                width > 0,
                tw > width,
        ;
        rows = sat_add(rows, extra);
        (rows, tw - extra * width)
    } else {
        (rows, tw)
    }
}

/// Rows `text` takes word-wrapped at `width`, the way the body's wrap breaks
/// it: on spaces, with a word longer than the width split across rows.
/// Always at least one; a count past the largest `usize` is held there.
pub fn wrapped_rows(text: &str, width: usize) -> (r: usize)
    ensures
        r == sat(rows_for(text@, width as int)),
{
    if width == 0 {
        return 1;
    }
    let n = text.unicode_len();
    let mut rows: usize = 1;
    let mut col: usize = 0;
    let mut start: usize = 0;
    let mut i: usize = 0;
    proof {
        assert(text@.take(0) =~= Seq::<char>::empty());
        assert(text@.subrange(0, 0) =~= Seq::<char>::empty());
    }
    while i < n
        invariant
            n == text@.len(),
            width > 0,
            start <= i <= n,
            ({
                let p = pieces(text@.take(i as int));
                &&& p.len() >= 1
                &&& (start == 0) == (p.len() == 1)
                &&& p.last() == text@.subrange(start as int, i as int)
                &&& rows as int == sat(wrap_all(p.drop_last(), width as int).0)
                &&& col as int == wrap_all(p.drop_last(), width as int).1
            }),
        decreases n - i,
    {
        let ghost p = pieces(text@.take(i as int));
        let c = text.get_char(i);
        proof {
            assert(text@.take(i + 1).drop_last() =~= text@.take(i as int));
            assert(text@.take(i + 1).last() == c);
            lemma_wrap_bounds(p.drop_last(), width as int);
        }
        if c == ' ' {
            let word = text.substring_char(start, i);
            let tw = display_width(word);
            let ghost t = wrap_all(p.drop_last(), width as int);
            proof {
                assert(p.drop_last().push(p.last()) =~= p);
                assert(p.drop_last().len() == 0 ==> p.drop_last() =~= Seq::<Seq<char>>::empty());
                lemma_wrap_shift(t.0, t.1, start == 0, tw as int, width as int);
                lemma_wrap_shift(rows as int, t.1, start == 0, tw as int, width as int);
            }
            let laid = lay_word(rows, col, start == 0, tw, width);
            rows = laid.0;
            col = laid.1;
            start = i + 1;
            proof {
                let p2 = pieces(text@.take(i + 1));
                assert(p2 =~= p.push(Seq::empty()));
                assert(p2.drop_last() =~= p);
                assert(text@.subrange(start as int, (i + 1) as int) =~= Seq::<char>::empty());
            }
        } else {
            proof {
                let p2 = pieces(text@.take(i + 1));
                assert(p2.drop_last() =~= p.drop_last());
                assert(text@.subrange(start as int, (i + 1) as int) =~= p.last().push(c));
            }
        }
        i = i + 1;
    }
    let ghost p = pieces(text@.take(i as int));
    let ghost t = wrap_all(p.drop_last(), width as int);
    let word = text.substring_char(start, n);
    let tw = display_width(word);
    proof {
        assert(text@.take(i as int) =~= text@);
        assert(p.drop_last().push(p.last()) =~= p);
        lemma_wrap_bounds(p.drop_last(), width as int);
        lemma_wrap_shift(t.0, t.1, start == 0, tw as int, width as int);
        lemma_wrap_shift(rows as int, t.1, start == 0, tw as int, width as int);
    }
    let laid = lay_word(rows, col, start == 0, tw, width);
    laid.0
}

/// Rows all the lines take together, each wrapped at `width`.
pub open spec fn lines_rows(lines: Seq<String>, width: int) -> int
    decreases lines.len(),
{
    if lines.len() == 0 {
        0
    } else {
        lines_rows(lines.drop_last(), width) + rows_for(lines.last()@, width)
    }
}

/// The rows the modal's body gets: what its lines need once wrapped at
/// `width`, at least three, and at most half the panel (plus the three).
pub open spec fn body_height_spec(lines: Seq<String>, width: int, height: int) -> int {
    let needed = if lines_rows(lines, width) < 0xFFFF {
        lines_rows(lines, width)
    } else {
        0xFFFF
    };
    let room = if height - 4 > 3 {
        height - 4
    } else {
        3
    };
    let cap = room / 2 + 3;
    if needed < 3 {
        3
    } else if needed > cap {
        cap
    } else {
        needed
    }
}

proof fn lemma_rows_positive(text: Seq<char>, width: int)
    requires
        width >= 0,
    ensures
        rows_for(text, width) >= 1,
{
    if width > 0 {
        lemma_wrap_bounds(pieces(text), width);
    }
}

/// The rows the modal's body gets, given its lines as plain text.
pub fn body_height(lines: &Vec<String>, width: u16, height: u16) -> (r: u16)
    ensures
        r == body_height_spec(lines@, width as int, height as int),
{
    let mut needed: usize = 0;
    let mut i: usize = 0;
    while i < lines.len()
        invariant
            i <= lines@.len(),
            needed as int == if lines_rows(lines@.take(i as int), width as int) < 0xFFFF {
                lines_rows(lines@.take(i as int), width as int)
            } else {
                0xFFFF
            },
        decreases lines@.len() - i,
    {
        let rows = wrapped_rows(lines[i].as_str(), width as usize);
        proof {
            assert(lines@.take(i + 1).drop_last() =~= lines@.take(i as int));
            lemma_rows_positive(lines@[i as int]@, width as int);
            lemma_lines_nonneg(lines@.take(i as int), width as int);
        }
        needed = if rows >= 0xFFFF || needed >= 0xFFFF - rows {
            0xFFFF
        } else {
            needed + rows
        };
        i = i + 1;
    }
    proof {
        assert(lines@.take(i as int) =~= lines@);
    }
    let room: u16 = if height > 7 {
        height - 4
    } else {
        3
    };
    let cap: u16 = room / 2 + 3;
    let n = needed as u16;
    if n < 3 {
        3
    } else if n > cap {
        cap
    } else {
        n
    }
}

proof fn lemma_lines_nonneg(lines: Seq<String>, width: int)
    requires
        width >= 0,
    ensures
        lines_rows(lines, width) >= 0,
    decreases lines.len(),
{
    if lines.len() > 0 {
        lemma_lines_nonneg(lines.drop_last(), width);
        lemma_rows_positive(lines.last()@, width);
    }
}

// ---------------------------------------------------------------------------
// Titles, key hints and the map
// ---------------------------------------------------------------------------

/// The title a panel shows.
pub open spec fn panel_title_spec(g: Game, view: View) -> Seq<char> {
    match view {
        View::Room => if data::fire_level(g.fire) < 2 {
            data::TITLE@
        } else {
            "A Firelit Room"@
        },
        View::Outside => crate::model::outside_title_spec(g.count(Building::Hut)),
        View::Path => "A Dusty Path"@,
        View::World => "A Barren World"@,
        View::Fabricator => data::FABRICATOR_TITLE@,
        View::Ship => "An Old Starship"@,
    }
}

/// The title a panel shows: the room by its fire, the village by its huts.
pub fn panel_title(game: &Game, view: View) -> (r: &'static str)
    requires
        game.buildings.wf(),
    ensures
        r@ == panel_title_spec(*game, view),
{
    match view {
        View::Room => game.room_title(),
        View::Outside => game.outside_title(),
        View::Path => "A Dusty Path",
        View::World => "A Barren World",
        View::Fabricator => data::FABRICATOR_TITLE,
        View::Ship => "An Old Starship",
    }
}

/// The key hints under a panel, as (key, what it does) pairs: act always;
/// move villagers or pack in the forest and on the path; walk out in the
/// wasteland; switch panels once there is more than the room; and the way
/// out, which out in the wasteland parks the trip.
pub open spec fn key_hints_spec(view: View, forest_unlocked: bool) -> Seq<(Seq<char>, Seq<char>)> {
    seq![("Enter"@, " do   "@)] + (if view == View::Outside || view == View::Path {
        seq![
            ("+/-"@, if view == View::Path {
                " pack   "@
            } else {
                " worker   "@
            }),
            ("</>"@, " x10   "@),
        ]
    } else {
        Seq::empty()
    }) + (if view == View::World {
        seq![("arrows"@, " walk   "@)]
    } else {
        Seq::empty()
    }) + (if forest_unlocked && view != View::World {
        seq![("Tab"@, " switch   "@)]
    } else {
        Seq::empty()
    }) + seq![
        ("Esc"@, if view == View::World {
            " park the trip"@
        } else {
            " leave"@
        }),
    ]
}

/// The view of a hint list, pair by pair.
pub open spec fn hints_view(v: Seq<(&'static str, &'static str)>) -> Seq<(Seq<char>, Seq<char>)> {
    Seq::new(v.len(), |i: int| (v[i].0@, v[i].1@))
}

/// The key hints under a panel.
pub fn key_hints(view: View, forest_unlocked: bool) -> (r: Vec<(&'static str, &'static str)>)
    ensures
        hints_view(r@) == key_hints_spec(view, forest_unlocked),
{
    let mut hints: Vec<(&'static str, &'static str)> = Vec::new();
    hints.push(("Enter", " do   "));
    if view == View::Outside || view == View::Path {
        hints.push(
            (
                "+/-",
                if view == View::Path {
                    " pack   "
                } else {
                    " worker   "
                },
            ),
        );
        hints.push(("</>", " x10   "));
    }
    if view == View::World {
        hints.push(("arrows", " walk   "));
    }
    if forest_unlocked && view != View::World {
        hints.push(("Tab", " switch   "));
    }
    hints.push(
        (
            "Esc",
            if view == View::World {
                " park the trip"
            } else {
                " leave"
            },
        ),
    );
    proof {
        assert(hints_view(hints@) =~= key_hints_spec(view, forest_unlocked));
    }
    hints
}

/// How a cell of the wasteland map is drawn.
#[derive(Clone, Copy, Debug, PartialEq, Eq, Structural)]
pub enum CellKind {
    /// The wanderer.
    Wanderer,
    /// Not seen yet: a blank.
    Dark,
    /// The village.
    Home,
    /// Plain ground: forest, field or barrens.
    Ground,
    Road,
    /// A landmark already played out.
    Spent,
    /// A landmark still to visit.
    Landmark,
}

/// What the map shows at a square: the wanderer, a blank where nothing has
/// been seen, or the tile's glyph in the style its kind calls for.
pub open spec fn cell_spec(trip: Expedition, x: int, y: int) -> (char, CellKind) {
    if x == trip.x && y == trip.y {
        ('@', CellKind::Wanderer)
    } else if !trip.map.seen_at(x, y) {
        (' ', CellKind::Dark)
    } else {
        let tile = trip.map.tile_at(x, y);
        (
            world_data::tile_glyph(tile),
            if tile == Tile::Village {
                CellKind::Home
            } else if tile == Tile::Forest || tile == Tile::Field || tile == Tile::Barrens {
                CellKind::Ground
            } else if tile == Tile::Road {
                CellKind::Road
            } else if trip.map.visited_at(x, y) {
                CellKind::Spent
            } else {
                CellKind::Landmark
            },
        )
    }
}

/// What the map shows at a square.
pub fn map_cell(trip: &Expedition, x: i32, y: i32) -> (r: (char, CellKind))
    ensures
        r == cell_spec(*trip, x as int, y as int),
{
    if x == trip.x && y == trip.y {
        return ('@', CellKind::Wanderer);
    }
    if !trip.map.seen(x, y) {
        return (' ', CellKind::Dark);
    }
    let tile = trip.map.tile(x, y);
    let kind = if tile == Tile::Village {
        CellKind::Home
    } else if tile == Tile::Forest || tile == Tile::Field || tile == Tile::Barrens {
        CellKind::Ground
    } else if tile == Tile::Road {
        CellKind::Road
    } else if trip.map.visited(x, y) {
        CellKind::Spent
    } else {
        CellKind::Landmark
    };
    (tile.glyph(), kind)
}

/// The map cropped to a `width` by `height` window centred on the wanderer,
/// row by row.
pub open spec fn viewport_spec(trip: Expedition, width: int, height: int) -> Seq<Seq<(char, CellKind)>> {
    let left = trip.x - width / 2;
    let top = trip.y - height / 2;
    Seq::new(
        height as nat,
        |row: int| Seq::new(width as nat, |column: int| cell_spec(trip, left + column, top + row)),
    )
}

/// The map cropped to a window centred on the wanderer, row by row. The
/// wanderer must stand far enough from the ends of `i32` for the window's
/// corners to be squares at all.
pub fn map_rows(trip: &Expedition, width: u16, height: u16) -> (r: Vec<Vec<(char, CellKind)>>)
    requires
        i32::MIN + 0x8000 <= trip.x <= i32::MAX - 0x8000,
        i32::MIN + 0x8000 <= trip.y <= i32::MAX - 0x8000,
    ensures
        r@.len() == height,
        forall|row: int|
            0 <= row < height ==> (#[trigger] r@[row])@ == viewport_spec(
                *trip,
                width as int,
                height as int,
            )[row],
{
    let w: i32 = width as i32;
    let h: i32 = height as i32;
    let left: i32 = trip.x - w / 2;
    let top: i32 = trip.y - h / 2;
    let ghost view = viewport_spec(*trip, width as int, height as int);
    let mut rows: Vec<Vec<(char, CellKind)>> = Vec::new();
    let mut row: i32 = 0;
    while row < h
        invariant
            0 <= row <= h,
            h == height as i32,
            w == width as i32,
            left == trip.x - w / 2,
            top == trip.y - h / 2,
            i32::MIN + 0x8000 <= trip.x <= i32::MAX - 0x8000,
            i32::MIN + 0x8000 <= trip.y <= i32::MAX - 0x8000,
            view == viewport_spec(*trip, width as int, height as int),
            rows@.len() == row,
            forall|k: int| 0 <= k < row ==> (#[trigger] rows@[k])@ == view[k],
        decreases h - row,
    {
        let y: i32 = top + row;
        let mut cells: Vec<(char, CellKind)> = Vec::new();
        let mut column: i32 = 0;
        while column < w
            invariant
                0 <= column <= w,
                0 <= row < h,
                h == height as i32,
                w == width as i32,
                left == trip.x - w / 2,
                y == trip.y - h / 2 + row,
                i32::MIN + 0x8000 <= trip.x <= i32::MAX - 0x8000,
                cells@.len() == column,
                forall|k: int|
                    0 <= k < column ==> #[trigger] cells@[k] == cell_spec(
                        *trip,
                        left + k,
                        y as int,
                    ),
            decreases w - column,
        {
            let cell = map_cell(trip, left + column, y);
            cells.push(cell);
            column = column + 1;
        }
        proof {
            assert(cells@ =~= view[row as int]);
        }
        rows.push(cells);
        row = row + 1;
    }
    rows
}

// ---------------------------------------------------------------------------
// The stores column
// ---------------------------------------------------------------------------

/// One line of the stores column.
#[derive(Debug, PartialEq, Eq)]
pub enum SidebarLine {
    /// A section heading.
    Heading(&'static str),
    /// A perk, listed two spaces in under its heading.
    Indented(&'static str),
    /// A label in the label column and its value beside it.
    Stat(&'static str, String),
    /// The gap between sections.
    Blank,
}

/// What a stores column line says.
pub enum Shown {
    Heading(Seq<char>),
    Indented(Seq<char>),
    Stat(Seq<char>, Seq<char>),
    Blank,
}

pub open spec fn shown(line: SidebarLine) -> Shown {
    match line {
        SidebarLine::Heading(h) => Shown::Heading(h@),
        SidebarLine::Indented(t) => Shown::Indented(t@),
        SidebarLine::Stat(label, value) => Shown::Stat(label@, value@),
        SidebarLine::Blank => Shown::Blank,
    }
}

/// What a run of lines says.
pub open spec fn shown_all(lines: Seq<SidebarLine>) -> Seq<Shown> {
    Seq::new(lines.len(), |i: int| shown(lines[i]))
}

/// A net income of `h` half units, signed, with a half shown as `.5`.
pub open spec fn income_text(h: int) -> Seq<char> {
    let sign = if h > 0 {
        "+"@
    } else {
        "-"@
    };
    let m = if h > 0 {
        h
    } else {
        -h
    };
    if m % 2 == 0 {
        sign + state::decimal((m / 2) as nat)
    } else {
        sign + state::decimal((m / 2) as nat) + ".5"@
    }
}

/// Seconds between income rounds, as the stores column prints them.
pub open spec fn income_round() -> nat {
    (data::INCOME_DELAY * pace::SLOWDOWN) as nat
}

/// How the stores column prints a store: the count, and beside it the net
/// income per round when the store moves.
pub open spec fn store_value(g: Game, r: Resource) -> Seq<char> {
    if income_half(g, r) != 0 {
        state::signed_decimal(g.stock(r)) + " "@ + income_text(income_half(g, r)) + "/"@ + state::decimal(
            income_round(),
        ) + "s"@
    } else {
        state::signed_decimal(g.stock(r))
    }
}

/// The perks held among the first `n`, one indented line each, in order.
pub open spec fn perk_lines(g: Game, n: nat) -> Seq<Shown>
    decreases n,
{
    if n == 0 {
        seq![]
    } else {
        let p = data::Perk::from_key((n - 1) as nat);
        perk_lines(g, (n - 1) as nat) + if g.perks@.contains(p) {
            seq![Shown::Indented(data::perk_label(p))]
        } else {
            seq![]
        }
    }
}

/// Which section of the stores column a kind of resource is listed in:
/// 0 for the stores, 1 for the weapons, 2 for the gear.
pub open spec fn section_of(kind: ResourceKind) -> int {
    match kind {
        ResourceKind::Weapon => 1,
        ResourceKind::Upgrade => 2,
        _ => 0,
    }
}

/// The stores among the first `n` that a section lists: seen, and of its
/// kind, in listing order.
pub open spec fn section_stats(g: Game, section: int, n: nat) -> Seq<Shown>
    decreases n,
{
    if n == 0 {
        seq![]
    } else {
        let r = Resource::from_key((n - 1) as nat);
        section_stats(g, section, (n - 1) as nat) + if g.stores@.contains_key(r) && section_of(
            data::resource_kind(r),
        ) == section {
            seq![Shown::Stat(sidebar_name(r), store_value(g, r))]
        } else {
            seq![]
        }
    }
}

/// The heading of a section of the stores column.
pub open spec fn section_heading(section: int) -> Seq<char> {
    if section == 0 {
        "stores"@
    } else if section == 1 {
        "weapons"@
    } else {
        "gear"@
    }
}

/// The lines standing buildings among the first `n` add: the traps counted
/// bare and baited apart, everything else by its count.
pub open spec fn building_stats(g: Game, n: nat) -> Seq<Shown>
    decreases n,
{
    if n == 0 {
        seq![]
    } else {
        let b = Building::from_key((n - 1) as nat);
        building_stats(g, (n - 1) as nat) + if g.count(b) == 0 {
            seq![]
        } else if b == Building::Trap {
            let baited = g.baited_spec();
            let bare = g.count(b) - baited;
            (if bare > 0 {
                seq![Shown::Stat("trap"@, state::decimal(bare as nat))]
            } else {
                seq![]
            }) + (if baited > 0 {
                seq![Shown::Stat("baited trap"@, state::decimal(baited as nat))]
            } else {
                seq![]
            })
        } else {
            seq![Shown::Stat(data::building_label(b), state::decimal(g.count(b) as nat))]
        }
    }
}

/// A section of stores, after what is already listed: nothing when it
/// lists nothing; otherwise a gap if anything came before, its heading and
/// its stores.
pub open spec fn with_section(before: Seq<Shown>, heading: Seq<char>, stats: Seq<Shown>) -> Seq<Shown> {
    if stats.len() == 0 {
        before
    } else {
        before + (if before.len() > 0 {
            seq![Shown::Blank]
        } else {
            seq![]
        }) + seq![Shown::Heading(heading)] + stats
    }
}

/// The stores column: the perks held, then the stores, the weapons and the
/// gear the player has seen (only what has been seen is shown, which is how
/// the game reveals itself), and the buildings standing.
pub open spec fn stores_spec(g: Game) -> Seq<Shown> {
    let perks = perk_lines(g, 11);
    let head = if perks.len() > 0 {
        seq![Shown::Heading("perks"@)] + perks + seq![Shown::Blank]
    } else {
        seq![]
    };
    let with_stores = with_section(
        with_section(
            with_section(head, section_heading(0), section_stats(g, 0, 53)),
            section_heading(1),
            section_stats(g, 1, 53),
        ),
        section_heading(2),
        section_stats(g, 2, 53),
    );
    let buildings = building_stats(g, 13);
    if buildings.len() > 0 {
        with_stores + seq![Shown::Blank, Shown::Heading("buildings"@)] + buildings
    } else {
        with_stores
    }
}

/// The net income of `h` half units, as the stores column prints it.
fn income_words(h: i64) -> (r: String)
    requires
        h != 0,
        h > i64::MIN,
    ensures
        r@ == income_text(h as int),
{
    let mut text = if h > 0 {
        String::from_str("+")
    } else {
        String::from_str("-")
    };
    proof {
        reveal_strlit("+");
        reveal_strlit("-");
        reveal_strlit(".5");
    }
    let m: i64 = if h > 0 {
        h
    } else {
        -h
    };
    state::append_decimal(&mut text, (m / 2) as u64);
    if m % 2 != 0 {
        text.append(".5");
    }
    text
}

/// How the stores column prints a store.
fn store_words(game: &Game, r: Resource) -> (v: String)
    requires
        game.wf(),
        game.assigned() <= u32::MAX,
    ensures
        v@ == store_value(*game, r),
{
    let mut value = String::new();
    state::append_signed(&mut value, game.store(r));
    let h = game.income_half_of(r);
    if h != 0 {
        value.append(" ");
        let words = income_words(h);
        value.append(words.as_str());
        value.append("/");
        state::append_decimal(&mut value, pace::slowed(data::INCOME_DELAY) as u64);
        value.append("s");
    }
    value
}

/// The stores a section of the column lists, in listing order.
fn section_lines(game: &Game, section: u8) -> (lines: Vec<SidebarLine>)
    requires
        game.wf(),
        game.assigned() <= u32::MAX,
        section < 3,
    ensures
        shown_all(lines@) == section_stats(*game, section as int, 53),
{
    let mut lines: Vec<SidebarLine> = Vec::new();
    let mut i: usize = 0;
    while i < 53
        invariant
            i <= 53,
            game.wf(),
            game.assigned() <= u32::MAX,
            section < 3,
            shown_all(lines@) == section_stats(*game, section as int, i as nat),
        decreases 53 - i,
    {
        let r = Resource::from_index(i);
        let kind = r.kind();
        let in_section: u8 = match kind {
            ResourceKind::Weapon => 1,
            ResourceKind::Upgrade => 2,
            _ => 0,
        };
        let ghost before = lines@;
        if game.has_seen(r) && in_section == section {
            lines.push(SidebarLine::Stat(sidebar_label(r), store_words(game, r)));
        }
        proof {
            assert(shown_all(lines@) =~= section_stats(*game, section as int, (i + 1) as nat));
        }
        i = i + 1;
    }
    lines
}

/// The lines the standing buildings add, in listing order.
fn building_lines(game: &Game) -> (lines: Vec<SidebarLine>)
    requires
        game.wf(),
    ensures
        shown_all(lines@) == building_stats(*game, 13),
{
    let mut lines: Vec<SidebarLine> = Vec::new();
    let mut i: usize = 0;
    while i < 13
        invariant
            i <= 13,
            game.wf(),
            shown_all(lines@) == building_stats(*game, i as nat),
        decreases 13 - i,
    {
        let b = Building::from_index(i);
        let count = game.building_count(b);
        if count > 0 {
            if b == Building::Trap {
                let (bare, baited) = game.trap_rows();
                if bare > 0 {
                    let mut value = String::new();
                    state::append_decimal(&mut value, bare as u64);
                    lines.push(SidebarLine::Stat("trap", value));
                }
                if baited > 0 {
                    let mut value = String::new();
                    state::append_decimal(&mut value, baited as u64);
                    lines.push(SidebarLine::Stat("baited trap", value));
                }
            } else {
                let mut value = String::new();
                state::append_decimal(&mut value, count as u64);
                lines.push(SidebarLine::Stat(b.label(), value));
            }
        }
        proof {
            assert(shown_all(lines@) =~= building_stats(*game, (i + 1) as nat));
        }
        i = i + 1;
    }
    lines
}

/// Add a section after what is already listed: nothing when it lists
/// nothing; otherwise a gap if anything came before, its heading and its
/// stores.
fn add_section(lines: &mut Vec<SidebarLine>, heading: &'static str, stats: Vec<SidebarLine>)
    ensures
        shown_all(final(lines)@) == with_section(shown_all(old(lines)@), heading@, shown_all(stats@)),
{
    if stats.len() == 0 {
        return;
    }
    if lines.len() > 0 {
        lines.push(SidebarLine::Blank);
    }
    lines.push(SidebarLine::Heading(heading));
    let ghost listed = stats@;
    let mut stats = stats;
    lines.append(&mut stats);
    proof {
        assert(shown_all(lines@) =~= with_section(shown_all(old(lines)@), heading@, shown_all(listed)));
    }
}

/// The stores column, line by line.
pub fn stores_lines(game: &Game) -> (lines: Vec<SidebarLine>)
    requires
        game.wf(),
        game.assigned() <= u32::MAX,
    ensures
        shown_all(lines@) == stores_spec(*game),
{
    let mut perks: Vec<SidebarLine> = Vec::new();
    let mut i: usize = 0;
    while i < 11
        invariant
            i <= 11,
            game.wf(),
            shown_all(perks@) == perk_lines(*game, i as nat),
        decreases 11 - i,
    {
        let p = data::Perk::from_index(i);
        if game.perks.contains(&p) {
            perks.push(SidebarLine::Indented(p.label()));
        }
        proof {
            assert(shown_all(perks@) =~= perk_lines(*game, (i + 1) as nat));
        }
        i = i + 1;
    }
    let mut lines: Vec<SidebarLine> = Vec::new();
    if perks.len() > 0 {
        lines.push(SidebarLine::Heading("perks"));
        lines.append(&mut perks);
        lines.push(SidebarLine::Blank);
    }
    proof {
        reveal_strlit("stores");
        reveal_strlit("weapons");
        reveal_strlit("gear");
        let perks_shown = perk_lines(*game, 11);
        assert(shown_all(lines@) =~= if perks_shown.len() > 0 {
            seq![Shown::Heading("perks"@)] + perks_shown + seq![Shown::Blank]
        } else {
            seq![]
        });
    }
    add_section(&mut lines, "stores", section_lines(game, 0));
    add_section(&mut lines, "weapons", section_lines(game, 1));
    add_section(&mut lines, "gear", section_lines(game, 2));
    let mut standing = building_lines(game);
    if standing.len() > 0 {
        let ghost before = lines@;
        lines.push(SidebarLine::Blank);
        lines.push(SidebarLine::Heading("buildings"));
        lines.append(&mut standing);
        proof {
            assert(shown_all(lines@) =~= shown_all(before) + seq![Shown::Blank, Shown::Heading("buildings"@)]
                + building_stats(*game, 13));
        }
    }
    lines
}

// ---------------------------------------------------------------------------
// The status line
// ---------------------------------------------------------------------------

/// The blueprints known among the first `n`, by name, joined by commas.
pub open spec fn known_blueprints(g: Game, n: nat) -> Seq<char>
    decreases n,
{
    if n == 0 {
        seq![]
    } else {
        let b = data::Blueprint::from_key((n - 1) as nat);
        let before = known_blueprints(g, (n - 1) as nat);
        if g.blueprints@.contains(b) {
            if before.len() == 0 {
                data::resource_label(data::blueprint_item(b))
            } else {
                before + ", "@ + data::resource_label(data::blueprint_item(b))
            }
        } else {
            before
        }
    }
}

/// The one line that says what the world is doing right now: the fire and
/// the room; the village's people; what the path offers; the blueprints the
/// fabricator knows; the ship's hull and engine.
pub open spec fn status_spec(g: Game, view: View) -> Seq<char> {
    match view {
        View::Room => "the fire is "@ + data::fire_text(g.fire) + ". the room is "@ + data::temperature_text(
            g.temperature,
        ) + "."@,
        View::Outside => "pop "@ + state::decimal(g.population as nat) + "/"@ + state::decimal(
            (g.count(Building::Hut) * data::HUT_ROOM) as nat,
        ) + ", "@ + state::decimal(g.gatherers_spec() as nat) + " gathering"@,
        View::Path => "armour: "@ + model::armour_name(g) + ". water: "@ + state::signed_decimal(
            world_data::BASE_WATER + model::water_bonus(g),
        ) + ". "@ + state::signed_decimal(world_data::DEFAULT_BAG_SPACE + model::pack_bonus(g))
            + " to carry."@,
        View::World => seq![],
        View::Fabricator => {
            let known = known_blueprints(g, 6);
            if known.len() == 0 {
                data::SECTION_BLUEPRINTS@ + ": none yet"@
            } else {
                data::SECTION_BLUEPRINTS@ + ": "@ + known
            }
        },
        View::Ship => match g.ship {
            Some(ship) => "hull: "@ + state::signed_decimal(ship.hull as int) + ". engine: "@
                + state::signed_decimal(ship.thrusters as int) + "."@,
            None => seq![],
        },
    }
}

/// The status line over a panel.
pub fn status_text(game: &Game, view: View) -> (r: String)
    requires
        game.wf(),
        game.assigned() <= u32::MAX,
        game.count(Building::Hut) * data::HUT_ROOM <= u32::MAX,
    ensures
        r@ == status_spec(*game, view),
{
    let mut text = String::new();
    match view {
        View::Room => {
            text.append("the fire is ");
            text.append(game.fire.text());
            text.append(". the room is ");
            text.append(game.temperature.text());
            text.append(".");
        },
        View::Outside => {
            text.append("pop ");
            state::append_decimal(&mut text, game.population as u64);
            text.append("/");
            state::append_decimal(&mut text, game.max_population() as u64);
            text.append(", ");
            state::append_decimal(&mut text, game.gatherers() as u64);
            text.append(" gathering");
        },
        View::Path => {
            text.append("armour: ");
            text.append(game.armour_label());
            text.append(". water: ");
            state::append_signed(&mut text, game.max_water());
            text.append(". ");
            state::append_signed(&mut text, game.capacity());
            text.append(" to carry.");
        },
        View::World => {},
        View::Fabricator => {
            text.append(data::SECTION_BLUEPRINTS);
            let mut known = String::new();
            let mut any = false;
            let mut i: usize = 0;
            while i < 6
                invariant
                    i <= 6,
                    game.wf(),
                    known@ == known_blueprints(*game, i as nat),
                    any == (known@.len() > 0),
                decreases 6 - i,
            {
                let b = data::Blueprint::from_index(i);
                if game.blueprints.contains(&b) {
                    if any {
                        known.append(", ");
                    }
                    known.append(b.label());
                    any = true;
                    proof {
                        reveal_strlit("hypo");
                        reveal_strlit("kinetic armour");
                        reveal_strlit("disruptor");
                        reveal_strlit("plasma rifle");
                        reveal_strlit("stim");
                        reveal_strlit("glow stone");
                        assert(data::resource_label(data::blueprint_item(b)).len() > 0);
                    }
                }
                i = i + 1;
            }
            if !any {
                text.append(": none yet");
            } else {
                text.append(": ");
                text.append(known.as_str());
            }
        },
        View::Ship => match &game.ship {
            Some(ship) => {
                text.append("hull: ");
                state::append_signed(&mut text, ship.hull);
                text.append(". engine: ");
                state::append_signed(&mut text, ship.thrusters);
                text.append(".");
            },
            None => {},
        },
    }
    text
}

// ---------------------------------------------------------------------------
// The action column
// ---------------------------------------------------------------------------

/// A cost list as the action column prints it: `amount label` pairs joined
/// by commas.
pub open spec fn cost_words(cost: Seq<(Resource, i64)>) -> Seq<char>
    decreases cost.len(),
{
    if cost.len() == 0 {
        seq![]
    } else {
        let last = cost.last();
        let item = state::signed_decimal(last.1 as int) + " "@ + data::resource_label(last.0);
        if cost.len() == 1 {
            item
        } else {
            cost_words(cost.drop_last()) + ", "@ + item
        }
    }
}

/// What a row's cost says, if it costs anything.
pub open spec fn cost_hint_spec(g: Game, row: state::Row) -> Option<Seq<char>> {
    let cost = state::row_cost_spec(g, row);
    if cost.len() == 0 {
        None
    } else {
        Some(cost_words(cost))
    }
}

/// What a row's cost says, if it costs anything.
pub fn cost_hint(game: &Game, row: state::Row) -> (r: Option<String>)
    requires
        game.buildings.wf(),
    ensures
        (match r {
            Some(t) => Some(t@),
            None => None,
        }) == cost_hint_spec(*game, row),
{
    let cost = state::row_cost(game, row);
    if cost.len() == 0 {
        return None;
    }
    let mut text = String::new();
    let mut i: usize = 0;
    while i < cost.len()
        invariant
            i <= cost@.len(),
            cost@ == state::row_cost_spec(*game, row),
            text@ == cost_words(cost@.take(i as int)),
        decreases cost@.len() - i,
    {
        let (item, amount) = cost[i];
        if i > 0 {
            text.append(", ");
        }
        state::append_signed(&mut text, amount);
        text.append(" ");
        text.append(item.label());
        proof {
            reveal_strlit(" ");
            assert(cost@.take(i + 1).drop_last() =~= cost@.take(i as int));
            assert(cost@.take(i + 1).last() == cost@[i as int]);
        }
        i = i + 1;
    }
    proof {
        assert(cost@.take(cost@.len() as int) =~= cost@);
    }
    Some(text)
}

/// One line of the action column.
#[derive(Debug, PartialEq, Eq)]
pub enum ActionLine {
    /// The heading a group of rooms buttons is listed under.
    Legend(&'static str),
    /// A row: whether the cursor is on it, whether it is at its ceiling
    /// (listed still, but spent), its label, and what follows it: the
    /// seconds left on its cooldown, or else its cost.
    Row { selected: bool, spent: bool, label: String, hint: Option<String> },
}

/// What an action column line says.
pub enum ActionShown {
    Legend(Seq<char>),
    Row(bool, bool, Seq<char>, Option<Seq<char>>),
}

pub open spec fn action_shown(line: ActionLine) -> ActionShown {
    match line {
        ActionLine::Legend(l) => ActionShown::Legend(l@),
        ActionLine::Row { selected, spent, label, hint } => ActionShown::Row(
            selected,
            spent,
            label@,
            match hint {
                Some(h) => Some(h@),
                None => None,
            },
        ),
    }
}

/// What a run of action lines says.
pub open spec fn actions_shown(lines: Seq<ActionLine>) -> Seq<ActionShown> {
    Seq::new(lines.len(), |i: int| action_shown(lines[i]))
}

/// What follows a row's label: its cooldown, or else its cost.
pub open spec fn row_hint(g: Game, row: state::Row) -> Option<Seq<char>> {
    let cooldown = state::row_cooldown_spec(g, row);
    if cooldown > 0 {
        Some("  "@ + state::decimal(cooldown as nat) + "s"@)
    } else {
        match cost_hint_spec(g, row) {
            Some(c) => Some("  "@ + c),
            None => None,
        }
    }
}

/// The group open after the first `n` rows: each row that names a group
/// opens it.
pub open spec fn group_after(rows: Seq<state::Row>, n: nat) -> Option<state::Section>
    decreases n,
{
    if n == 0 {
        None
    } else {
        match state::row_section_spec(rows[n - 1]) {
            Some(s) => Some(s),
            None => group_after(rows, (n - 1) as nat),
        }
    }
}

/// The action column for the first `n` rows: a legend wherever a row opens
/// a group other than the one open, and a line for every row.
pub open spec fn action_column(g: Game, rows: Seq<state::Row>, chosen: state::Row, n: nat) -> Seq<ActionShown>
    decreases n,
{
    if n == 0 {
        seq![]
    } else {
        let row = rows[n - 1];
        let opens = state::row_section_spec(row);
        let legend = match opens {
            Some(s) => if Some(s) != group_after(rows, (n - 1) as nat) {
                seq![ActionShown::Legend(state::section_legend(s))]
            } else {
                seq![]
            },
            None => seq![],
        };
        action_column(g, rows, chosen, (n - 1) as nat) + legend + seq![
            ActionShown::Row(
                row == chosen,
                state::row_at_maximum_spec(g, row),
                match state::row_label_spec(g, row) {
                    Some(t) => t,
                    None => seq![],
                },
                row_hint(g, row),
            ),
        ]
    }
}

/// Which line of the action column the cursor's row is on, over the first
/// `n` rows; 0 while it has not come up.
pub open spec fn cursor_line_after(g: Game, rows: Seq<state::Row>, chosen: state::Row, n: nat) -> int
    decreases n,
{
    if n == 0 {
        0
    } else if rows[n - 1] == chosen {
        action_column(g, rows, chosen, n).len() - 1
    } else {
        cursor_line_after(g, rows, chosen, (n - 1) as nat)
    }
}

/// The action column: what the player can do, with the cursor and any
/// cooldown or cost, under the build, craft and buy legends. Returns the
/// lines and which of them the cursor is on, for the scroll offset.
pub fn action_lines(game: &Game, view: View, cursor: usize) -> (r: (Vec<ActionLine>, usize))
    requires
        game.wf(),
    ensures
        ({
            let rows = state::panel_rows_spec(*game, view);
            let chosen = state::selected_spec(rows, cursor as int);
            &&& actions_shown(r.0@) == action_column(*game, rows, chosen, rows.len())
            &&& r.1 == cursor_line_after(*game, rows, chosen, rows.len())
        }),
{
    let rows = state::panel_rows(game, view);
    let chosen = state::selected(&rows, cursor);
    let mut lines: Vec<ActionLine> = Vec::new();
    let mut cursor_line: usize = 0;
    let mut group: Option<state::Section> = None;
    let mut i: usize = 0;
    while i < rows.len()
        invariant
            i <= rows@.len(),
            game.wf(),
            rows@ == state::panel_rows_spec(*game, view),
            chosen == state::selected_spec(rows@, cursor as int),
            actions_shown(lines@) == action_column(*game, rows@, chosen, i as nat),
            cursor_line == cursor_line_after(*game, rows@, chosen, i as nat),
            group == group_after(rows@, i as nat),
            lines@.len() <= 2 * i,
        decreases rows@.len() - i,
    {
        let row = rows[i];
        let ghost before = lines@;
        match state::row_section(row) {
            Some(s) => {
                if group != Some(s) {
                    lines.push(ActionLine::Legend(s.legend()));
                }
                group = Some(s);
            },
            None => {},
        }
        if row == chosen {
            cursor_line = lines.len();
        }
        let label = match state::row_label(game, row) {
            Some(t) => t,
            None => String::new(),
        };
        let cooldown = state::row_cooldown(game, row);
        let hint = if cooldown > 0 {
            let mut h = String::from_str("  ");
            state::append_decimal(&mut h, cooldown as u64);
            h.append("s");
            Some(h)
        } else {
            match cost_hint(game, row) {
                Some(c) => {
                    let mut h = String::from_str("  ");
                    h.append(c.as_str());
                    Some(h)
                },
                None => None,
            }
        };
        lines.push(
            ActionLine::Row { selected: row == chosen, spent: state::row_at_maximum(game, row), label, hint },
        );
        proof {
            assert(actions_shown(lines@) =~= action_column(*game, rows@, chosen, (i + 1) as nat));
        }
        i = i + 1;
    }
    (lines, cursor_line)
}

// ---------------------------------------------------------------------------
// The footer
// ---------------------------------------------------------------------------

/// A number below a hundred in two digits, padded with a zero.
pub open spec fn two_digits(n: nat) -> Seq<char> {
    if n < 10 {
        seq!['0'] + state::decimal(n)
    } else {
        state::decimal(n)
    }
}

/// What the footer says of today's allowance: that the village rests once
/// it ran out while the player was here, else the hours and minutes left.
pub open spec fn credit_spec(remaining: nat, withheld_today: nat) -> Seq<char> {
    if withheld_today > 0 && remaining == 0 {
        "   the village rests until tomorrow"@
    } else {
        "   "@ + state::decimal(remaining / 3600) + "h"@ + two_digits((remaining % 3600) / 60)
            + "m of village time left today"@
    }
}

/// What the footer says of today's allowance.
pub fn credit_text(remaining: u32, withheld_today: u32) -> (r: String)
    ensures
        r@ == credit_spec(remaining as nat, withheld_today as nat),
{
    if pace::credit_exhausted(withheld_today, remaining) {
        return String::from_str("   the village rests until tomorrow");
    }
    let mut text = String::from_str("   ");
    state::append_decimal(&mut text, (remaining / 3600) as u64);
    text.append("h");
    let minutes = (remaining % 3600) / 60;
    if minutes < 10 {
        text.append("0");
        proof {
            reveal_strlit("0");
        }
    }
    state::append_decimal(&mut text, minutes as u64);
    text.append("m of village time left today");
    proof {
        assert(text@ =~= credit_spec(remaining as nat, withheld_today as nat));
    }
    text
}

} // verus!
