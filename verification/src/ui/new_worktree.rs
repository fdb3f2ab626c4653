//! The form that asks for the name of a new worktree.
use vstd::prelude::*;

use crate::edit;
use crate::num;
use crate::state::types::{NewWorktreeDialog, NewWorktreeDialogView};
use crate::text;
use crate::text::concat3;
use crate::ui;
use crate::ui::{bordered_inner, split, Constraint, Direction, Rect};
use crate::vcs::VcsBackend;

verus! {

// ---------------------------------------------------------------------------
// Place
// ---------------------------------------------------------------------------

/// The width of the form on a screen of the given width.
pub open spec fn form_width(screen: u16) -> int {
    num::at_most(60, num::minus(screen as int, 4))
}

/// Where the form is on the screen: in the middle, 7 rows high.
pub open spec fn form_area(screen: Rect) -> Rect {
    let width = form_width(screen.width);
    Rect {
        x: (screen.x + num::minus(screen.width as int, width) / 2) as u16,
        y: (screen.y + num::minus(screen.height as int, 7) / 2) as u16,
        width: width as u16,
        height: 7,
    }
}

/// Whether the corner of the form has coordinates.
pub open spec fn has_corner(screen: Rect) -> bool {
    &&& screen.x + num::minus(screen.width as int, form_width(screen.width)) / 2 <= 65535
    &&& screen.y + num::minus(screen.height as int, 7) / 2 <= 65535
}

/// The columns of the form on a screen of the given width.
fn columns(screen: u16) -> (r: u16)
    ensures
        r == form_width(screen),
{
    let room: u16 = screen.saturating_sub(4);
    if room < 60 {
        room
    } else {
        60
    }
}

/// Whether the corner of the form has coordinates.
pub fn can_place(screen: Rect) -> (r: bool)
    ensures
        r == has_corner(screen),
{
    let width: u16 = columns(screen.width);
    screen.x <= 65535 - screen.width.saturating_sub(width) / 2 && screen.y <= 65535
        - screen.height.saturating_sub(7) / 2
}

/// Where the form is on the screen: in the middle, 7 rows high, and at most 60
/// columns wide.
pub fn dialog_area(screen: Rect) -> (r: Rect)
    requires
        has_corner(screen),
    ensures
        r == form_area(screen),
{
    let width: u16 = columns(screen.width);
    Rect {
        x: screen.x + screen.width.saturating_sub(width) / 2,
        y: screen.y + screen.height.saturating_sub(7) / 2,
        width,
        height: 7,
    }
}

/// Where the parts of the form are.
#[derive(Debug, Clone, Copy, PartialEq, Eq, Structural)]
pub struct FormAreas {
    pub outer: Rect,
    pub label: Rect,
    pub input: Rect,
    pub error: Rect,
    pub hint: Rect,
}

/// The heights of the rows of the form.
pub open spec fn form_rows() -> Seq<Constraint> {
    seq![
        Constraint::Length(1),
        Constraint::Length(1),
        Constraint::Length(1),
        Constraint::Length(1),
    ]
}

/// Whether the inside of the form is divided into its rows, each of which is
/// asked to be one cell high.
pub open spec fn is_form(r: FormAreas, screen: Rect) -> bool {
    &&& r.outer == form_area(screen)
    &&& ui::is_division(
        Direction::Vertical,
        form_rows(),
        ui::inside(form_area(screen)),
        seq![r.label, r.input, r.error, r.hint],
    )
}

/// Whether the part takes the whole width of the area, and lies in it.
pub open spec fn is_row(part: Rect, area: Rect) -> bool {
    ui::spans(part, Direction::Vertical, area) && ui::stays_in(part, Direction::Vertical, area)
}

/// Row `i` of the area.
pub open spec fn row_of(area: Rect, i: int) -> Rect {
    Rect { x: area.x, y: (area.y + i) as u16, width: area.width, height: 1 }
}

/// The ends of the rows of the form.
proof fn form_row_edges(room: int, k: int)
    requires
        room >= 4,
        0 <= k <= 4,
    ensures
        ui::lengths_fit(form_rows(), room),
        ui::edge(form_rows(), k, room) == k,
{
    let rows = form_rows();
    reveal_with_fuel(ui::asked, 5);
    assert(rows.take(4) =~= rows);
    assert(rows[0] is Length);
    assert(!ui::percentages_fit(rows));
    assert(rows.take(k).len() == k);
    assert(ui::asked(rows.take(k)) == k) by {
        let one = Constraint::Length(1);
        if k == 0 {
            assert(rows.take(k) =~= Seq::empty());
        } else if k == 1 {
            assert(rows.take(k) =~= seq![one]);
        } else if k == 2 {
            assert(rows.take(k) =~= seq![one, one]);
        } else if k == 3 {
            assert(rows.take(k) =~= seq![one, one, one]);
        }
    }
    assert(forall|i: int| 0 <= i < k ==> (#[trigger] rows.take(k)[i]) is Length);
}

/// Where the parts of the form are: inside its border, and one row each from the
/// top where the inside has as many rows with coordinates.
pub fn form_areas(screen: Rect) -> (r: FormAreas)
    requires
        has_corner(screen),
    ensures
        is_form(r, screen),
        ({
            let inner = ui::inside(form_area(screen));
            &&& is_row(r.label, inner)
            &&& is_row(r.input, inner)
            &&& is_row(r.error, inner)
            &&& is_row(r.hint, inner)
            &&& ui::room(Direction::Vertical, inner) >= 4 ==> {
                &&& r.label == row_of(inner, 0)
                &&& r.input == row_of(inner, 1)
                &&& r.error == row_of(inner, 2)
                &&& r.hint == row_of(inner, 3)
            }
        }),
{
    let outer: Rect = dialog_area(screen);
    let inner: Rect = bordered_inner(outer);
    let rows: Vec<Constraint> = vec![
        Constraint::Length(1),
        Constraint::Length(1),
        Constraint::Length(1),
        Constraint::Length(1),
    ];
    assert(rows@ =~= form_rows());
    let parts = split(Direction::Vertical, &rows, inner);
    assert(parts@ =~= seq![parts@[0], parts@[1], parts@[2], parts@[3]]);
    assert(forall|i: int| 0 <= i < 4 ==> is_row(#[trigger] parts@[i], inner));
    proof {
        let high = ui::room(Direction::Vertical, inner);
        if high >= 4 {
            form_row_edges(high, 0);
            form_row_edges(high, 1);
            form_row_edges(high, 2);
            form_row_edges(high, 3);
            form_row_edges(high, 4);
        }
    }
    FormAreas { outer, label: parts[0], input: parts[1], error: parts[2], hint: parts[3] }
}

/// The inside of the form has more rows than the form needs wherever the form
/// does not run past the last coordinate.
pub proof fn form_has_room_for_its_rows(screen: Rect)
    requires
        has_corner(screen),
    ensures
        form_area(screen).y + 7 <= 65535 ==> ui::room(
            Direction::Vertical,
            ui::inside(form_area(screen)),
        ) == 5,
{
}

/// The form lies within the screen's columns, and within its rows where it has
/// at least 7; the margins on both sides differ by at most one cell.
pub proof fn form_is_centred(screen: Rect)
    requires
        has_corner(screen),
    ensures
        ({
            let f = form_area(screen);
            let left = f.x - screen.x;
            let right = (screen.x + screen.width) - (f.x + f.width);
            let top = f.y - screen.y;
            let bottom = (screen.y + screen.height) - (f.y + f.height);
            &&& f.width <= 60
            &&& 0 <= left <= right <= left + 1
            &&& screen.height >= 7 ==> 0 <= top <= bottom <= top + 1
        }),
{
}

// ---------------------------------------------------------------------------
// Contents
// ---------------------------------------------------------------------------

/// What the form shows.
#[derive(Debug)]
pub struct FormContents {
    pub title: String,
    pub label: String,
    pub input: String,
    /// Whether the input is shown as being worked on.
    pub is_busy: bool,
    pub error: Option<String>,
    pub hint: String,
}

/// Whether the cursor can be drawn: it lies behind the name, or at a character
/// boundary.
pub open spec fn can_draw_cursor(d: NewWorktreeDialogView) -> bool {
    d.is_creating || d.cursor_pos > edit::byte_len(d.branch_name) || edit::at_boundary(
        d.branch_name,
        d.cursor_pos as int,
    )
}

/// The text of the input field: the name with the cursor in it.
pub open spec fn input_text(d: NewWorktreeDialogView) -> Seq<char> {
    if d.is_creating {
        "Creating "@ + d.branch_name + "..."@
    } else if d.cursor_pos <= edit::byte_len(d.branch_name) {
        edit::before(d.branch_name, d.cursor_pos as int).push('\u{2502}') + edit::after(
            d.branch_name,
            d.cursor_pos as int,
        )
    } else {
        d.branch_name
    }
}

/// Whether the cursor can be drawn.
pub fn can_draw(dialog: &NewWorktreeDialog) -> (r: bool)
    ensures
        r == can_draw_cursor(dialog@),
{
    dialog.is_creating || dialog.cursor_pos > edit::text_len(dialog.branch_name.as_str())
        || dialog.branch_name.as_str().is_char_boundary(dialog.cursor_pos)
}

/// What the form shows. jj calls its worktrees workspaces.
pub fn form_contents(dialog: &NewWorktreeDialog) -> (r: FormContents)
    requires
        can_draw_cursor(dialog@),
    ensures
        r.title@ == (match dialog@.backend {
            VcsBackend::Jj => " New Workspace "@,
            VcsBackend::Git => " New Worktree "@,
        }),
        r.label@ == (match dialog@.backend {
            VcsBackend::Jj => "Workspace name:"@,
            VcsBackend::Git => "Branch name:"@,
        }),
        r.input@ == input_text(dialog@),
        r.is_busy == dialog@.is_creating,
        text::opt_view(r.error) == dialog@.error,
        r.hint@ == "Enter: create  Esc: cancel"@,
{
    let name: &str = dialog.branch_name.as_str();
    let input: String = if dialog.is_creating {
        concat3("Creating ", name, "...")
    } else if dialog.cursor_pos <= edit::text_len(name) {
        edit::insert_at(name, dialog.cursor_pos, '\u{2502}')
    } else {
        dialog.branch_name.clone()
    };
    FormContents {
        title: match dialog.backend {
            VcsBackend::Jj => " New Workspace ".to_owned(),
            VcsBackend::Git => " New Worktree ".to_owned(),
        },
        label: match dialog.backend {
            VcsBackend::Jj => "Workspace name:".to_owned(),
            VcsBackend::Git => "Branch name:".to_owned(),
        },
        input,
        is_busy: dialog.is_creating,
        error: match &dialog.error {
            Some(e) => Some(e.clone()),
            None => None,
        },
        hint: "Enter: create  Esc: cancel".to_owned(),
    }
}

/// The form is 7 rows high and 60 columns wide, or as wide as leaves two columns
/// on either side of a narrower screen.
pub proof fn the_form_is_as_wide_as_fits(screen: Rect)
    ensures
        form_area(screen).height == 7,
        screen.width >= 64 ==> form_area(screen).width == 60,
        4 <= screen.width < 64 ==> form_area(screen).width + 4 == screen.width,
        screen.width < 4 ==> form_area(screen).width == 0,
{
}

/// The input shows the name with a bar at the cursor, or that the worktree is
/// being created; a cursor behind the name is not shown.
pub proof fn the_input_shows_the_name(d: NewWorktreeDialogView, k: int)
    requires
        0 <= k <= d.branch_name.len(),
    ensures
        !d.is_creating && d.cursor_pos == edit::byte_len(d.branch_name.take(k)) ==> input_text(d)
            == d.branch_name.insert(k, '\u{2502}'),
        !d.is_creating && d.cursor_pos > edit::byte_len(d.branch_name) ==> input_text(d)
            == d.branch_name,
        d.is_creating ==> input_text(d) == "Creating "@ + d.branch_name + "..."@,
{
    let s = d.branch_name;
    edit::boundary_after_chars(s, k);
    edit::encode_add(s.take(k), s.skip(k));
    assert(s.take(k) + s.skip(k) =~= s);
    assert(s.take(k).push('\u{2502}') + s.skip(k) =~= s.insert(k, '\u{2502}'));
}

} // verus!
