//! What a frame shows, and where.
use vstd::prelude::*;

use ratatui::layout;

use crate::app::App;
use crate::keybindings;
use crate::keybindings::{Action, BindingView, Keybindings};
use crate::num;
use crate::paths;
use crate::paths::FilePath;
use crate::state::types::PanelFocus;
use crate::text;
use crate::text::{concat2, concat3, join_strings, no_words};

pub mod new_worktree;

verus! {

// ---------------------------------------------------------------------------
// Areas
// ---------------------------------------------------------------------------

/// An area of the screen, in cells.
#[derive(Debug, Clone, Copy, PartialEq, Eq, Structural)]
pub struct Rect {
    pub x: u16,
    pub y: u16,
    pub width: u16,
    pub height: u16,
}

/// Along which axis an area is divided.
#[derive(Debug, Clone, Copy, PartialEq, Eq, Structural)]
pub enum Direction {
    Horizontal,
    Vertical,
}

/// How much of an area a part of it gets.
#[derive(Debug, Clone, Copy, PartialEq, Eq, Structural)]
pub enum Constraint {
    Min(u16),
    Length(u16),
    Percentage(u16),
}

/// Whether the part spans the whole area across the axis along which it is
/// divided.
pub open spec fn spans(part: Rect, direction: Direction, area: Rect) -> bool {
    match direction {
        Direction::Horizontal => part.y == area.y && part.height == area.height,
        Direction::Vertical => part.x == area.x && part.width == area.width,
    }
}

/// Whether the part lies within the area along the axis along which it is
/// divided, and within the coordinates that cells have.
pub open spec fn stays_in(part: Rect, direction: Direction, area: Rect) -> bool {
    match direction {
        Direction::Horizontal => area.x <= part.x && part.x + part.width <= num::at_most(
            area.x + area.width,
            65535,
        ),
        Direction::Vertical => area.y <= part.y && part.y + part.height <= num::at_most(
            area.y + area.height,
            65535,
        ),
    }
}

/// Whether the rectangle lies within the area.
pub open spec fn within(part: Rect, area: Rect) -> bool {
    &&& area.x <= part.x
    &&& part.x + part.width <= area.x + area.width
    &&& area.y <= part.y
    &&& part.y + part.height <= area.y + area.height
}

/// How many cells with coordinates the area has along the axis.
pub open spec fn room(direction: Direction, area: Rect) -> int {
    match direction {
        Direction::Horizontal => num::at_most(area.x + area.width, 65535) - area.x,
        Direction::Vertical => num::at_most(area.y + area.height, 65535) - area.y,
    }
}

/// Whether the part begins `from` cells and ends `to` cells behind the start of
/// the area along the axis.
pub open spec fn takes(part: Rect, direction: Direction, area: Rect, from: int, to: int) -> bool {
    match direction {
        Direction::Horizontal => part.x == area.x + from && part.width == to - from,
        Direction::Vertical => part.y == area.y + from && part.height == to - from,
    }
}

/// What the constraints ask for together, in cells or per cent.
pub open spec fn asked(constraints: Seq<Constraint>) -> int
    decreases constraints.len(),
{
    if constraints.len() == 0 {
        0
    } else {
        asked(constraints.drop_last()) + match constraints.last() {
            Constraint::Min(n) => n as int,
            Constraint::Length(n) => n as int,
            Constraint::Percentage(n) => n as int,
        }
    }
}

/// Whether the constraints are numbers of cells that can all be met, of which
/// at most one may be exceeded.
pub open spec fn lengths_fit(constraints: Seq<Constraint>, room: int) -> bool {
    &&& forall|i: int| 0 <= i < constraints.len() ==> !((#[trigger] constraints[i]) is Percentage)
    &&& forall|i: int, j: int|
        0 <= i < j < constraints.len() ==> !((#[trigger] constraints[i]) is Min && (
        #[trigger] constraints[j]) is Min)
    &&& asked(constraints) <= room
}

/// Whether the constraints are percentages that can all be met.
pub open spec fn percentages_fit(constraints: Seq<Constraint>) -> bool {
    &&& forall|i: int| 0 <= i < constraints.len() ==> (#[trigger] constraints[i]) is Percentage
    &&& asked(constraints) <= 100
}

/// Where the first `k` of constraints that fit end, in cells from the start of
/// the area. A minimum gets what is left over; an end between two cells is moved
/// to the nearer one, or to the later one from the middle.
pub open spec fn edge(constraints: Seq<Constraint>, k: int, room: int) -> int {
    let first = constraints.take(k);
    if percentages_fit(constraints) {
        (room * asked(first) + 50) / 100
    } else if exists|i: int| 0 <= i < k && (#[trigger] first[i]) is Min {
        asked(first) + room - asked(constraints)
    } else {
        asked(first)
    }
}

/// Whether the area may be divided along the axis into the parts, which get what
/// the constraints say.
pub uninterp spec fn is_division(
    direction: Direction,
    constraints: Seq<Constraint>,
    area: Rect,
    parts: Seq<Rect>,
) -> bool;

/// Divides an area: `ratatui::layout::Layout::split`. There is one part for each
/// constraint, and each spans the area across the axis and stays in it along the
/// axis. Where the constraints are numbers of cells of which at most one is a
/// minimum, or where they are percentages, and they can all be met, the parts
/// follow one another from the start of the area, each with what it asks for.
/// Where the constraints cannot all be met, the solver documents its answer as
/// indeterminate, so `is_division` only says that the parts are one of its
/// answers.
#[verifier::external_body]
fn split(direction: Direction, constraints: &Vec<Constraint>, area: Rect) -> (parts: Vec<Rect>)
    ensures
        is_division(direction, constraints@, area, parts@),
        parts.len() == constraints.len(),
        forall|i: int|
            0 <= i < parts.len() ==> spans(#[trigger] parts@[i], direction, area) && stays_in(
                parts@[i],
                direction,
                area,
            ),
        lengths_fit(constraints@, room(direction, area)) || percentages_fit(constraints@)
            ==> forall|i: int|
            0 <= i < parts.len() ==> takes(
                #[trigger] parts@[i],
                direction,
                area,
                edge(constraints@, i, room(direction, area)),
                edge(constraints@, i + 1, room(direction, area)),
            ),
{
    let direction = match direction {
        Direction::Horizontal => layout::Direction::Horizontal,
        Direction::Vertical => layout::Direction::Vertical,
    };
    let constraints = constraints.iter().map(|c| match c {
        Constraint::Min(n) => layout::Constraint::Min(*n),
        Constraint::Length(n) => layout::Constraint::Length(*n),
        Constraint::Percentage(n) => layout::Constraint::Percentage(*n),
    });
    let area = layout::Rect { x: area.x, y: area.y, width: area.width, height: area.height };
    let parts = layout::Layout::new(direction, constraints).split(area);
    parts.iter().map(|r| Rect { x: r.x, y: r.y, width: r.width, height: r.height }).collect()
}

/// The inside of an area with a border of one cell.
pub open spec fn inside(area: Rect) -> Rect {
    let right = num::at_most(area.x + area.width, 65535);
    let bottom = num::at_most(area.y + area.height, 65535);
    Rect {
        x: num::at_most(num::at_most(area.x + 1, 65535), right) as u16,
        y: num::at_most(num::at_most(area.y + 1, 65535), bottom) as u16,
        width: num::minus(area.width as int, 2) as u16,
        height: num::minus(area.height as int, 2) as u16,
    }
}

/// The inside of an area with a border: `ratatui::widgets::Block::inner` of a
/// block with all borders and no padding, which takes one cell off each side
/// and keeps the corner within the area.
#[verifier::external_body]
pub(crate) fn bordered_inner(area: Rect) -> (r: Rect)
    ensures
        r == inside(area),
{
    let area = layout::Rect { x: area.x, y: area.y, width: area.width, height: area.height };
    let r = ratatui::widgets::Block::bordered().inner(area);
    Rect { x: r.x, y: r.y, width: r.width, height: r.height }
}

/// Where the parts of a frame are.
#[derive(Debug, Clone, Copy, PartialEq, Eq, Structural)]
pub struct FrameAreas {
    pub worktrees: Rect,
    pub terminal: Rect,
    pub status: Rect,
}

/// The heights of the panels and of the status bar.
pub open spec fn frame_rows() -> Seq<Constraint> {
    seq![Constraint::Min(0), Constraint::Length(1)]
}

/// The widths of the two panels.
pub open spec fn frame_columns() -> Seq<Constraint> {
    seq![Constraint::Percentage(40), Constraint::Percentage(60)]
}

/// Where the parts of a frame are: two panels side by side, of which the left
/// one has 40 % of the width, to the nearest cell, and the right one the rest,
/// above a status bar of one row, or of none where the area has none.
pub open spec fn frame_of(area: Rect) -> FrameAreas {
    let rows = room(Direction::Vertical, area);
    let columns = room(Direction::Horizontal, area);
    let left = (40 * columns + 50) / 100;
    let height = num::minus(rows, 1);
    FrameAreas {
        worktrees: Rect { x: area.x, y: area.y, width: left as u16, height: height as u16 },
        terminal: Rect {
            x: (area.x + left) as u16,
            y: area.y,
            width: (columns - left) as u16,
            height: height as u16,
        },
        status: Rect {
            x: area.x,
            y: (area.y + height) as u16,
            width: area.width,
            height: (rows - height) as u16,
        },
    }
}

/// The ends of the rows of a frame.
proof fn frame_row_edges(room: int)
    requires
        room >= 1,
    ensures
        lengths_fit(frame_rows(), room),
        edge(frame_rows(), 0, room) == 0,
        edge(frame_rows(), 1, room) == room - 1,
        edge(frame_rows(), 2, room) == room,
{
    let rows = frame_rows();
    reveal_with_fuel(asked, 3);
    assert(rows.take(0) =~= Seq::empty());
    assert(rows.take(1) =~= seq![Constraint::Min(0)]);
    assert(rows.take(1)[0] is Min);
    assert(rows.take(2) =~= rows);
    assert(rows[0] is Min && rows[1] is Length);
}

/// The ends of the columns of a frame.
proof fn frame_column_edges(room: int)
    ensures
        percentages_fit(frame_columns()),
        edge(frame_columns(), 0, room) == 0,
        edge(frame_columns(), 1, room) == (40 * room + 50) / 100,
        edge(frame_columns(), 2, room) == room,
{
    let columns = frame_columns();
    reveal_with_fuel(asked, 3);
    assert(columns.take(0) =~= Seq::empty());
    assert(columns.take(1) =~= seq![Constraint::Percentage(40)]);
    assert(columns.take(2) =~= columns);
    let left = asked(columns.take(1));
    let whole = asked(columns.take(2));
    assert(left == 40 && whole == 100);
    assert(room * left == 40 * room) by (nonlinear_arith)
        requires
            left == 40,
    ;
    assert(room * whole == 100 * room) by (nonlinear_arith)
        requires
            whole == 100,
    ;
    assert((100 * room + 50) / 100 == room);
}

/// Where the parts of a frame are: the two panels side by side, taking 40 % and
/// 60 % of the width to the nearest cell, above a status bar of one row.
pub fn frame_areas(area: Rect) -> (r: FrameAreas)
    ensures
        r == frame_of(area),
{
    let rows: Vec<Constraint> = vec![Constraint::Min(0), Constraint::Length(1)];
    assert(rows@ =~= frame_rows());
    let stacked = split(Direction::Vertical, &rows, area);
    let columns: Vec<Constraint> = vec![Constraint::Percentage(40), Constraint::Percentage(60)];
    assert(columns@ =~= frame_columns());
    let beside = split(Direction::Horizontal, &columns, stacked[0]);
    proof {
        let high = room(Direction::Vertical, area);
        if high >= 1 {
            frame_row_edges(high);
        }
        frame_column_edges(room(Direction::Horizontal, area));
        assert(spans(stacked@[0], Direction::Vertical, area));
        assert(spans(stacked@[1], Direction::Vertical, area));
        assert(spans(beside@[0], Direction::Horizontal, stacked@[0]));
        assert(spans(beside@[1], Direction::Horizontal, stacked@[0]));
    }
    FrameAreas { worktrees: beside[0], terminal: beside[1], status: stacked[1] }
}

/// The parts of a frame lie within its area and do not overlap; the status bar
/// has one row wherever the area has any.
pub proof fn frame_parts_share_the_area(area: Rect)
    ensures
        ({
            let f = frame_of(area);
            &&& within(f.worktrees, area)
            &&& within(f.terminal, area)
            &&& within(f.status, area)
            &&& f.worktrees.x + f.worktrees.width == f.terminal.x
            &&& f.worktrees.y + f.worktrees.height == f.status.y
            &&& f.terminal.height == f.worktrees.height
            &&& room(Direction::Vertical, area) >= 1 ==> f.status.height == 1
        }),
{
}

// ---------------------------------------------------------------------------
// Status bar
// ---------------------------------------------------------------------------

/// The hints with that of the action, where it has a key.
pub open spec fn with_hint(
    hints: Seq<Seq<char>>,
    bindings: Seq<BindingView>,
    action: Action,
    label: Seq<char>,
) -> Seq<Seq<char>> {
    match keybindings::hint_of(bindings, action) {
        Some(key) => hints.push(key + ": "@ + label),
        None => hints,
    }
}

/// The hint of the keys that move the selection, where both have a key.
pub open spec fn navigation_hint(bindings: Seq<BindingView>) -> Seq<Seq<char>> {
    match (
        keybindings::hint_of(bindings, Action::MoveDown),
        keybindings::hint_of(bindings, Action::MoveUp),
    ) {
        (Some(down), Some(up)) => seq![down + "/"@ + up + ": navigate"@],
        _ => Seq::empty(),
    }
}

/// The hints of the status bar: how to navigate, then the actions that have a
/// key.
pub open spec fn status_hints(b: Seq<BindingView>) -> Seq<Seq<char>> {
    let h = navigation_hint(b);
    let h = with_hint(h, b, Action::FocusTerminal, "terminal"@);
    let h = with_hint(h, b, Action::UnfocusTerminal, "unfocus"@);
    let h = with_hint(h, b, Action::OpenEditor, "smerge"@);
    let h = with_hint(h, b, Action::NewWorktree, "new"@);
    let h = with_hint(h, b, Action::DeleteWorktree, "delete"@);
    let h = with_hint(h, b, Action::AddRepo, "add repo"@);
    let h = with_hint(h, b, Action::Refresh, "refresh"@);
    with_hint(h, b, Action::Quit, "quit"@)
}

/// Adds the hint of the action, where it has a key.
fn push_hint(hints: &mut Vec<String>, kb: &Keybindings, action: Action, label: &str)
    ensures
        text::strings_view(final(hints)@) == with_hint(
            text::strings_view(old(hints)@),
            kb@,
            action,
            label@,
        ),
{
    let ghost before = text::strings_view(hints@);
    if let Some(key) = kb.hint_for(action) {
        hints.push(concat3(key.as_str(), ": ", label));
        assert(text::strings_view(hints@) =~= before.push(key@ + ": "@ + label@));
    }
}

/// The hints of the status bar.
pub fn build_status_hints(kb: &Keybindings) -> (hints: Vec<String>)
    ensures
        text::strings_view(hints@) == status_hints(kb@),
{
    let mut hints: Vec<String> = no_words();
    if let (Some(down), Some(up)) = (kb.hint_for(Action::MoveDown), kb.hint_for(Action::MoveUp)) {
        let keys = concat3(down.as_str(), "/", up.as_str());
        hints.push(concat2(keys.as_str(), ": navigate"));
    }
    assert(text::strings_view(hints@) =~= navigation_hint(kb@));
    push_hint(&mut hints, kb, Action::FocusTerminal, "terminal");
    push_hint(&mut hints, kb, Action::UnfocusTerminal, "unfocus");
    push_hint(&mut hints, kb, Action::OpenEditor, "smerge");
    push_hint(&mut hints, kb, Action::NewWorktree, "new");
    push_hint(&mut hints, kb, Action::DeleteWorktree, "delete");
    push_hint(&mut hints, kb, Action::AddRepo, "add repo");
    push_hint(&mut hints, kb, Action::Refresh, "refresh");
    push_hint(&mut hints, kb, Action::Quit, "quit");
    hints
}

/// What the status bar shows.
#[derive(Debug)]
pub struct StatusBar {
    /// Shown in front while a refresh runs.
    pub activity: Option<String>,
    pub hints: String,
}

/// What the status bar shows: whether a refresh runs, and the hints.
pub fn status_bar(app: &App) -> (r: StatusBar)
    ensures
        text::opt_view(r.activity) == (if app@.state.is_refreshing {
            Some(" \u{27f3} refreshing "@)
        } else {
            None
        }),
        r.hints@ == " "@ + text::join_with(status_hints(app@.state.keybindings), "  "@),
{
    let hints = build_status_hints(&app.state.keybindings);
    let joined = join_strings(&hints, "  ");
    StatusBar {
        activity: if app.state.is_refreshing {
            Some(" \u{27f3} refreshing ".to_owned())
        } else {
            None
        },
        hints: concat2(" ", joined.as_str()),
    }
}

// ---------------------------------------------------------------------------
// Frame
// ---------------------------------------------------------------------------

/// What a frame shows besides the worktree panel.
#[derive(Debug)]
pub struct FrameContents {
    /// The worktree whose session the terminal panel shows.
    pub session: Option<FilePath>,
    pub terminal_focused: bool,
    pub status: StatusBar,
    /// The dialogs, drawn in this order, each over those before it.
    pub new_worktree: bool,
    pub add_repo: bool,
    pub delete_worktree: bool,
}

/// What a frame shows: the session of the selected worktree, where it has one,
/// the status bar, and every open dialog.
pub fn frame_contents(app: &App) -> (r: FrameContents)
    ensures
        paths::opt_view(r.session) == match app@.state.selected_path() {
            Some(path) if app@.pty_manager.has(path) => Some(path),
            _ => None,
        },
        r.terminal_focused == (app@.state.focus == PanelFocus::Terminal),
        text::opt_view(r.status.activity) == (if app@.state.is_refreshing {
            Some(" \u{27f3} refreshing "@)
        } else {
            None
        }),
        r.status.hints@ == " "@ + text::join_with(status_hints(app@.state.keybindings), "  "@),
        r.new_worktree == app@.state.new_worktree_dialog is Some,
        r.add_repo == app@.state.add_repo_dialog is Some,
        r.delete_worktree == app@.state.delete_worktree_dialog is Some,
{
    let session: Option<FilePath> = match app.state.selected_worktree_path() {
        Some(path) => if app.pty_manager.has_session(path) {
            Some(path.clone())
        } else {
            None
        },
        None => None,
    };
    FrameContents {
        session,
        terminal_focused: app.state.focus == PanelFocus::Terminal,
        status: status_bar(app),
        new_worktree: app.state.new_worktree_dialog.is_some(),
        add_repo: app.state.add_repo_dialog.is_some(),
        delete_worktree: app.state.delete_worktree_dialog.is_some(),
    }
}

/// The left panel takes 40 % of the width, to the nearest cell, the right panel
/// the rest, and the panels and the status bar fill the area.
pub proof fn panels_take_their_share(area: Rect)
    ensures
        ({
            let f = frame_of(area);
            let columns = num::at_most(area.x + area.width, 65535) - area.x;
            let rows = num::at_most(area.y + area.height, 65535) - area.y;
            &&& f.worktrees.x == area.x && f.worktrees.y == area.y
            &&& -50 < 100 * f.worktrees.width - 40 * columns <= 50
            &&& f.terminal.x == area.x + f.worktrees.width
            &&& f.terminal.y == area.y
            &&& f.worktrees.width + f.terminal.width == columns
            &&& f.worktrees.height == f.terminal.height
            &&& f.status.x == area.x && f.status.width == area.width
            &&& f.worktrees.height + f.status.height == rows
            &&& f.status.height <= 1
            &&& rows > 0 ==> f.status.height == 1
        }),
{
}

/// The word that the status bar shows for an action.
pub open spec fn label_of(action: Action) -> Seq<char> {
    match action {
        Action::FocusTerminal => "terminal"@,
        Action::UnfocusTerminal => "unfocus"@,
        Action::OpenEditor => "smerge"@,
        Action::NewWorktree => "new"@,
        Action::DeleteWorktree => "delete"@,
        Action::AddRepo => "add repo"@,
        Action::Refresh => "refresh"@,
        Action::Quit => "quit"@,
        Action::MoveDown | Action::MoveUp => "navigate"@,
    }
}

/// The actions of the status bar, in the order in which they are shown.
pub open spec fn shown_actions() -> Seq<Action> {
    seq![
        Action::FocusTerminal,
        Action::UnfocusTerminal,
        Action::OpenEditor,
        Action::NewWorktree,
        Action::DeleteWorktree,
        Action::AddRepo,
        Action::Refresh,
        Action::Quit,
    ]
}

/// The hints of those of the actions that have a key, in order.
pub open spec fn hints_of(b: Seq<BindingView>, actions: Seq<Action>) -> Seq<Seq<char>>
    decreases actions.len(),
{
    if actions.len() == 0 {
        Seq::empty()
    } else {
        let front = hints_of(b, actions.drop_last());
        match keybindings::hint_of(b, actions.last()) {
            Some(key) => front.push(key + ": "@ + label_of(actions.last())),
            None => front,
        }
    }
}

/// The status bar shows how to navigate, where both directions have a key, and
/// then every action that has one, with its key and its label.
pub proof fn the_status_bar_shows_every_bound_action(b: Seq<BindingView>)
    ensures
        status_hints(b) == navigation_hint(b) + hints_of(b, shown_actions()),
        navigation_hint(b).len() == 1 <==> keybindings::hint_of(b, Action::MoveDown) is Some
            && keybindings::hint_of(b, Action::MoveUp) is Some,
        navigation_hint(b).len() <= 1,
        navigation_hint(b).len() == 1 ==> navigation_hint(b)[0] == keybindings::hint_of(
            b,
            Action::MoveDown,
        )->0 + "/"@ + keybindings::hint_of(b, Action::MoveUp)->0 + ": navigate"@,
{
    let actions = shown_actions();
    let h = navigation_hint(b);
    assert(actions.take(0) =~= Seq::empty());
    assert(h + hints_of(b, actions.take(0)) =~= h);
    one_more_hint(b, 1);
    one_more_hint(b, 2);
    one_more_hint(b, 3);
    one_more_hint(b, 4);
    one_more_hint(b, 5);
    one_more_hint(b, 6);
    one_more_hint(b, 7);
    one_more_hint(b, 8);
    assert(actions.take(8) =~= actions);
}

proof fn one_more_hint(b: Seq<BindingView>, k: int)
    requires
        1 <= k <= 8,
    ensures
        navigation_hint(b) + hints_of(b, shown_actions().take(k)) == with_hint(
            navigation_hint(b) + hints_of(b, shown_actions().take(k - 1)),
            b,
            shown_actions()[k - 1],
            label_of(shown_actions()[k - 1]),
        ),
{
    let actions = shown_actions();
    let h = navigation_hint(b);
    assert(actions.take(k).drop_last() =~= actions.take(k - 1));
    assert(actions.take(k).last() == actions[k - 1]);
    let before = h + hints_of(b, actions.take(k - 1));
    assert(h + hints_of(b, actions.take(k)) =~= with_hint(
        before,
        b,
        actions[k - 1],
        label_of(actions[k - 1]),
    ));
}

} // verus!
