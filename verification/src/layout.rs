//! Where things stand on the screen.

use crate::console::{self, Console};
use crate::dashboard::{no_zones, Dashboard, DashboardV, Pane, PaneZones};
use crate::dashboard_modal::{has_middle, middle};
use crate::dashboard_time::pane_at;
use crate::style::{inside, Rect};
use ratatui::layout::{Constraint, Layout};
use vstd::prelude::*;

verus! {

/// The size of one part of a divided area.
#[derive(Debug, Clone, Copy, PartialEq, Eq, Structural)]
pub enum Part {
    Length(u16),
    Min(u16),
    Percentage(u16),
    /// A share of what is left.
    Fill(u16),
}

/// `part` lies across the whole of `area`, which is divided into rows (`rows`) or columns.
pub open spec fn across(rows: bool, area: Rect, part: Rect) -> bool {
    if rows {
        part.x == area.x && part.width == area.width
    } else {
        part.y == area.y && part.height == area.height
    }
}

/// `part` lies within `area`.
pub open spec fn within(area: Rect, part: Rect) -> bool {
    &&& area.x <= part.x && part.x + part.width <= area.x + area.width
    &&& area.y <= part.y && part.y + part.height <= area.y + area.height
}

/// `part` is one of those that `area` is divided into, as rows (`rows`) or columns.
pub open spec fn part_of(rows: bool, area: Rect, part: Rect) -> bool {
    across(rows, area, part) && within(area, part)
}

/// Where an area begins, downwards (`rows`) or to the right.
pub open spec fn start(rows: bool, r: Rect) -> int {
    if rows {
        r.y as int
    } else {
        r.x as int
    }
}

/// How far an area goes, downwards (`rows`) or to the right.
pub open spec fn size(rows: bool, r: Rect) -> int {
    if rows {
        r.height as int
    } else {
        r.width as int
    }
}

/// How much of an area can be divided: all of it, up to the last cell that can be addressed.
pub open spec fn extent(rows: bool, area: Rect) -> int {
    if start(rows, area) + size(rows, area) <= u16::MAX {
        size(rows, area)
    } else {
        u16::MAX - start(rows, area)
    }
}

/// The parts stand one behind the other, from the start of the area to its end.
pub open spec fn in_line(rows: bool, area: Rect, parts: Seq<Rect>) -> bool {
    &&& parts.len() > 0 ==> start(rows, parts[0]) == start(rows, area)
    &&& parts.len() > 0 ==> start(rows, parts.last()) + size(rows, parts.last()) == start(rows, area)
        + extent(rows, area)
    &&& forall|i: int, j: int|
        0 <= i < parts.len() && j == i + 1 && j < parts.len() ==> start(rows, #[trigger] parts[i])
            + size(rows, parts[i]) == start(rows, #[trigger] parts[j])
}

/// What the parts of a fixed size and the smallest sizes of the others need.
pub open spec fn fixed(sizes: Seq<Part>) -> int
    decreases sizes.len(),
{
    if sizes.len() == 0 {
        0
    } else {
        fixed(sizes.drop_last()) + match sizes.last() {
            Part::Length(n) => n as int,
            Part::Min(n) => n as int,
            _ => 0,
        }
    }
}

/// What the percentages come to.
pub open spec fn percents(sizes: Seq<Part>) -> int
    decreases sizes.len(),
{
    if sizes.len() == 0 {
        0
    } else {
        percents(sizes.drop_last()) + match sizes.last() {
            Part::Percentage(p) => p as int,
            _ => 0,
        }
    }
}

/// A percentage of `n` cells, to the nearest cell.
pub open spec fn percentage(p: int, n: int) -> int {
    (p * n + 50) / 100
}

/// The share `a` of `n` cells where the other share is `b`: to the nearest hundredth of a
/// cell, and that to the nearest cell.
pub open spec fn share(a: int, b: int, n: int) -> int {
    ((200 * a * n + (a + b)) / (2 * (a + b)) + 50) / 100
}

/// The size that `p`, the `i`-th of `sizes`, gets out of `n` cells is `got`. Fixed sizes come
/// before percentages, and these before shares; a part of a fixed size that is the only one
/// to need room gets what there is.
pub open spec fn sized(sizes: Seq<Part>, i: int, n: int, got: int) -> bool {
    match sizes[i] {
        Part::Length(k) => {
            &&& fixed(sizes) <= n ==> got == k
            &&& fixed(sizes) == k && n < k ==> got == n
        },
        Part::Min(k) => k <= i16::MAX ==> got >= if k <= n {
            k as int
        } else {
            n
        },
        Part::Percentage(p) => i == 0 && 100 * fixed(sizes) + percents(sizes) * n <= 100 * n ==> got
            == percentage(p as int, n),
        Part::Fill(a) => i == 0 && fixed(sizes) <= n && sizes.len() > 1 ==> match sizes[1] {
            Part::Fill(b) => got == share(a as int, b as int, n - fixed(sizes)),
            _ => true,
        },
    }
}

/// The ways in which areas are divided here.
pub open spec fn divisions(sizes: Seq<Part>) -> bool {
    ||| sizes.len() == 3 && sizes[0] == Part::Length(1) && sizes[1] is Min && sizes[2]
        == Part::Length(1)
    ||| sizes == seq![Part::Fill(5), Part::Fill(6), Part::Length(8)]
    ||| sizes == seq![Part::Percentage(58), Part::Percentage(42)]
    ||| sizes == seq![Part::Percentage(45), Part::Percentage(55)]
    ||| sizes == seq![Part::Percentage(50), Part::Percentage(50)]
    ||| sizes == seq![Part::Percentage(25), Part::Length(3), Part::Min(0)]
}

/// `ratatui::layout::Layout::split` with its default flex and spacing, for the divisions of
/// this library: one part for each size, in their order, without gaps or overlaps, from one
/// end of the area to the other and across the whole of it. A fixed size is kept wherever
/// there is room for it, then a smallest size, then percentages and shares, as [`sized`]
/// says. Where there is no room, which part gives way is left open: the solver walks hash
/// maps on its way.
#[verifier::external_body]
fn split(rows: bool, sizes: &Vec<Part>, area: Rect) -> (r: Vec<Rect>)
    requires
        divisions(sizes@),
    ensures
        r@.len() == sizes@.len(),
        forall|i: int| 0 <= i < r@.len() ==> part_of(rows, area, #[trigger] r@[i]),
        in_line(rows, area, r@),
        forall|i: int|
            0 <= i < r@.len() ==> sized(sizes@, i, extent(rows, area), size(rows, #[trigger] r@[i])),
{
    let sizes = sizes.iter().map(|p| match *p {
        Part::Length(n) => Constraint::Length(n),
        Part::Min(n) => Constraint::Min(n),
        Part::Percentage(n) => Constraint::Percentage(n),
        Part::Fill(n) => Constraint::Fill(n),
    });
    let Rect { x, y, width, height } = area;
    let whole = ratatui::layout::Rect { x, y, width, height };
    let layout = match rows {
        true => Layout::vertical(sizes),
        false => Layout::horizontal(sizes),
    };
    let parts = layout.split(whole);
    parts.iter().map(|p| Rect { x: p.x, y: p.y, width: p.width, height: p.height }).collect()
}

/// Header, body and footer.
#[derive(Debug, Clone, Copy, PartialEq, Eq, Structural)]
pub struct Screen {
    pub header: Rect,
    pub body: Rect,
    pub footer: Rect,
}

/// The rows of a screen: a line at the top, a line at the bottom, and between them the rest,
/// of `least` lines if it can.
pub fn screen_parts(least: u16) -> (r: Vec<Part>)
    ensures
        r@ == seq![Part::Length(1), Part::Min(least), Part::Length(1)],
{
    vec![Part::Length(1), Part::Min(least), Part::Length(1)]
}

/// The screen out of its rows, from the top down.
pub fn screen_from(rows: &Vec<Rect>) -> (r: Screen)
    requires
        rows@.len() == 3,
    ensures
        r == (Screen { header: rows@[0], body: rows@[1], footer: rows@[2] }),
{
    Screen { header: rows[0], body: rows[1], footer: rows[2] }
}

/// The parts of a screen are rows of it, from the top down. The body has `least` lines if it
/// can; where there is room for it, header and footer have one each, and the body the rest.
pub open spec fn screen_of(s: Screen, area: Rect, least: u16) -> bool {
    let n = extent(true, area);
    &&& part_of(true, area, s.header) && part_of(true, area, s.body) && part_of(
        true,
        area,
        s.footer,
    )
    &&& in_line(true, area, seq![s.header, s.body, s.footer])
    &&& n >= least + 2 ==> s.header.height == 1 && s.footer.height == 1 && s.body.height == n - 2
    &&& least <= i16::MAX ==> s.body.height >= if least <= n {
        least as int
    } else {
        n
    }
}

/// Divides the screen.
pub fn screen(area: Rect, least: u16) -> (r: Screen)
    ensures
        screen_of(r, area, least),
{
    let sizes = screen_parts(least);
    let rows = split(true, &sizes, area);
    proof {
        reveal_with_fuel(fixed, 4);
        assert(fixed(sizes@) == least + 2);
        assert(sized(sizes@, 0, extent(true, area), size(true, rows@[0])));
        assert(sized(sizes@, 1, extent(true, area), size(true, rows@[1])));
        assert(sized(sizes@, 2, extent(true, area), size(true, rows@[2])));
        assert(rows@ =~= seq![rows@[0], rows@[1], rows@[2]]);
    }
    screen_from(&rows)
}

/// The rows of the dashboard: two that share what the log leaves, and the log.
pub fn zone_rows() -> (r: Vec<Part>)
    ensures
        r@ == seq![Part::Fill(5), Part::Fill(6), Part::Length(8)],
{
    vec![Part::Fill(5), Part::Fill(6), Part::Length(8)]
}

/// The top row of the dashboard: the nodes and the radio graph.
pub fn top_columns() -> (r: Vec<Part>)
    ensures
        r@ == seq![Part::Percentage(58), Part::Percentage(42)],
{
    vec![Part::Percentage(58), Part::Percentage(42)]
}

/// The middle row of the dashboard: the dialog and the messages.
pub fn middle_columns() -> (r: Vec<Part>)
    ensures
        r@ == seq![Part::Percentage(45), Part::Percentage(55)],
{
    vec![Part::Percentage(45), Part::Percentage(55)]
}

/// The panes of the dashboard out of its rows and the columns of the first two.
pub fn zones_of(rows: &Vec<Rect>, top: &Vec<Rect>, middle: &Vec<Rect>) -> (z: PaneZones)
    requires
        rows@.len() == 3,
        top@.len() == 2,
        middle@.len() == 2,
    ensures
        z == (PaneZones {
            nodes: top@[0],
            radio: top@[1],
            shell: middle@[0],
            mqtt: middle@[1],
            log: rows@[2],
        }),
{
    PaneZones { nodes: top[0], radio: top[1], shell: middle[0], mqtt: middle[1], log: rows[2] }
}

/// The height of the log: eight lines, or what there is.
pub open spec fn log_height(n: int) -> int {
    if n >= 8 {
        8
    } else {
        n
    }
}

/// Where the panes of the dashboard stand: the nodes in the corner and the radio graph on
/// their right, the dialog below the nodes and the messages on its right, and the log below
/// across the whole body, which the panes fill.
pub open spec fn zones_in(body: Rect, z: PaneZones) -> bool {
    let (w, h) = (extent(false, body), extent(true, body));
    &&& z.nodes.x == body.x && z.nodes.y == body.y
    &&& z.radio.x == z.nodes.x + z.nodes.width && z.radio.y == z.nodes.y
    &&& z.shell.x == body.x && z.shell.y == z.nodes.y + z.nodes.height
    &&& z.mqtt.x == z.shell.x + z.shell.width && z.mqtt.y == z.shell.y
    &&& z.log.x == body.x && z.log.y == z.shell.y + z.shell.height
    &&& z.nodes.height == z.radio.height && z.shell.height == z.mqtt.height
    &&& z.nodes.width == percentage(58, w) && z.shell.width == percentage(45, w)
    &&& z.radio.x + z.radio.width == body.x + w && z.mqtt.x + z.mqtt.width == body.x + w
    &&& z.log.width == body.width && z.log.height == log_height(h)
    &&& z.log.y + z.log.height == body.y + h
    &&& h >= 8 ==> z.nodes.height == share(5, 6, h - 8)
    &&& within(body, z.nodes) && within(body, z.radio)
    &&& within(body, z.shell) && within(body, z.mqtt) && within(body, z.log)
}

/// Divides the body of the dashboard.
pub fn pane_zones(body: Rect) -> (z: PaneZones)
    ensures
        zones_in(body, z),
{
    let (row_sizes, top_sizes, middle_sizes) = (zone_rows(), top_columns(), middle_columns());
    let rows = split(true, &row_sizes, body);
    let top = split(false, &top_sizes, rows[0]);
    let middle = split(false, &middle_sizes, rows[1]);
    proof {
        reveal_with_fuel(fixed, 4);
        reveal_with_fuel(percents, 3);
        let h = extent(true, body);
        assert(part_of(true, body, rows@[0]) && part_of(true, body, rows@[1]));
        assert(part_of(true, body, rows@[2]));
        assert(part_of(false, rows@[0], top@[0]) && part_of(false, rows@[0], top@[1]));
        assert(part_of(false, rows@[1], middle@[0]) && part_of(false, rows@[1], middle@[1]));
        assert(fixed(row_sizes@) == 8);
        assert(sized(row_sizes@, 0, h, size(true, rows@[0])));
        assert(sized(row_sizes@, 2, h, size(true, rows@[2])));
        assert(fixed(top_sizes@) == 0 && percents(top_sizes@) == 100);
        assert(fixed(middle_sizes@) == 0 && percents(middle_sizes@) == 100);
        assert(sized(top_sizes@, 0, extent(false, rows@[0]), size(false, top@[0])));
        assert(sized(middle_sizes@, 0, extent(false, rows@[1]), size(false, middle@[0])));
    }
    zones_of(&rows, &top, &middle)
}

/// Where the zoomed pane stands: all over the body, and the others nowhere.
pub open spec fn zoomed(focus: Pane, body: Rect) -> PaneZones {
    match focus {
        Pane::Nodes => PaneZones { nodes: body, ..no_zones() },
        Pane::Radio => PaneZones { radio: body, ..no_zones() },
        Pane::Shell => PaneZones { shell: body, ..no_zones() },
        Pane::Mqtt => PaneZones { mqtt: body, ..no_zones() },
        Pane::Log => PaneZones { log: body, ..no_zones() },
    }
}

impl Dashboard {
    /// Divides the screen and remembers where the panes are, for clicks. A zoomed pane has
    /// the body for itself.
    pub fn ui(&mut self, area: Rect) -> (r: Screen)
        ensures
            screen_of(r, area, 3),
            final(self)@ == (DashboardV { zones: final(self).zones, ..old(self)@ }),
            if old(self).zoom {
                final(self).zones == zoomed(old(self).focus, r.body)
            } else {
                zones_in(r.body, final(self).zones)
            },
    {
        let s = screen(area, 3);
        let zones = if self.zoom {
            self.zoom_zones(s.body)
        } else {
            pane_zones(s.body)
        };
        self.set_zones(zones);
        s
    }
}

impl Dashboard {
    /// The rows inside a pane: all of them where it is zoomed, which has no border.
    pub fn inner_height(&self, zone: Rect) -> (r: usize)
        ensures
            r == if self.zoom {
                zone.height as int
            } else if zone.height >= 2 {
                zone.height - 2
            } else {
                0
            },
    {
        if self.zoom {
            zone.height as usize
        } else {
            zone.height.saturating_sub(2) as usize
        }
    }
}

/// Where the panes of the console stand.
#[derive(Debug, Clone, Copy, PartialEq, Eq, Structural)]
pub struct ConsoleAreas {
    pub events: Rect,
    pub command: Rect,
    pub responses: Rect,
    pub logs: Rect,
}

/// The columns of the console.
pub fn console_columns() -> (r: Vec<Part>)
    ensures
        r@ == seq![Part::Percentage(50), Part::Percentage(50)],
{
    vec![Part::Percentage(50), Part::Percentage(50)]
}

/// The rows of the console's left column: the events, the command line and the responses.
pub fn console_rows() -> (r: Vec<Part>)
    ensures
        r@ == seq![Part::Percentage(25), Part::Length(3), Part::Min(0)],
{
    vec![Part::Percentage(25), Part::Length(3), Part::Min(0)]
}

/// The panes of the console out of its columns and the rows of the left one.
pub fn areas_of(columns: &Vec<Rect>, left: &Vec<Rect>) -> (r: ConsoleAreas)
    requires
        columns@.len() == 2,
        left@.len() == 3,
    ensures
        r == (ConsoleAreas {
            events: left@[0],
            command: left@[1],
            responses: left@[2],
            logs: columns@[1],
        }),
{
    ConsoleAreas { events: left[0], command: left[1], responses: left[2], logs: columns[1] }
}

/// The height of the command line: three lines, or what there is.
pub open spec fn command_height(n: int) -> int {
    if n >= 3 {
        3
    } else {
        n
    }
}

/// The height of the events: a quarter, unless the command line leaves less.
pub open spec fn events_height(n: int) -> int {
    if n >= 4 {
        percentage(25, n)
    } else {
        0
    }
}

/// Where the panes of the console stand: on the left the events, the command line below them
/// and the responses below that, on the right the logs, each column from the top of the body
/// to its bottom.
pub open spec fn areas_in(body: Rect, a: ConsoleAreas) -> bool {
    let (w, h) = (extent(false, body), extent(true, body));
    &&& a.events.x == body.x && a.command.x == body.x && a.responses.x == body.x
    &&& a.events.width == percentage(50, w)
    &&& a.command.width == a.events.width && a.responses.width == a.events.width
    &&& in_line(true, body, seq![a.events, a.command, a.responses])
    &&& a.events.height == events_height(h) && a.command.height == command_height(h)
    &&& a.logs.x == a.events.x + a.events.width && a.logs.x + a.logs.width == body.x + w
    &&& a.logs.y == body.y && a.logs.height == body.height
    &&& within(body, a.events) && within(body, a.command) && within(body, a.responses)
    &&& within(body, a.logs)
}

/// Divides the body of the console: on the left events, command and responses, on the right
/// the logs.
pub fn render_split(body: Rect) -> (r: ConsoleAreas)
    ensures
        areas_in(body, r),
{
    let (column_sizes, row_sizes) = (console_columns(), console_rows());
    let columns = split(false, &column_sizes, body);
    let left = split(true, &row_sizes, columns[0]);
    proof {
        reveal_with_fuel(fixed, 4);
        reveal_with_fuel(percents, 4);
        let h = extent(true, body);
        assert(part_of(false, body, columns@[0]) && part_of(false, body, columns@[1]));
        assert(part_of(true, columns@[0], left@[0]) && part_of(true, columns@[0], left@[1]));
        assert(part_of(true, columns@[0], left@[2]));
        assert(fixed(column_sizes@) == 0 && percents(column_sizes@) == 100);
        assert(sized(column_sizes@, 0, extent(false, body), size(false, columns@[0])));
        assert(fixed(row_sizes@) == 3 && percents(row_sizes@) == 25);
        assert(sized(row_sizes@, 0, h, size(true, left@[0])));
        assert(sized(row_sizes@, 1, h, size(true, left@[1])));
        assert(left@ =~= seq![left@[0], left@[1], left@[2]]);
    }
    areas_of(&columns, &left)
}

/// The title of a pane of the console.
pub open spec fn title_text(pane: console::Pane) -> Seq<char> {
    match pane {
        console::Pane::Logs => "Device Logs"@,
        console::Pane::Events => "Device Events"@,
        console::Pane::Responses => "Shell Responses"@,
        console::Pane::Command => "Shell Command"@,
    }
}

/// The title of a pane of the console.
pub fn pane_title(pane: console::Pane) -> (r: &'static str)
    ensures
        r@ == title_text(pane),
{
    match pane {
        console::Pane::Logs => "Device Logs",
        console::Pane::Events => "Device Events",
        console::Pane::Responses => "Shell Responses",
        console::Pane::Command => "Shell Command",
    }
}

/// A pane on the screen. A pane without a title has no border either.
#[derive(Debug, Clone, Copy, PartialEq, Eq)]
pub struct PanePlace {
    pub pane: console::Pane,
    pub area: Rect,
    pub title: &'static str,
    pub focused: bool,
}

/// A place in the divided console.
pub open spec fn placed(p: PanePlace, pane: console::Pane, focus: console::Pane) -> bool {
    p.pane == pane && p.title@ == title_text(pane) && p.focused == (focus == pane)
}

fn place(pane: console::Pane, focus: console::Pane, area: Rect) -> (r: PanePlace)
    ensures
        placed(r, pane, focus) && r.area == area,
{
    PanePlace { pane, area, title: pane_title(pane), focused: focus == pane }
}

impl Console {
    /// Where the panes stand in `body`: all four, or the zoomed one alone. Zoomed, a list
    /// has neither title nor border; the command line keeps both.
    pub fn panes(&self, body: Rect) -> (r: Vec<PanePlace>)
        ensures
            if self.zoom {
                &&& r@.len() == 1 && r@[0].pane == self.focus && r@[0].area == body
                &&& if self.focus == console::Pane::Command {
                    placed(r@[0], console::Pane::Command, self.focus)
                } else {
                    r@[0].title@ == ""@ && !r@[0].focused
                }
            } else {
                &&& r@.len() == 4
                &&& placed(r@[0], console::Pane::Events, self.focus)
                &&& placed(r@[1], console::Pane::Command, self.focus)
                &&& placed(r@[2], console::Pane::Responses, self.focus)
                &&& placed(r@[3], console::Pane::Logs, self.focus)
                &&& areas_in(
                    body,
                    ConsoleAreas {
                        events: r@[0].area,
                        command: r@[1].area,
                        responses: r@[2].area,
                        logs: r@[3].area,
                    },
                )
            },
    {
        let mut v: Vec<PanePlace> = Vec::new();
        if self.zoom {
            if self.focus == console::Pane::Command {
                v.push(place(console::Pane::Command, self.focus, body));
            } else {
                v.push(PanePlace { pane: self.focus, area: body, title: "", focused: false });
            }
        } else {
            let areas = render_split(body);
            v.push(place(console::Pane::Events, self.focus, areas.events));
            v.push(place(console::Pane::Command, self.focus, areas.command));
            v.push(place(console::Pane::Responses, self.focus, areas.responses));
            v.push(place(console::Pane::Logs, self.focus, areas.logs));
        }
        v
    }
}

// ---- laws --------------------------------------------------------------------------

/// A click outside the body hits no pane, whether the panes share the body or one of them is
/// zoomed.
pub proof fn law_panes_lie_in_the_body(s: DashboardV, body: Rect, column: u16, row: u16)
    requires
        zones_in(body, s.zones) || s.zones == zoomed(s.focus, body),
        !inside(body, column, row),
    ensures
        pane_at(s, column, row) is None,
{
}

/// The panes share the body: every cell of it belongs to exactly one of them, so that a click
/// in the body always hits the pane that is drawn there.
pub proof fn law_every_cell_has_its_pane(s: DashboardV, body: Rect, column: u16, row: u16)
    requires
        zones_in(body, s.zones),
        body.x + body.width <= u16::MAX,
        body.y + body.height <= u16::MAX,
        inside(body, column, row),
    ensures
        match pane_at(s, column, row) {
            Some(Pane::Nodes) => only(s.zones, s.zones.nodes, column, row),
            Some(Pane::Radio) => only(s.zones, s.zones.radio, column, row),
            Some(Pane::Shell) => only(s.zones, s.zones.shell, column, row),
            Some(Pane::Mqtt) => only(s.zones, s.zones.mqtt, column, row),
            Some(Pane::Log) => only(s.zones, s.zones.log, column, row),
            None => false,
        },
{
}

/// The cell lies in `zone`, and in no other pane.
pub open spec fn only(z: PaneZones, zone: Rect, column: u16, row: u16) -> bool {
    &&& inside(zone, column, row)
    &&& inside(z.nodes, column, row) ==> zone == z.nodes
    &&& inside(z.radio, column, row) ==> zone == z.radio
    &&& inside(z.shell, column, row) ==> zone == z.shell
    &&& inside(z.mqtt, column, row) ==> zone == z.mqtt
    &&& inside(z.log, column, row) ==> zone == z.log
}

/// On a screen whose corners can be written down, a window finds its place in the body.
pub proof fn law_windows_find_their_place(area: Rect, s: Screen, width: u16, height: u16)
    requires
        area.x + area.width <= u16::MAX,
        area.y + area.height <= u16::MAX,
        screen_of(s, area, 3),
    ensures
        has_middle(s.body, width, height),
        within(s.body, middle(s.body, width, height)),
        within(area, middle(s.body, width, height)),
{
}

/// A zoomed pane takes every click in the body.
pub proof fn law_zoomed_pane_takes_the_clicks(s: DashboardV, body: Rect, column: u16, row: u16)
    requires
        s.zones == zoomed(s.focus, body),
        inside(body, column, row),
    ensures
        pane_at(s, column, row) == Some(s.focus),
{
}

} // verus!
