//! What clicks, the passing of time and the cable do to the frontend, said of its panes and
//! windows.

use crate::console_laws::{kept, law_panes_keep_the_newest};
use crate::dashboard::{DashboardV, ModalV, Pane};
use crate::dashboard_event_laws::same_board;
use crate::dashboard_key_laws::{just, under};
use crate::dashboard_keys::{key_pressed, nodes_key, ActionV};
use crate::dashboard_time::{
    cable_reported, catch_followed, chip_at, clicked, is_new, key_hidden, ota_followed, others,
    picker_followed, refreshed, ticked, CableMsg,
};
use crate::style::{Key, Mods, Rect};
use crate::text::lemma_first_where;
use crate::topics::addr_text;
use vstd::prelude::*;

verus! {

/// A cell lies on an area.
pub open spec fn on(r: Rect, column: u16, row: u16) -> bool {
    &&& r.x as int <= column as int && (column as int) < r.x + r.width
    &&& r.y as int <= row as int && (row as int) < r.y + r.height
}

/// A click on a button is its key, for the selected node where it is about one; without the
/// mouse, and under a window, a click does nothing.
pub proof fn law_buttons_are_keys(
    s: DashboardV,
    column: u16,
    row: u16,
    mods: Mods,
    now: u64,
    i: int,
)
    requires
        0 <= i < s.chips.len(),
        on(s.chips[i].0, column, row),
        forall|j: int| 0 <= j < i ==> !on((#[trigger] s.chips[j]).0, column, row),
    ensures
        ({
            let key = s.chips[i].1;
            let about = key == Key::F(4) || key == Key::F(6) || key == Key::Delete || key
                == Key::Char('p');
            let n = clicked(s, column, row, mods, now);
            &&& !s.mouse || s.modal is Some ==> just(n, s)
            &&& s.mouse && s.modal is None && about ==> just(n, nodes_key(s, key))
            &&& s.mouse && s.modal is None && !about ==> n == key_pressed(
                s,
                key,
                mods,
                now,
                Seq::empty(),
            )
        }),
{
    assert forall|j: int| 0 <= j < i implies !chip_at(column, row)(#[trigger] s.chips[j]) by {}
    lemma_first_where(s.chips, chip_at(column, row), i);
}

/// A click on a pane, and on no button, takes the keys there.
pub proof fn law_clicks_focus(s: DashboardV, column: u16, row: u16, mods: Mods, now: u64)
    requires
        s.mouse && s.modal is None,
        forall|j: int| 0 <= j < s.chips.len() ==> !on((#[trigger] s.chips[j]).0, column, row),
    ensures
        ({
            let n = clicked(s, column, row, mods, now);
            let z = s.zones;
            let at = |r: Rect| on(r, column, row);
            &&& at(z.nodes) ==> just(n, DashboardV { focus: Pane::Nodes, ..s })
            &&& !at(z.nodes) && at(z.radio) ==> just(n, DashboardV { focus: Pane::Radio, ..s })
            &&& !at(z.nodes) && !at(z.radio) && at(z.shell) ==> just(
                n,
                DashboardV { focus: Pane::Shell, ..s },
            )
            &&& !at(z.nodes) && !at(z.radio) && !at(z.shell) && at(z.mqtt) ==> just(
                n,
                DashboardV { focus: Pane::Mqtt, ..s },
            )
            &&& !at(z.nodes) && !at(z.radio) && !at(z.shell) && !at(z.mqtt) && at(z.log) ==> just(
                n,
                DashboardV { focus: Pane::Log, ..s },
            )
            &&& !at(z.nodes) && !at(z.radio) && !at(z.shell) && !at(z.mqtt) && !at(z.log) ==> just(
                n,
                s,
            )
        }),
{
    let k = s.chips.len() as int;
    assert forall|j: int| 0 <= j < k implies !chip_at(column, row)(#[trigger] s.chips[j]) by {}
    lemma_first_where(s.chips, chip_at(column, row), k);
}

/// What the cable reports: a step is a line in its window, success is logged and closes it,
/// and a failure is logged and shown in it.
pub proof fn law_the_cable_is_followed(
    s: DashboardV,
    line: String,
    addr: u32,
    port: Seq<char>,
    lines: Seq<Seq<char>>,
    failed: Option<Seq<char>>,
)
    requires
        s.modal == Some(ModalV::PairRun { port, lines, failed }),
    ensures
        same_board(
            cable_reported(s, CableMsg::Progress(line)),
            under(s, ModalV::PairRun { port, lines: lines.push(line@), failed }),
        ),
        same_board(
            cable_reported(s, CableMsg::Done { addr }),
            DashboardV {
                cable: false,
                modal: None,
                log: kept(s.log, "cable-paired "@ + addr_text(addr), 1000),
                ..s
            },
        ),
        same_board(
            cable_reported(s, CableMsg::Failed(line)),
            DashboardV {
                cable: false,
                modal: Some(ModalV::PairRun { port, lines, failed: Some(line@) }),
                log: kept(s.log, "cable pairing failed: "@ + line@, 1000),
                ..s
            },
        ),
{
    law_panes_keep_the_newest(s.log, "cable-paired "@ + addr_text(addr), 1000);
    law_panes_keep_the_newest(s.log, "cable pairing failed: "@ + line@, 1000);
}

/// Where its window is gone, what the cable did is still logged, and no other window changes.
pub proof fn law_the_cable_without_its_window(s: DashboardV, line: String, addr: u32)
    requires
        !(s.modal matches Some(ModalV::PairRun { .. })),
    ensures
        same_board(cable_reported(s, CableMsg::Progress(line)), s),
        same_board(
            cable_reported(s, CableMsg::Done { addr }),
            DashboardV {
                cable: false,
                log: kept(s.log, "cable-paired "@ + addr_text(addr), 1000),
                ..s
            },
        ),
        same_board(
            cable_reported(s, CableMsg::Failed(line)),
            DashboardV {
                cable: false,
                log: kept(s.log, "cable pairing failed: "@ + line@, 1000),
                ..s
            },
        ),
{
    law_panes_keep_the_newest(s.log, "cable-paired "@ + addr_text(addr), 1000);
    law_panes_keep_the_newest(s.log, "cable pairing failed: "@ + line@, 1000);
}

/// A key is hidden when it was shown for 30 seconds, and not before.
pub proof fn law_keys_are_hidden_in_time(
    s: DashboardV,
    now: u64,
    node: u32,
    key: Seq<char>,
    shown: u64,
)
    requires
        s.modal == Some(ModalV::Key { node, key, shown }),
    ensures
        now >= shown + 30_000 ==> same_board(key_hidden(s, now), DashboardV { modal: None, ..s }),
        now < shown + 30_000 ==> same_board(key_hidden(s, now), s),
{
}

/// The window of a pairing over the air is closed once it was open and is no more, or where
/// it did not open within five seconds.
pub proof fn law_pairing_over_the_air_is_followed(
    s: DashboardV,
    now: u64,
    opened_at: u64,
    seen_open: bool,
)
    requires
        s.modal == Some(ModalV::PairOta { opened_at, seen_open }),
    ensures
        ({
            let open = s.pairing matches Some(p) && p.state == "open"@;
            let t = ota_followed(s, now);
            &&& open ==> same_board(t, under(s, ModalV::PairOta { opened_at, seen_open: true }))
            &&& !open && seen_open ==> same_board(t, DashboardV { modal: None, ..s })
            &&& !open && !seen_open && now >= opened_at + 5_000 ==> same_board(
                t,
                DashboardV { modal: None, ..s },
            )
            &&& !open && !seen_open && now < opened_at + 5_000 ==> same_board(t, s)
        }),
{
}

/// The first port that was not there before is taken, within its time; behind it that none
/// came is told.
pub proof fn law_a_new_port_is_caught(
    s: DashboardV,
    now: u64,
    due: bool,
    ports: Seq<Seq<char>>,
    baseline: Seq<Seq<char>>,
    deadline: u64,
    i: int,
)
    requires
        s.modal == Some(ModalV::PairCatch { baseline, deadline }),
        0 <= i <= ports.len(),
        forall|j: int| 0 <= j < i ==> baseline.contains(#[trigger] ports[j]),
        i < ports.len() ==> !baseline.contains(ports[i]),
    ensures
        ({
            let n = catch_followed(s, now, due, ports);
            &&& now >= deadline ==> just(
                n,
                under(
                    s,
                    ModalV::Info {
                        title: " Catch cable device "@,
                        text: "no new USB device appeared within 60 s"@,
                    },
                ),
            )
            &&& now < deadline && !due ==> just(n, s)
            &&& now < deadline && i == ports.len() ==> just(n, s)
            &&& now < deadline && due && i < ports.len() ==> n.act == Some(
                ActionV::StartCable(ports[i]),
            ) && same_board(
                n.s,
                under(
                    DashboardV { cable: true, ..s },
                    ModalV::PairRun { port: ports[i], lines: Seq::empty(), failed: None },
                ),
            )
        }),
{
    assert forall|j: int| 0 <= j < i implies !is_new(baseline)(#[trigger] ports[j]) by {}
    lemma_first_where(ports, is_new(baseline), i);
}

/// Once a second the list of ports is brought up to date, and the choice stays within it.
pub proof fn law_the_list_is_refreshed(
    s: DashboardV,
    now: u64,
    due: bool,
    current: Seq<Seq<char>>,
    ports: Seq<Seq<char>>,
    selected: usize,
)
    requires
        s.modal == Some(ModalV::PairPorts { ports, selected }),
    ensures
        ({
            let t = picker_followed(s, now, due, current);
            let list = refreshed(ports, current);
            &&& !due ==> same_board(t, s)
            &&& due && selected < list.len() ==> same_board(
                t,
                under(
                    DashboardV { last_port_poll: now, ..s },
                    ModalV::PairPorts { ports: list, selected },
                ),
            )
            &&& due && 0 < list.len() <= selected ==> same_board(
                t,
                under(
                    DashboardV { last_port_poll: now, ..s },
                    ModalV::PairPorts { ports: list, selected: (list.len() - 1) as usize },
                ),
            )
            &&& due && list.len() == 0 ==> same_board(
                t,
                under(
                    DashboardV { last_port_poll: now, ..s },
                    ModalV::PairPorts { ports: list, selected: 0 },
                ),
            )
        }),
{
}

/// The time of the last look at the ports: they are looked at once a second.
pub open spec fn polled(s: DashboardV, t: DashboardV, now: u64) -> DashboardV {
    if now >= s.last_port_poll + 1_000 {
        DashboardV { last_port_poll: now, ..t }
    } else {
        t
    }
}

/// Without a window only the ports are looked at with time.
pub proof fn law_time_without_a_window(s: DashboardV, now: u64, ports: Seq<Seq<char>>)
    requires
        s.modal is None,
    ensures
        just(ticked(s, now, ports), polled(s, s, now)),
{
}

/// With time a key is hidden.
pub proof fn law_time_hides_a_key(s: DashboardV, now: u64, ports: Seq<Seq<char>>)
    requires
        s.modal matches Some(ModalV::Key { .. }),
    ensures
        just(ticked(s, now, ports), polled(s, key_hidden(s, now), now)),
{
}

/// With time a pairing over the air is followed.
pub proof fn law_time_follows_a_pairing(s: DashboardV, now: u64, ports: Seq<Seq<char>>)
    requires
        s.modal matches Some(ModalV::PairOta { .. }),
    ensures
        just(ticked(s, now, ports), polled(s, ota_followed(s, now), now)),
{
}

/// With time a port is caught.
pub proof fn law_time_catches_a_port(s: DashboardV, now: u64, ports: Seq<Seq<char>>)
    requires
        s.modal matches Some(ModalV::PairCatch { .. }),
    ensures
        ({
            let due = now >= s.last_port_poll + 1_000;
            let n = catch_followed(s, now, due, ports);
            &&& ticked(s, now, ports).act == n.act
            &&& same_board(ticked(s, now, ports).s, polled(s, n.s, now))
        }),
{
}

/// With time the list of ports is brought up to date.
pub proof fn law_time_refreshes_the_list(s: DashboardV, now: u64, ports: Seq<Seq<char>>)
    requires
        s.modal matches Some(ModalV::PairPorts { .. }),
    ensures
        just(
            ticked(s, now, ports),
            picker_followed(s, now, now >= s.last_port_poll + 1_000, ports),
        ),
{
}

/// Every port but the frontend's own is offered, in its order.
pub proof fn law_the_own_port_is_not_offered(all: Seq<Seq<char>>, own: Seq<char>, k: nat)
    requires
        k < all.len(),
    ensures
        others(all, own, 0).len() == 0,
        all[k as int] == own ==> others(all, own, k + 1) == others(all, own, k),
        all[k as int] != own ==> others(all, own, k + 1) == others(all, own, k).push(all[k as int]),
{
}

} // verus!
