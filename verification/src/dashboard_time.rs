//! Clicks, pairing over the cable, and what the passing of time does to the gateway's
//! frontend.

use crate::dashboard::{
    dashboard_ok, is_open, logged, Dashboard, DashboardV, Modal, ModalV, Pane, KEY_SHOWN_MS,
};
use crate::dashboard_keys::{
    key_pressed, nodes_key, start_cable, still, with_modal, Action, Next, OTA_OPEN_MS, PORT_POLL_MS,
};
use crate::style::{inside, Key, Mods, Rect};
use crate::text::{cat2, first_where, lemma_first_where, push_deep, same};
use crate::topics::{addr_text, node_hex};
use vstd::prelude::*;
use vstd::string::*;

verus! {

// ---- clicks ------------------------------------------------------------------------

pub open spec fn chip_at(column: u16, row: u16) -> spec_fn((Rect, Key)) -> bool {
    |c: (Rect, Key)| inside(c.0, column, row)
}

/// The key that the button under a cell presses.
pub open spec fn chip_key(s: DashboardV, column: u16, row: u16) -> Option<Key> {
    match first_where(s.chips, chip_at(column, row)) {
        Some(i) => Some(s.chips[i].1),
        None => None,
    }
}

/// The pane under a cell.
pub open spec fn pane_at(s: DashboardV, column: u16, row: u16) -> Option<Pane> {
    if inside(s.zones.nodes, column, row) {
        Some(Pane::Nodes)
    } else if inside(s.zones.radio, column, row) {
        Some(Pane::Radio)
    } else if inside(s.zones.shell, column, row) {
        Some(Pane::Shell)
    } else if inside(s.zones.mqtt, column, row) {
        Some(Pane::Mqtt)
    } else if inside(s.zones.log, column, row) {
        Some(Pane::Log)
    } else {
        None
    }
}

/// Keys that act on the selected node, whatever pane is focused.
pub open spec fn acts_on_node(key: Key) -> bool {
    key == Key::F(4) || key == Key::F(6) || key == Key::Delete || key == Key::Char('p')
}

/// A click of the left button. Buttons press their keys, panes take the focus; while the
/// mouse is free or a window is open, clicks do nothing.
pub open spec fn clicked(s: DashboardV, column: u16, row: u16, mods: Mods, now: u64) -> Next {
    if !s.mouse || s.modal is Some {
        still(s)
    } else {
        match chip_key(s, column, row) {
            Some(key) => if acts_on_node(key) {
                still(nodes_key(s, key))
            } else {
                key_pressed(s, key, mods, now, Seq::empty())
            },
            None => match pane_at(s, column, row) {
                Some(p) => still(DashboardV { focus: p, ..s }),
                None => still(s),
            },
        }
    }
}

impl Dashboard {
    fn find_chip(&self, column: u16, row: u16) -> (r: Option<Key>)
        ensures
            r == chip_key(self@, column, row),
    {
        let mut i: usize = 0;
        while i < self.chips.len()
            invariant
                i <= self.chips@.len(),
                forall|j: int| 0 <= j < i ==> !chip_at(column, row)(#[trigger] self.chips@[j]),
            decreases self.chips@.len() - i,
        {
            let (rect, key) = self.chips[i];
            if rect.contains(column, row) {
                proof {
                    lemma_first_where(self.chips@, chip_at(column, row), i as int);
                }
                return Some(key);
            }
            i = i + 1;
        }
        proof {
            lemma_first_where(self.chips@, chip_at(column, row), i as int);
        }
        None
    }

    fn find_pane(&self, column: u16, row: u16) -> (r: Option<Pane>)
        ensures
            r == pane_at(self@, column, row),
    {
        if self.zones.nodes.contains(column, row) {
            Some(Pane::Nodes)
        } else if self.zones.radio.contains(column, row) {
            Some(Pane::Radio)
        } else if self.zones.shell.contains(column, row) {
            Some(Pane::Shell)
        } else if self.zones.mqtt.contains(column, row) {
            Some(Pane::Mqtt)
        } else if self.zones.log.contains(column, row) {
            Some(Pane::Log)
        } else {
            None
        }
    }

    /// A click of the left button.
    pub fn handle_mouse(&mut self, column: u16, row: u16, mods: Mods, now: u64) -> (r: Option<
        Action,
    >)
        requires
            dashboard_ok(old(self)@),
        ensures
            dashboard_ok(final(self)@),
            (Next { s: final(self)@, act: r.deep_view() }) == clicked(
                old(self)@,
                column,
                row,
                mods,
                now,
            ),
    {
        if !self.mouse || self.modal.is_some() {
            return None;
        }
        if let Some(key) = self.find_chip(column, row) {
            match key {
                Key::F(4) | Key::F(6) | Key::Delete | Key::Char('p') => {
                    self.handle_nodes_key(key);
                    return None;
                },
                _ => {
                    let ports: Vec<String> = Vec::new();
                    assert(ports.deep_view() =~= Seq::<Seq<char>>::empty());
                    return self.handle_key(key, mods, now, ports);
                },
            }
        }
        if let Some(p) = self.find_pane(column, row) {
            self.focus = p;
        }
        None
    }
}

// ---- pairing over the cable --------------------------------------------------------

/// What a pairing over the cable reports.
#[derive(Debug, PartialEq)]
pub enum CableMsg {
    Progress(String),
    Done { addr: u32 },
    Failed(String),
}

/// A report of the pairing over the cable: steps go into its window, the outcome into the
/// log. Success closes the window, a failure stays in it.
pub open spec fn cable_reported(s: DashboardV, msg: CableMsg) -> DashboardV {
    match msg {
        CableMsg::Progress(line) => match s.modal {
            Some(ModalV::PairRun { port, lines, failed }) => with_modal(
                s,
                ModalV::PairRun { port, lines: lines.push(line@), failed },
            ),
            _ => s,
        },
        CableMsg::Done { addr } => {
            let s1 = logged(
                DashboardV { cable: false, ..s },
                "cable-paired "@ + addr_text(addr),
            );
            match s1.modal {
                Some(ModalV::PairRun { .. }) => DashboardV { modal: None, ..s1 },
                _ => s1,
            }
        },
        CableMsg::Failed(e) => {
            let s1 = logged(DashboardV { cable: false, ..s }, "cable pairing failed: "@ + e@);
            match s1.modal {
                Some(ModalV::PairRun { port, lines, failed: _ }) => with_modal(
                    s1,
                    ModalV::PairRun { port, lines, failed: Some(e@) },
                ),
                _ => s1,
            }
        },
    }
}

impl Dashboard {
    fn run_progress(&mut self, line: String)
        ensures
            final(self)@ == cable_reported(old(self)@, CableMsg::Progress(line)),
    {
        match self.modal.take() {
            Some(Modal::PairRun { port, lines, failed }) => {
                let mut more = lines;
                push_deep(&mut more, line);
                self.modal = Some(Modal::PairRun { port, lines: more, failed });
            },
            m => {
                self.modal = m;
            },
        }
    }

    fn run_done(&mut self, addr: u32)
        ensures
            final(self)@ == cable_reported(old(self)@, CableMsg::Done { addr }),
    {
        self.cable = false;
        self.push_log(cat2("cable-paired ", node_hex(addr).as_str()));
        let over = match &self.modal {
            Some(Modal::PairRun { .. }) => true,
            _ => false,
        };
        if over {
            self.modal = None;
        }
    }

    fn run_failed(&mut self, e: String)
        ensures
            final(self)@ == cable_reported(old(self)@, CableMsg::Failed(e)),
    {
        self.cable = false;
        self.push_log(cat2("cable pairing failed: ", e.as_str()));
        match self.modal.take() {
            Some(Modal::PairRun { port, lines, failed: _ }) => {
                self.modal = Some(Modal::PairRun { port, lines, failed: Some(e) });
            },
            m => {
                self.modal = m;
            },
        }
    }

    /// Takes a report of the pairing over the cable.
    pub fn on_cable(&mut self, msg: CableMsg)
        ensures
            dashboard_ok(old(self)@) ==> dashboard_ok(final(self)@),
            final(self)@ == cable_reported(old(self)@, msg),
    {
        match msg {
            CableMsg::Progress(line) => self.run_progress(line),
            CableMsg::Done { addr } => self.run_done(addr),
            CableMsg::Failed(e) => self.run_failed(e),
        }
    }
}

// ---- time --------------------------------------------------------------------------

/// At least `ms` have gone by since `start`.
pub open spec fn elapsed(start: u64, now: u64, ms: u64) -> bool {
    now >= start + ms
}

fn has_elapsed(start: u64, now: u64, ms: u64) -> (r: bool)
    ensures
        r == elapsed(start, now, ms),
{
    now >= start && now - start >= ms
}

/// A revealed key is hidden after a while.
pub open spec fn key_hidden(s: DashboardV, now: u64) -> DashboardV {
    match s.modal {
        Some(ModalV::Key { node: _, key: _, shown }) => if elapsed(shown, now, KEY_SHOWN_MS) {
            DashboardV { modal: None, ..s }
        } else {
            s
        },
        _ => s,
    }
}

/// The window about pairing over the air closes once that ended, or never began.
pub open spec fn ota_followed(s: DashboardV, now: u64) -> DashboardV {
    match s.modal {
        Some(ModalV::PairOta { opened_at, seen_open }) => {
            let open = is_open(s.pairing);
            let seen = seen_open || open;
            if (seen && !open) || (!seen && elapsed(opened_at, now, OTA_OPEN_MS)) {
                DashboardV { modal: None, ..s }
            } else {
                with_modal(s, ModalV::PairOta { opened_at, seen_open: seen })
            }
        },
        _ => s,
    }
}

pub open spec fn is_new(baseline: Seq<Seq<char>>) -> spec_fn(Seq<char>) -> bool {
    |p: Seq<char>| !baseline.contains(p)
}

/// The search for a new port: over after its time, or with the first port that was not
/// there at the start.
pub open spec fn catch_followed(s: DashboardV, now: u64, due: bool, ports: Seq<Seq<char>>) -> Next {
    match s.modal {
        Some(ModalV::PairCatch { baseline, deadline }) => if now >= deadline {
            still(
                with_modal(
                    s,
                    ModalV::Info {
                        title: " Catch cable device "@,
                        text: "no new USB device appeared within 60 s"@,
                    },
                ),
            )
        } else if due {
            match first_where(ports, is_new(baseline)) {
                Some(i) => start_cable(s, ports[i]),
                None => still(s),
            }
        } else {
            still(s)
        },
        _ => still(s),
    }
}

/// Those of the first `k` ports that are still there.
pub open spec fn kept(ports: Seq<Seq<char>>, current: Seq<Seq<char>>, k: nat) -> Seq<Seq<char>>
    decreases k,
{
    if k == 0 {
        Seq::empty()
    } else {
        let before = kept(ports, current, (k - 1) as nat);
        if current.contains(ports[k - 1]) {
            before.push(ports[k - 1])
        } else {
            before
        }
    }
}

/// A list with those of the first `k` ports that it did not hold, behind it.
pub open spec fn grown(list: Seq<Seq<char>>, current: Seq<Seq<char>>, k: nat) -> Seq<Seq<char>>
    decreases k,
{
    if k == 0 {
        list
    } else {
        let before = grown(list, current, (k - 1) as nat);
        if before.contains(current[k - 1]) {
            before
        } else {
            before.push(current[k - 1])
        }
    }
}

/// A list of ports brought up to date: what went away leaves, what is new comes last.
pub open spec fn refreshed(ports: Seq<Seq<char>>, current: Seq<Seq<char>>) -> Seq<Seq<char>> {
    grown(kept(ports, current, ports.len()), current, current.len())
}

pub open spec fn picker_followed(s: DashboardV, now: u64, due: bool, current: Seq<Seq<char>>) -> DashboardV {
    if due {
        let s1 = match s.modal {
            Some(ModalV::PairPorts { ports, selected }) => {
                let list = refreshed(ports, current);
                with_modal(
                    s,
                    ModalV::PairPorts {
                        ports: list,
                        selected: if selected >= list.len() {
                            if list.len() == 0 {
                                0
                            } else {
                                (list.len() - 1) as usize
                            }
                        } else {
                            selected
                        },
                    },
                )
            },
            _ => s,
        };
        DashboardV { last_port_poll: now, ..s1 }
    } else {
        s
    }
}

/// What the passing of time does; `ports` are the serial ports, if they were listed.
pub open spec fn ticked(s: DashboardV, now: u64, ports: Seq<Seq<char>>) -> Next {
    let due = elapsed(s.last_port_poll, now, PORT_POLL_MS);
    let n = catch_followed(ota_followed(key_hidden(s, now), now), now, due, ports);
    Next { s: picker_followed(n.s, now, due, ports), act: n.act }
}

/// Whether `p` is one of `list`.
fn is_in(list: &Vec<String>, p: &str) -> (r: bool)
    ensures
        r == list.deep_view().contains(p@),
{
    let mut i: usize = 0;
    while i < list.len()
        invariant
            i <= list@.len(),
            forall|j: int| 0 <= j < i ==> #[trigger] list.deep_view()[j] != p@,
        decreases list@.len() - i,
    {
        if same(list[i].as_str(), p) {
            assert(list.deep_view()[i as int] == p@);
            return true;
        }
        assert(list.deep_view()[i as int] != p@);
        i = i + 1;
    }
    false
}

fn first_new(ports: &Vec<String>, baseline: &Vec<String>) -> (r: Option<usize>)
    ensures
        match r {
            Some(i) => i < ports@.len() && first_where(ports.deep_view(), is_new(baseline.deep_view()))
                == Some(i as int),
            None => first_where(ports.deep_view(), is_new(baseline.deep_view())) is None,
        },
{
    let mut i: usize = 0;
    while i < ports.len()
        invariant
            i <= ports@.len(),
            forall|j: int|
                0 <= j < i ==> !is_new(baseline.deep_view())(#[trigger] ports.deep_view()[j]),
        decreases ports@.len() - i,
    {
        if !is_in(baseline, ports[i].as_str()) {
            proof {
                lemma_first_where(ports.deep_view(), is_new(baseline.deep_view()), i as int);
            }
            return Some(i);
        }
        i = i + 1;
    }
    proof {
        lemma_first_where(ports.deep_view(), is_new(baseline.deep_view()), i as int);
    }
    None
}

fn refresh(ports: &Vec<String>, current: &Vec<String>) -> (r: Vec<String>)
    ensures
        r.deep_view() == refreshed(ports.deep_view(), current.deep_view()),
{
    let mut list: Vec<String> = Vec::new();
    let mut i: usize = 0;
    assert(list.deep_view() =~= Seq::<Seq<char>>::empty());
    while i < ports.len()
        invariant
            i <= ports@.len(),
            list.deep_view() == kept(ports.deep_view(), current.deep_view(), i as nat),
        decreases ports@.len() - i,
    {
        if is_in(current, ports[i].as_str()) {
            push_deep(&mut list, ports[i].clone());
        }
        i = i + 1;
    }
    let ghost base = list.deep_view();
    let mut j: usize = 0;
    while j < current.len()
        invariant
            j <= current@.len(),
            list.deep_view() == grown(base, current.deep_view(), j as nat),
        decreases current@.len() - j,
    {
        if !is_in(&list, current[j].as_str()) {
            push_deep(&mut list, current[j].clone());
        }
        j = j + 1;
    }
    list
}

/// The serial ports besides the gateway's own.
pub open spec fn others(all: Seq<Seq<char>>, own: Seq<char>, k: nat) -> Seq<Seq<char>>
    decreases k,
{
    if k == 0 {
        Seq::empty()
    } else {
        let before = others(all, own, (k - 1) as nat);
        if all[k - 1] != own {
            before.push(all[k - 1])
        } else {
            before
        }
    }
}

/// The serial ports besides the gateway's own: a node cannot be on that one.
pub fn poll_ports(own: &str, all: &Vec<String>) -> (r: Vec<String>)
    ensures
        r.deep_view() == others(all.deep_view(), own@, all@.len()),
{
    let mut list: Vec<String> = Vec::new();
    let mut i: usize = 0;
    assert(list.deep_view() =~= Seq::<Seq<char>>::empty());
    while i < all.len()
        invariant
            i <= all@.len(),
            list.deep_view() == others(all.deep_view(), own@, i as nat),
        decreases all@.len() - i,
    {
        if !same(all[i].as_str(), own) {
            push_deep(&mut list, all[i].clone());
        }
        i = i + 1;
    }
    list
}

impl Dashboard {
    fn hide_key(&mut self, now: u64)
        ensures
            final(self)@ == key_hidden(old(self)@, now),
    {
        let over = match &self.modal {
            Some(Modal::Key { node: _, key: _, shown }) => has_elapsed(*shown, now, KEY_SHOWN_MS),
            _ => false,
        };
        if over {
            self.modal = None;
        }
    }

    fn follow_ota(&mut self, now: u64)
        ensures
            final(self)@ == ota_followed(old(self)@, now),
    {
        let open = self.pairing_open();
        match self.modal.take() {
            Some(Modal::PairOta { opened_at, seen_open }) => {
                let seen = seen_open || open;
                if (seen && !open) || (!seen && has_elapsed(opened_at, now, OTA_OPEN_MS)) {
                    self.modal = None;
                } else {
                    self.modal = Some(Modal::PairOta { opened_at, seen_open: seen });
                }
            },
            m => {
                self.modal = m;
            },
        }
    }

    fn follow_catch(&mut self, now: u64, due: bool, ports: &Vec<String>) -> (r: Option<Action>)
        ensures
            (Next { s: final(self)@, act: r.deep_view() }) == catch_followed(
                old(self)@,
                now,
                due,
                ports.deep_view(),
            ),
    {
        let mut found: Option<usize> = None;
        let mut over = false;
        if let Some(Modal::PairCatch { baseline, deadline }) = &self.modal {
            if now >= *deadline {
                over = true;
            } else if due {
                found = first_new(ports, baseline);
            }
        }
        if over {
            self.modal = Some(
                Modal::Info {
                    title: " Catch cable device ".to_owned(),
                    text: "no new USB device appeared within 60 s".to_owned(),
                },
            );
            None
        } else {
            match found {
                Some(i) => {
                    let p = ports[i].clone();
                    self.begin_cable(p)
                },
                None => None,
            }
        }
    }

    fn follow_picker(&mut self, now: u64, due: bool, current: &Vec<String>)
        ensures
            final(self)@ == picker_followed(old(self)@, now, due, current.deep_view()),
    {
        if due {
            match self.modal.take() {
                Some(Modal::PairPorts { ports, selected }) => {
                    let list = refresh(&ports, current);
                    let n: usize = list.len();
                    let at: usize = if selected >= n { n.saturating_sub(1) } else { selected };
                    self.modal = Some(Modal::PairPorts { ports: list, selected: at });
                },
                m => {
                    self.modal = m;
                },
            }
            self.last_port_poll = now;
        }
    }

    /// Whether the serial ports have to be listed now: once a second, while a window needs
    /// them.
    pub fn poll_due(&self, now: u64) -> (r: bool)
        ensures
            r == (elapsed(self.last_port_poll, now, PORT_POLL_MS) && (self@.modal is Some && (
            self@.modal->0 is PairCatch || self@.modal->0 is PairPorts))),
    {
        has_elapsed(self.last_port_poll, now, PORT_POLL_MS) && match &self.modal {
            Some(Modal::PairCatch { .. }) => true,
            Some(Modal::PairPorts { .. }) => true,
            _ => false,
        }
    }

    /// What the passing of time does: hides a revealed key, follows pairing over the air,
    /// the search for a new port and the list of ports. `ports` are the serial ports, where
    /// they were due.
    pub fn tick_pairing(&mut self, now: u64, ports: &Vec<String>) -> (r: Option<Action>)
        requires
            dashboard_ok(old(self)@),
        ensures
            dashboard_ok(final(self)@),
            (Next { s: final(self)@, act: r.deep_view() }) == ticked(
                old(self)@,
                now,
                ports.deep_view(),
            ),
    {
        let due = has_elapsed(self.last_port_poll, now, PORT_POLL_MS);
        self.hide_key(now);
        self.follow_ota(now);
        let act = self.follow_catch(now, due, ports);
        self.follow_picker(now, due, ports);
        act
    }
}

// ---- laws --------------------------------------------------------------------------

/// What is kept is a part of the list, in its order; where nothing went away, it is all
/// of it.
proof fn lemma_kept_all(ports: Seq<Seq<char>>, current: Seq<Seq<char>>, k: nat)
    requires
        k <= ports.len(),
        forall|i: int| 0 <= i < k ==> current.contains(#[trigger] ports[i]),
    ensures
        kept(ports, current, k) == ports.take(k as int),
    decreases k,
{
    if k > 0 {
        lemma_kept_all(ports, current, (k - 1) as nat);
        assert(current.contains(ports[k - 1]));
        assert(ports.take(k as int) =~= ports.take(k - 1).push(ports[k - 1]));
    } else {
        assert(ports.take(0) =~= Seq::<Seq<char>>::empty());
    }
}

proof fn lemma_grown_prefix(list: Seq<Seq<char>>, current: Seq<Seq<char>>, k: nat)
    ensures
        list.is_prefix_of(grown(list, current, k)),
    decreases k,
{
    if k > 0 {
        lemma_grown_prefix(list, current, (k - 1) as nat);
        let g = grown(list, current, (k - 1) as nat);
        assert(list =~= grown(list, current, k).subrange(0, list.len() as int)) by {
            assert forall|i: int| 0 <= i < list.len() implies list[i] == grown(list, current, k)[i] by {
                assert(list[i] == g.subrange(0, list.len() as int)[i]);
            }
        }
    } else {
        assert(list =~= list.subrange(0, list.len() as int));
    }
}

/// While no port goes away, nothing moves under the cursor: the old list stays in front of
/// the new one.
pub proof fn law_port_list_only_grows(ports: Seq<Seq<char>>, current: Seq<Seq<char>>)
    requires
        forall|i: int| 0 <= i < ports.len() ==> current.contains(#[trigger] ports[i]),
    ensures
        ports.is_prefix_of(refreshed(ports, current)),
{
    lemma_kept_all(ports, current, ports.len());
    assert(ports.take(ports.len() as int) =~= ports);
    lemma_grown_prefix(ports, current, current.len());
}

proof fn lemma_grown_holds(list: Seq<Seq<char>>, current: Seq<Seq<char>>, k: nat, i: int)
    requires
        0 <= i < k <= current.len(),
    ensures
        grown(list, current, k).contains(current[i]),
    decreases k,
{
    let before = grown(list, current, (k - 1) as nat);
    let after = grown(list, current, k);
    if i < k - 1 {
        lemma_grown_holds(list, current, (k - 1) as nat, i);
        let j = choose|j: int| 0 <= j < before.len() && before[j] == current[i];
        assert(after[j] == current[i]);
    } else if !before.contains(current[i]) {
        assert(after[before.len() as int] == current[i]);
    }
}

/// Every port that is there is listed after a refresh.
pub proof fn law_every_port_is_listed(ports: Seq<Seq<char>>, current: Seq<Seq<char>>, i: int)
    requires
        0 <= i < current.len(),
    ensures
        refreshed(ports, current).contains(current[i]),
{
    lemma_grown_holds(kept(ports, current, ports.len()), current, current.len(), i);
}

/// A revealed key is not shown longer than its time.
pub proof fn law_key_is_hidden(s: DashboardV, now: u64, ports: Seq<Seq<char>>)
    ensures
        ticked(s, now, ports).s.modal matches Some(ModalV::Key { node: _, key: _, shown }) ==> now < shown
            + KEY_SHOWN_MS,
{
}

/// While the mouse is free, or a window is open, clicks change nothing.
pub proof fn law_clicks_need_the_mouse(s: DashboardV, column: u16, row: u16, mods: Mods, now: u64)
    requires
        !s.mouse || s.modal is Some,
    ensures
        clicked(s, column, row, mods, now) == still(s),
{
}

} // verus!
