//! Words on the WebSocket bridge, and what passes between the machine and the browsers.

use crate::features::ws_bridge;
use crate::features::ws_bridge::{build_mesh_json, EventV, JsonV, MeshJsonParams, WsEvent};
use crate::goals;
use crate::goals::GoalStatus;
use crate::mesh::api;
use crate::mesh::node::{id_to_hex, MeshV};
use crate::spawn::{ChildInfo, ChildV};
use crate::text;
use crate::text::{push_u64, take_chars, text, to_chars};
use crate::types::Cell;
use crate::vm::base;
use crate::vm::net;
use crate::vm::state;
use crate::vm::state::{Time, VmV, VM};
use vstd::prelude::*;

verus! {

/// WS-STATUS ( -- )
#[verifier::opaque]
pub open spec fn p_ws_status(v: VmV) -> VmV {
    match v.ws {
        Some(b) => base::emit(v, ws_bridge::bridge_text(b)),
        None => base::emit(v, "ws-bridge: not running\n"@),
    }
}

/// WS-CLIENTS ( -- )
#[verifier::opaque]
pub open spec fn p_ws_clients(v: VmV, t: Time) -> VmV {
    match v.ws {
        Some(b) => base::emit(v, ws_bridge::clients_text(b, t.now)),
        None => base::emit(v, "  (ws-bridge not running)\n"@),
    }
}

/// WS-PORT ( -- n )
#[verifier::opaque]
pub open spec fn p_ws_port(v: VmV) -> VmV {
    base::pushed(
        v,
        match v.ws {
            Some(b) => b.port as i64,
            None => 0,
        },
    )
}

/// A text with a backslash before each quote.
pub open spec fn quotes_escaped(s: Seq<char>) -> Seq<char>
    decreases s.len(),
{
    if s.len() == 0 {
        Seq::empty()
    } else if s.last() == '"' {
        quotes_escaped(s.drop_last()).push('\\').push('"')
    } else {
        quotes_escaped(s.drop_last()).push(s.last())
    }
}

/// The machine with another message for the browsers.
#[verifier::opaque]
pub open spec fn with_json(v: VmV, s: Seq<char>) -> VmV {
    VmV { mesh_json: s, ..v }
}

/// WS-BROADCAST" message" ( -- )
#[verifier::opaque]
pub open spec fn p_ws_broadcast(v: VmV) -> VmV {
    let (s, v) = base::parsed(v, '"');
    base::emit(
        with_json(
            v,
            "{\"type\":\"broadcast\",\"message\":\""@ + quotes_escaped(s) + "\"}"@,
        ),
        "ws broadcast: "@ + s + "\n"@,
    )
}

fn escape_quotes(s: &str) -> (out: String)
    ensures
        out@ == quotes_escaped(s@),
{
    let v = to_chars(s);
    let mut out = String::new();
    let mut i: usize = 0;
    assert(out@ =~= quotes_escaped(v@.take(0)));
    while i < v.len()
        invariant
            i <= v@.len(),
            out@ == quotes_escaped(v@.take(i as int)),
        decreases v@.len() - i,
    {
        assert(v@.take(i + 1).drop_last() =~= v@.take(i as int));
        let c: char = v[i];
        if c == '"' {
            out.push('\\');
        }
        out.push(c);
        i = i + 1;
    }
    assert(v@.take(i as int) =~= v@);
    out
}

impl VM {
    pub(crate) fn prim_ws_status(&mut self)
        ensures
            final(self)@ == p_ws_status(old(self)@),
    {
        reveal(p_ws_status);
        let s = match &self.ws_state {
            Some(b) => b.format_status(),
            None => text("ws-bridge: not running\n"),
        };
        self.emit_str(s.as_str());
    }

    pub(crate) fn prim_ws_clients(&mut self, t: Time)
        ensures
            final(self)@ == p_ws_clients(old(self)@, t),
    {
        reveal(p_ws_clients);
        let s = match &self.ws_state {
            Some(b) => b.format_clients(t.now),
            None => text("  (ws-bridge not running)\n"),
        };
        self.emit_str(s.as_str());
    }

    pub(crate) fn prim_ws_port(&mut self)
        ensures
            final(self)@ == p_ws_port(old(self)@),
    {
        reveal(p_ws_port);
        let port: Cell = match &self.ws_state {
            Some(b) => b.port as Cell,
            None => 0,
        };
        self.push(port);
    }

    fn set_json(&mut self, s: String)
        ensures
            final(self)@ == with_json(old(self)@, s@),
    {
        reveal(with_json);
        self.ws_mesh_json = s;
    }

    pub(crate) fn prim_ws_broadcast(&mut self)
        ensures
            final(self)@ == p_ws_broadcast(old(self)@),
    {
        reveal(p_ws_broadcast);
        let s = self.parse_until('"');
        let e = escape_quotes(s.as_str());
        let mut json = text("{\"type\":\"broadcast\",\"message\":\"");
        json.append(e.as_str());
        json.append("\"}");
        self.set_json(json);
        let mut out = text("ws broadcast: ");
        out.append(s.as_str());
        out.append("\n");
        self.emit_str(out.as_str());
    }
}

// ---------------------------------------------------------------------------
// The mesh for the browsers
// ---------------------------------------------------------------------------

/// All, pending, active and completed goals.
pub open spec fn goal_numbers(m: MeshV) -> (usize, usize, usize, usize) {
    (
        m.goals.goals.len() as usize,
        goals::goals_in(m.goals.goals, GoalStatus::Pending) as usize,
        goals::goals_in(m.goals.goals, GoalStatus::Active) as usize,
        goals::goals_in(m.goals.goals, GoalStatus::Completed) as usize,
    )
}

/// The identities of children, with their generation.
pub open spec fn child_rows(s: Seq<ChildV>, generation: u32) -> Seq<(Seq<char>, u32)> {
    Seq::new(s.len(), |i: int| (text::hex(s[i].node_id), generation))
}

/// What the browsers are told.
pub open spec fn json_of(v: VmV) -> JsonV {
    JsonV {
        self_id: match v.node_id {
            Some(id) => text::hex(id),
            None => Seq::empty(),
        },
        self_fitness: v.fitness.score,
        self_generation: v.spawn.generation,
        peers: match v.mesh {
            Some(m) => api::details(m.peers),
            None => Seq::empty(),
        },
        goals: match v.mesh {
            Some(m) => goal_numbers(m),
            None => (0, 0, 0, 0),
        },
        recent_events: match v.mesh {
            Some(m) => api::latest(m.events),
            None => Seq::empty(),
        },
        children: child_rows(v.spawn.children, v.spawn.generation.wrapping_add(1)),
        watch_count: v.monitor.watches.len() as usize,
        alert_count: v.monitor.alerts.len() as usize,
    }
}

/// The machine with the state of the mesh ready for the browsers. The recorded events have been
/// taken.
#[verifier::opaque]
pub open spec fn json_updated(v: VmV) -> VmV {
    let s = ws_bridge::mesh_json(json_of(v));
    match v.mesh {
        Some(m) => with_json(net::with_mesh(v, (MeshV { events: Seq::empty(), ..m })), s),
        None => with_json(v, s),
    }
}

fn rows_of(children: &[ChildInfo], generation: u32) -> (rows: Vec<(String, u32)>)
    ensures
        ws_bridge::child_rows(rows@) == child_rows(crate::spawn::child_views(children@), generation),
{
    let mut rows: Vec<(String, u32)> = Vec::new();
    let ghost all = child_rows(crate::spawn::child_views(children@), generation);
    let mut i: usize = 0;
    while i < children.len()
        invariant
            i <= children@.len(),
            all == child_rows(crate::spawn::child_views(children@), generation),
            ws_bridge::child_rows(rows@) == all.take(i as int),
        decreases children@.len() - i,
    {
        let ghost before = ws_bridge::child_rows(rows@);
        let id = id_to_hex(&children[i].node_id);
        let ghost row = (id@, generation);
        rows.push((id, generation));
        assert(ws_bridge::child_rows(rows@) =~= before.push(row));
        assert(all[i as int] == row);
        i = i + 1;
        assert(all.take(i as int) =~= all.take(i - 1).push(all[i - 1]));
    }
    assert(all.take(i as int) =~= all);
    rows
}

impl VM {
    fn build_json(
        &self,
        peers: &[(String, i64, String)],
        goals: (usize, usize, usize, usize),
        events: &[String],
    ) -> (s: String)
        ensures
            s@ == ws_bridge::mesh_json(
                JsonV {
                    peers: ws_bridge::peer_rows(peers@),
                    goals,
                    recent_events: text::texts(events@),
                    ..json_of(self@)
                },
            ),
    {
        let id = match &self.node_id_cache {
            Some(id) => id_to_hex(id),
            None => String::new(),
        };
        let rows = rows_of(
            &self.spawn_state.children,
            self.spawn_state.generation.wrapping_add(1),
        );
        build_mesh_json(
            MeshJsonParams {
                self_id: id.as_str(),
                self_fitness: self.fitness.score,
                self_generation: self.spawn_state.generation,
                peers,
                goals,
                recent_events: events,
                children: &rows,
                watch_count: self.monitor.watches.len(),
                alert_count: self.monitor.alerts.len(),
            },
        )
    }

    pub(crate) fn update_ws_mesh_json(&mut self)
        ensures
            final(self)@ == json_updated(old(self)@),
    {
        reveal(json_updated);
        let ghost v = self@;
        match self.take_mesh() {
            Some(mut m) => {
                let peers = m.peer_details();
                let numbers = m.goal_stats();
                let events = m.drain_recent_events();
                assert(ws_bridge::peer_rows(peers@) =~= json_of(v).peers);
                let s = self.build_json(&peers, numbers, &events);
                self.put_mesh(m);
                self.set_json(s);
            },
            None => {
                let peers: Vec<(String, i64, String)> = Vec::new();
                let events: Vec<String> = Vec::new();
                assert(ws_bridge::peer_rows(peers@) =~= json_of(v).peers);
                assert(text::texts(events@) =~= json_of(v).recent_events);
                let s = self.build_json(&peers, (0, 0, 0, 0), &events);
                self.set_json(s);
            },
        }
    }
}

// ---------------------------------------------------------------------------
// Events from the browsers
// ---------------------------------------------------------------------------

/// The machine after an event from a browser.
#[verifier::opaque]
pub open spec fn event_taken(v: VmV, e: EventV, t: Time) -> VmV {
    match e {
        EventV::GoalSubmit { code, priority } => match v.mesh {
            Some(m) => base::printed(
                net::with_mesh(v, api::goal_created(m, code, priority, Some(code), t.epoch)),
                "[ws] goal #"@ + text::dec(m.goals.counter as nat) + " from browser: "@ + text::clip(
                    code,
                    40,
                ) + "\n"@,
            ),
            None => v,
        },
        EventV::ClientConnected { id } => base::printed(v, "[ws] browser connected: "@ + id + "\n"@),
        EventV::ClientDisconnected { id } => base::printed(
            v,
            "[ws] browser disconnected: "@ + id + "\n"@,
        ),
        EventV::Heartbeat { id, fitness } => v,
    }
}

/// The machine after a row of events, the first first.
pub open spec fn events_taken(v: VmV, s: Seq<EventV>, t: Time) -> VmV
    decreases s.len(),
{
    if s.len() == 0 {
        v
    } else {
        event_taken(events_taken(v, s.drop_last(), t), s.last(), t)
    }
}

/// The machine without the events that have arrived.
#[verifier::opaque]
pub open spec fn without_events(v: VmV) -> VmV {
    VmV { ws_events: Seq::empty(), ..v }
}

/// The machine after all events that have arrived.
#[verifier::opaque]
pub open spec fn events_polled(v: VmV, t: Time) -> VmV {
    events_taken(without_events(v), v.ws_events, t)
}

impl VM {
    fn print_id(&mut self, what: &str, id: &str)
        ensures
            final(self)@ == base::printed(old(self)@, what@ + id@ + "\n"@),
    {
        let mut s = text(what);
        s.append(id);
        s.append("\n");
        self.print_str(s.as_str());
    }

    fn take_event(&mut self, e: &WsEvent, t: Time)
        ensures
            final(self)@ == event_taken(old(self)@, e@, t),
    {
        reveal(event_taken);
        match e {
            WsEvent::GoalSubmit { code, priority } => {
                if let Some(mut m) = self.take_mesh() {
                    let id = m.create_goal(code.as_str(), *priority, Some(code.clone()), t.epoch);
                    self.put_mesh(m);
                    let short = take_chars(code.as_str(), 40);
                    let mut s = text("[ws] goal #");
                    push_u64(&mut s, id);
                    s.append(" from browser: ");
                    s.append(short.as_str());
                    s.append("\n");
                    self.print_str(s.as_str());
                }
            },
            WsEvent::ClientConnected { id } => self.print_id(
                "[ws] browser connected: ",
                id.as_str(),
            ),
            WsEvent::ClientDisconnected { id } => self.print_id(
                "[ws] browser disconnected: ",
                id.as_str(),
            ),
            WsEvent::Heartbeat { id, fitness } => {},
        }
    }

    fn take_events(&mut self) -> (v: Vec<WsEvent>)
        ensures
            state::event_views(v@) == old(self)@.ws_events,
            final(self)@ == without_events(old(self)@),
    {
        reveal(without_events);
        let mut v: Vec<WsEvent> = Vec::new();
        std::mem::swap(&mut self.ws_events, &mut v);
        assert(self@.ws_events =~= Seq::empty());
        v
    }

    pub(crate) fn poll_ws_events(&mut self, t: Time)
        ensures
            final(self)@ == events_polled(old(self)@, t),
    {
        reveal(events_polled);
        let events = self.take_events();
        let ghost v = self@;
        let ghost s = state::event_views(events@);
        let mut i: usize = 0;
        while i < events.len()
            invariant
                i <= events@.len(),
                s == state::event_views(events@),
                self@ == events_taken(v, s.take(i as int), t),
            decreases events@.len() - i,
        {
            assert(s.take(i + 1).drop_last() =~= s.take(i as int));
            assert(s[i as int] == events@[i as int]@);
            self.take_event(&events[i], t);
            i = i + 1;
        }
        assert(s.take(i as int) =~= s);
    }
}

} // verus!
