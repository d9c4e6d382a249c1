//! Decisions of the server monitor: reading the player list, following the
//! RCON link, and when to check for updates.
use vstd::prelude::*;
use crate::matching::{regex_captures_all, regex_matches};
use crate::server::RconPlayerEntry;
use std::collections::HashMap;

verus! {

broadcast use vstd::std_specs::hash::group_hash_axioms;

/// Special RCON query id for the player list; its answers are not passed on.
pub const EXEC_LIST_PLAYERS: i32 = -1;
/// Special RCON query id for stopping the server.
pub const EXEC_STOP: i32 = -2;

/// The command that lists the players.
pub fn exec_list_players_command() -> (r: &'static str)
    ensures
        r@ == "ListPlayers"@,
{
    "ListPlayers"
}

/// The command that stops the server.
pub fn exec_stop_command() -> (r: &'static str)
    ensures
        r@ == "DoExit"@,
{
    "DoExit"
}

/// Where an RCON monitor connects to.
#[derive(Debug)]
pub struct RconMonitorSettings {
    pub address: String,
    pub password: String,
}

/// The answer to an RCON command, with the id it was sent under.
#[derive(Debug)]
pub struct RconExecResponse {
    pub id: i32,
    pub response: String,
}

/// What the RCON task reports to the monitor.
#[derive(Debug)]
pub enum RconResponse {
    Stopped,
    Connected,
    ExecResponse(RconExecResponse),
}

/// The monitor's view of its RCON task.
#[derive(Clone, Copy, Debug, PartialEq, Eq, Structural)]
pub enum RconLinkState {
    NotConnected,
    Connected,
}

/// What the monitor found when it looked for a report from the RCON task.
#[derive(Debug)]
pub enum RconEvent {
    Received(RconResponse),
    /// Nothing to read yet.
    Empty,
    /// The task has gone away.
    Disconnected,
}

/// The link after one look for a report: a connection report connects; a
/// connected link passes answers on, and ends when the task stops or goes
/// away; anything else leaves the link as it was.
pub open spec fn spec_pump_state(state: Option<RconLinkState>, event: RconEvent) -> Option<RconLinkState> {
    match state {
        None => None,
        Some(RconLinkState::NotConnected) => match event {
            RconEvent::Received(RconResponse::Connected) => Some(RconLinkState::Connected),
            _ => Some(RconLinkState::NotConnected),
        },
        Some(RconLinkState::Connected) => match event {
            RconEvent::Received(RconResponse::Stopped) => None,
            RconEvent::Disconnected => None,
            _ => Some(RconLinkState::Connected),
        },
    }
}

/// One step of the monitor's RCON pump (`spec_pump_state`): the new link
/// state, and the answer to pass on when a connected link received one.
pub fn rcon_pump(state: Option<RconLinkState>, event: RconEvent) -> (r: (Option<RconLinkState>, Option<RconExecResponse>))
    ensures
        r.0 == spec_pump_state(state, event),
        match (state, event) {
            (Some(RconLinkState::Connected), RconEvent::Received(RconResponse::ExecResponse(resp))) => r.1 == Some(resp),
            _ => r.1 is None,
        },
{
    match state {
        None => (None, None),
        Some(RconLinkState::NotConnected) => match event {
            RconEvent::Received(RconResponse::Connected) => (Some(RconLinkState::Connected), None),
            _ => (Some(RconLinkState::NotConnected), None),
        },
        Some(RconLinkState::Connected) => match event {
            RconEvent::Received(RconResponse::ExecResponse(resp)) => (Some(RconLinkState::Connected), Some(resp)),
            RconEvent::Received(RconResponse::Stopped) => (None, None),
            RconEvent::Disconnected => (None, None),
            _ => (Some(RconLinkState::Connected), None),
        },
    }
}

/// Commands are only sent over a connected link.
pub fn should_send_rcon_command(state: Option<RconLinkState>) -> (r: bool)
    ensures
        r == (state == Some(RconLinkState::Connected)),
{
    match state {
        Some(RconLinkState::Connected) => true,
        _ => false,
    }
}

/// An update check is due at the first look, and then once more than
/// `interval_seconds` have passed since the last one.
pub fn update_check_due(seconds_since_last: Option<u64>, interval_seconds: u64) -> (r: bool)
    ensures
        r == match seconds_since_last {
            None => true,
            Some(s) => s > interval_seconds,
        },
{
    match seconds_since_last {
        None => true,
        Some(s) => s > interval_seconds,
    }
}

/// A player line of `ListPlayers`: `0. Name, 0002a9b4c...`.
pub open spec fn player_pattern() -> Seq<char> {
    "(?<num>[0-9]+). (?<name>[^,]+), (?<userid>[0-9a-f]+)"@
}

pub open spec fn group_text(g: Seq<Option<Seq<char>>>, i: int) -> Seq<char> {
    if 0 <= i < g.len() {
        match g[i] {
            Some(s) => s,
            None => seq![],
        }
    } else {
        seq![]
    }
}

/// The players a match list names: for each match whose number reads as a
/// `usize`, its number, user id and name, in order.
pub open spec fn players_from(ms: Seq<Seq<Option<Seq<char>>>>) -> Seq<(usize, Seq<char>, Seq<char>)>
    decreases ms.len(),
{
    if ms.len() == 0 {
        seq![]
    } else {
        let prev = players_from(ms.drop_last());
        let g = ms.last();
        match crate::parse::spec_parse_unsigned(group_text(g, 1), 10, usize::MAX as nat) {
            Some(n) => prev.push((n as usize, group_text(g, 3), group_text(g, 2))),
            None => prev,
        }
    }
}

/// The players listed in the answer to `ListPlayers`.
pub open spec fn spec_player_list(response: Seq<char>) -> Seq<(usize, Seq<char>, Seq<char>)> {
    match regex_matches(player_pattern(), response) {
        Some(ms) => players_from(ms),
        None => seq![],
    }
}

pub open spec fn players_view(v: Seq<RconPlayerEntry>) -> Seq<(usize, Seq<char>, Seq<char>)> {
    v.map_values(|p: RconPlayerEntry| (p.player_num, p.steam_id@, p.user_name@))
}

fn group_string(g: &Vec<Option<String>>, i: usize) -> (r: String)
    ensures
        r@ == group_text(crate::matching::groups_view(*g), i as int),
{
    if i < g.len() {
        match &g[i] {
            Some(s) => s.clone(),
            None => String::new(),
        }
    } else {
        String::new()
    }
}

/// The players named by the matches of the player pattern (`players_from`).
pub fn players_from_matches(ms: &Vec<Vec<Option<String>>>) -> (r: Vec<RconPlayerEntry>)
    ensures
        players_view(r@) == players_from(ms@.map_values(|g: Vec<Option<String>>| crate::matching::groups_view(g))),
{
    let mut players: Vec<RconPlayerEntry> = Vec::new();
    let ghost mv = ms@.map_values(|g: Vec<Option<String>>| crate::matching::groups_view(g));
    let mut i: usize = 0;
    while i < ms.len()
        invariant
            i <= ms@.len(),
            mv == ms@.map_values(|g: Vec<Option<String>>| crate::matching::groups_view(g)),
            players_view(players@) == players_from(mv.take(i as int)),
        decreases ms@.len() - i,
    {
        let g = &ms[i];
        proof {
            assert(mv.take(i + 1).drop_last() =~= mv.take(i as int));
            assert(mv.take(i + 1).last() == crate::matching::groups_view(*g));
        }
        let num = group_string(g, 1);
        match crate::parse::parse_unsigned(num.as_str(), 10, usize::MAX as u64) {
            Some(n) => {
                let ghost before = players@;
                players.push(RconPlayerEntry {
                    player_num: n as usize,
                    steam_id: group_string(g, 3),
                    user_name: group_string(g, 2),
                });
                assert(players_view(players@) =~= players_view(before).push(players_view(players@).last()));
            },
            None => {},
        }
        i = i + 1;
    }
    assert(mv.take(ms@.len() as int) =~= mv);
    players
}

/// Reads the player list from the answer to `ListPlayers`
/// (`spec_player_list`).
pub fn parse_player_list(response: &str) -> (r: Vec<RconPlayerEntry>)
    ensures
        players_view(r@) == spec_player_list(response@),
{
    let pattern = "(?<num>[0-9]+). (?<name>[^,]+), (?<userid>[0-9a-f]+)";
    match regex_captures_all(pattern, response) {
        None => {
            let players: Vec<RconPlayerEntry> = Vec::new();
            assert(players_view(players@) =~= Seq::<(usize, Seq<char>, Seq<char>)>::empty());
            players
        },
        Some(ms) => players_from_matches(&ms),
    }
}

/// The index of the last answer sent under `id`; `None` when there is none.
pub open spec fn last_response_index(rs: Seq<RconExecResponse>, id: i32) -> Option<int>
    decreases rs.len(),
{
    if rs.len() == 0 {
        None
    } else if rs.last().id == id {
        Some(rs.len() - 1)
    } else {
        last_response_index(rs.drop_last(), id)
    }
}

proof fn lemma_last_response_index(rs: Seq<RconExecResponse>, id: i32)
    ensures
        match last_response_index(rs, id) {
            Some(i) => 0 <= i < rs.len() && rs[i].id == id,
            None => true,
        },
    decreases rs.len(),
{
    if rs.len() > 0 && rs.last().id != id {
        lemma_last_response_index(rs.drop_last(), id);
    }
}

/// The players named by the latest answer to the player-list query among
/// the answers gathered in one round; none when there is no such answer.
pub open spec fn spec_round_players(rs: Seq<RconExecResponse>) -> Seq<(usize, Seq<char>, Seq<char>)> {
    match last_response_index(rs, EXEC_LIST_PLAYERS) {
        Some(i) => spec_player_list(rs[i].response@),
        None => seq![],
    }
}

/// The player list of one monitoring round (`spec_round_players`).
pub fn round_players(responses: &Vec<RconExecResponse>) -> (r: Vec<RconPlayerEntry>)
    ensures
        players_view(r@) == spec_round_players(responses@),
{
    let mut i = responses.len();
    assert(responses@.take(i as int) =~= responses@);
    while i > 0
        invariant
            i <= responses@.len(),
            last_response_index(responses@, EXEC_LIST_PLAYERS) == last_response_index(
                responses@.take(i as int),
                EXEC_LIST_PLAYERS,
            ),
        decreases i,
    {
        assert(responses@.take(i as int).drop_last() =~= responses@.take(i - 1));
        if responses[i - 1].id == EXEC_LIST_PLAYERS {
            proof {
                lemma_last_response_index(responses@, EXEC_LIST_PLAYERS);
            }
            return parse_player_list(responses[i - 1].response.as_str());
        }
        i = i - 1;
    }
    let r: Vec<RconPlayerEntry> = Vec::new();
    assert(players_view(r@) =~= Seq::<(usize, Seq<char>, Seq<char>)>::empty());
    r
}

/// The run state of a server as the application shows it.
#[derive(Debug)]
pub enum RunState {
    NotInstalled,
    Stopped,
    Starting,
    Available(crate::server::RunData),
    Stopping,
}

/// A stop or kill asked for by the user: only an available server is
/// stopped; it becomes stopping, and the stop or kill goes to the monitor
/// when there is one (`send`). A server in any other state is left as it is
/// and nothing is sent.
pub fn request_stop(run_state: &mut RunState, has_monitor: bool) -> (send: bool)
    ensures
        if *old(run_state) is Available {
            *final(run_state) matches RunState::Stopping && send == has_monitor
        } else {
            *final(run_state) == *old(run_state) && !send
        },
{
    match run_state {
        RunState::Available(_) => {
            *run_state = RunState::Stopping;
            has_monitor
        },
        _ => false,
    }
}

/// What the monitor saw of a server's process in one round.
#[derive(Clone, Copy, Debug, PartialEq, Eq, Structural)]
pub enum ProcessObservation {
    /// The process is gone.
    Exited,
    /// The process is there and running.
    Running,
    /// The process is there in another state (sleeping, zombie, ...).
    OtherStatus,
    /// The process could not be looked up.
    Missing,
}

/// What the monitor does about a server after looking at its process.
#[derive(Debug)]
pub enum ProcessVerdict {
    /// Report the server stopped and stop watching it.
    Exited,
    /// Report this run state.
    Report(RunState),
    /// Look at no more servers this round.
    EndRound,
    /// Stop watching the server, reporting nothing.
    Forget,
}

/// The monitor's decision for a server: a process that is gone is reported
/// stopped and forgotten; a running one is reported stopping while a stop was
/// asked for, else available with its data; any other status ends the round;
/// a process that cannot be found is forgotten.
pub fn process_verdict(observation: ProcessObservation, is_stopping: bool, run_data: crate::server::RunData) -> (r: ProcessVerdict)
    ensures
        match observation {
            ProcessObservation::Exited => r is Exited,
            ProcessObservation::Running => if is_stopping {
                r matches ProcessVerdict::Report(RunState::Stopping)
            } else {
                r == ProcessVerdict::Report(RunState::Available(run_data))
            },
            ProcessObservation::OtherStatus => r is EndRound,
            ProcessObservation::Missing => r is Forget,
        },
{
    match observation {
        ProcessObservation::Exited => ProcessVerdict::Exited,
        ProcessObservation::Running => if is_stopping {
            ProcessVerdict::Report(RunState::Stopping)
        } else {
            ProcessVerdict::Report(RunState::Available(run_data))
        },
        ProcessObservation::OtherStatus => ProcessVerdict::EndRound,
        ProcessObservation::Missing => ProcessVerdict::Forget,
    }
}

/// A server whose process the monitor watches.
#[derive(Clone, Copy, Debug, PartialEq, Eq, Structural)]
pub struct ServerProcessRecord {
    pub server_id: u128,
    pub pid: u32,
    /// The RCON link, for a server watched with RCON settings.
    pub rcon_state: Option<RconLinkState>,
    /// A stop or kill was asked for.
    pub is_stopping: bool,
}

/// The servers the monitor watches, by id.
#[derive(Debug)]
pub struct ServerMonitorState {
    pub records: HashMap<u128, ServerProcessRecord>,
}

/// The records after a server is added (`add_server`).
pub open spec fn spec_add(m: Map<u128, ServerProcessRecord>, server_id: u128, pid: Option<u32>, has_rcon: bool) -> Map<u128, ServerProcessRecord> {
    match pid {
        Some(p) => m.insert(
            server_id,
            ServerProcessRecord {
                server_id,
                pid: p,
                rcon_state: if has_rcon { Some(RconLinkState::NotConnected) } else { None },
                is_stopping: false,
            },
        ),
        None => m,
    }
}

/// The records after a stop or a kill of a server (`stop_server`,
/// `mark_stopping`): a watched server is marked stopping.
pub open spec fn spec_stop(m: Map<u128, ServerProcessRecord>, server_id: u128) -> Map<u128, ServerProcessRecord> {
    if m.contains_key(server_id) {
        m.insert(server_id, ServerProcessRecord { is_stopping: true, ..m[server_id] })
    } else {
        m
    }
}

/// The records after one step of a server's RCON link (`pump_rcon`).
pub open spec fn spec_pump(m: Map<u128, ServerProcessRecord>, server_id: u128, event: RconEvent) -> Map<u128, ServerProcessRecord> {
    if m.contains_key(server_id) {
        m.insert(server_id, ServerProcessRecord { rcon_state: spec_pump_state(m[server_id].rcon_state, event), ..m[server_id] })
    } else {
        m
    }
}

/// The records after a look at a server's process (`observe_server`): a
/// server whose process is gone or cannot be found is no longer watched.
pub open spec fn spec_observe(m: Map<u128, ServerProcessRecord>, server_id: u128, observation: ProcessObservation) -> Map<u128, ServerProcessRecord> {
    if m.contains_key(server_id) && (observation is Exited || observation is Missing) {
        m.remove(server_id)
    } else {
        m
    }
}

/// The run state reported for a server: stopped, stopping or available.
#[derive(Clone, Copy, Debug, PartialEq, Eq, Structural)]
pub enum ReportKind {
    Stopped,
    Stopping,
    Available,
}

/// What a look at a server's process reports: nothing for a server that is
/// not watched; stopped when the process is gone; stopping or available
/// while it runs, as a stop was asked for or not; nothing otherwise.
pub open spec fn spec_report(m: Map<u128, ServerProcessRecord>, server_id: u128, observation: ProcessObservation) -> Option<ReportKind> {
    if !m.contains_key(server_id) {
        None
    } else {
        match observation {
            ProcessObservation::Exited => Some(ReportKind::Stopped),
            ProcessObservation::Running => Some(if m[server_id].is_stopping { ReportKind::Stopping } else { ReportKind::Available }),
            _ => None,
        }
    }
}

/// The run state a verdict reports.
pub open spec fn verdict_report(v: ProcessVerdict) -> Option<ReportKind> {
    match v {
        ProcessVerdict::Exited => Some(ReportKind::Stopped),
        ProcessVerdict::Report(RunState::Stopping) => Some(ReportKind::Stopping),
        ProcessVerdict::Report(RunState::Available(_)) => Some(ReportKind::Available),
        _ => None,
    }
}

/// One thing that happens to the monitor's records.
pub enum MonitorStep {
    Add(u128, Option<u32>, bool),
    Stop(u128),
    MarkStopping(u128),
    Pump(u128, RconEvent),
    Observe(u128, ProcessObservation),
}

pub open spec fn step_records(m: Map<u128, ServerProcessRecord>, step: MonitorStep) -> Map<u128, ServerProcessRecord> {
    match step {
        MonitorStep::Add(id, pid, has_rcon) => spec_add(m, id, pid, has_rcon),
        MonitorStep::Stop(id) => spec_stop(m, id),
        MonitorStep::MarkStopping(id) => spec_stop(m, id),
        MonitorStep::Pump(id, event) => spec_pump(m, id, event),
        MonitorStep::Observe(id, observation) => spec_observe(m, id, observation),
    }
}

/// The records after the steps `steps`, in order.
pub open spec fn run_steps(m: Map<u128, ServerProcessRecord>, steps: Seq<MonitorStep>) -> Map<u128, ServerProcessRecord>
    decreases steps.len(),
{
    if steps.len() == 0 {
        m
    } else {
        step_records(run_steps(m, steps.drop_last()), steps.last())
    }
}

/// A server that was asked to stop, whatever else happens to the monitor
/// (other servers added, stopped or looked at, RCON links followed), so long
/// as it is not started again: while its process runs it is reported
/// stopping; when its process is gone it is reported stopped once and is no
/// longer watched; from then on nothing is reported of it.
pub proof fn lemma_stopped_server_reports_stopping_until_exit(
    m: Map<u128, ServerProcessRecord>,
    server_id: u128,
    steps: Seq<MonitorStep>,
)
    requires
        m.contains_key(server_id),
        forall|i: int| 0 <= i < steps.len() ==> !(#[trigger] steps[i] matches MonitorStep::Add(id, _, _) && id == server_id),
    ensures
        ({
            let now = run_steps(spec_stop(m, server_id), steps);
            &&& now.contains_key(server_id) ==> now[server_id].is_stopping
            &&& now.contains_key(server_id) ==> spec_report(now, server_id, ProcessObservation::Running) == Some(ReportKind::Stopping)
            &&& now.contains_key(server_id) ==> spec_report(now, server_id, ProcessObservation::Exited) == Some(ReportKind::Stopped)
            &&& !spec_observe(now, server_id, ProcessObservation::Exited).contains_key(server_id)
            &&& !now.contains_key(server_id) ==> forall|o: ProcessObservation| #[trigger] spec_report(now, server_id, o) is None
        }),
    decreases steps.len(),
{
    let now = run_steps(spec_stop(m, server_id), steps);
    if steps.len() > 0 {
        let prev = run_steps(spec_stop(m, server_id), steps.drop_last());
        lemma_stopped_server_reports_stopping_until_exit(m, server_id, steps.drop_last());
        assert(!(steps.last() matches MonitorStep::Add(id, _, _) && id == server_id));
        assert(now == step_records(prev, steps.last()));
    }
}

/// A server the monitor no longer watches stays unwatched, and so unreported,
/// until it is started again: after its one stopped report it is never
/// reported again.
pub proof fn lemma_forgotten_server_stays_forgotten(
    m: Map<u128, ServerProcessRecord>,
    server_id: u128,
    steps: Seq<MonitorStep>,
)
    requires
        !m.contains_key(server_id),
        forall|i: int| 0 <= i < steps.len() ==> !(#[trigger] steps[i] matches MonitorStep::Add(id, _, _) && id == server_id),
    ensures
        !run_steps(m, steps).contains_key(server_id),
        forall|o: ProcessObservation| #[trigger] spec_report(run_steps(m, steps), server_id, o) is None,
    decreases steps.len(),
{
    if steps.len() > 0 {
        lemma_forgotten_server_stays_forgotten(m, server_id, steps.drop_last());
        assert(!(steps.last() matches MonitorStep::Add(id, _, _) && id == server_id));
    }
}

impl ServerMonitorState {
    /// No server watched.
    pub fn new() -> (r: ServerMonitorState)
        ensures
            r.records@ == Map::<u128, ServerProcessRecord>::empty(),
    {
        ServerMonitorState { records: HashMap::new() }
    }

    /// A server to watch: when its process was found (`pid`), it is watched
    /// from now on (in place of an earlier record of the same server), with
    /// an RCON link still to be connected when RCON settings were given;
    /// otherwise nothing is watched and the server is to be reported stopped.
    pub fn add_server(&mut self, server_id: u128, pid: Option<u32>, has_rcon: bool) -> (watching: bool)
        ensures
            match pid {
                Some(p) => watching && final(self).records@ == old(self).records@.insert(
                    server_id,
                    ServerProcessRecord {
                        server_id,
                        pid: p,
                        rcon_state: if has_rcon { Some(RconLinkState::NotConnected) } else { None },
                        is_stopping: false,
                    },
                ),
                None => !watching && final(self).records@ == old(self).records@,
            },
            final(self).records@ == spec_add(old(self).records@, server_id, pid, has_rcon),
    {
        match pid {
            Some(p) => {
                let record = ServerProcessRecord {
                    server_id,
                    pid: p,
                    rcon_state: if has_rcon { Some(RconLinkState::NotConnected) } else { None },
                    is_stopping: false,
                };
                let _ = self.records.insert(server_id, record);
                true
            },
            None => false,
        }
    }

    /// A stop asked for a watched server marks it stopping; the stop command
    /// is sent only over a connected RCON link. An unknown server is left
    /// alone.
    pub fn stop_server(&mut self, server_id: u128) -> (send_stop: bool)
        ensures
            if old(self).records@.contains_key(server_id) {
                let rec = old(self).records@[server_id];
                &&& final(self).records@ == old(self).records@.insert(server_id, ServerProcessRecord { is_stopping: true, ..rec })
                &&& send_stop == (rec.rcon_state == Some(RconLinkState::Connected))
            } else {
                &&& final(self).records@ == old(self).records@
                &&& !send_stop
            },
            final(self).records@ == spec_stop(old(self).records@, server_id),
    {
        match self.records.get(&server_id) {
            Some(rec) => {
                let rec = *rec;
                let send = should_send_rcon_command(rec.rcon_state);
                let _ = self.records.insert(server_id, ServerProcessRecord { is_stopping: true, ..rec });
                send
            },
            None => false,
        }
    }

    /// The process id of a watched server.
    pub fn pid_of(&self, server_id: u128) -> (r: Option<u32>)
        ensures
            match r {
                Some(p) => self.records@.contains_key(server_id) && self.records@[server_id].pid == p,
                None => !self.records@.contains_key(server_id),
            },
    {
        match self.records.get(&server_id) {
            Some(rec) => Some(rec.pid),
            None => None,
        }
    }

    /// After the process of a watched server was killed, it is stopping.
    pub fn mark_stopping(&mut self, server_id: u128)
        ensures
            if old(self).records@.contains_key(server_id) {
                final(self).records@ == old(self).records@.insert(
                    server_id,
                    ServerProcessRecord { is_stopping: true, ..old(self).records@[server_id] },
                )
            } else {
                final(self).records@ == old(self).records@
            },
            final(self).records@ == spec_stop(old(self).records@, server_id),
    {
        match self.records.get(&server_id) {
            Some(rec) => {
                let rec = *rec;
                let _ = self.records.insert(server_id, ServerProcessRecord { is_stopping: true, ..rec });
            },
            None => {},
        }
    }

    /// One step of a watched server's RCON link (see `rcon_pump`); returns
    /// the answer to pass on, if any.
    pub fn pump_rcon(&mut self, server_id: u128, event: RconEvent) -> (r: Option<RconExecResponse>)
        ensures
            if old(self).records@.contains_key(server_id) {
                let rec = old(self).records@[server_id];
                final(self).records@ == old(self).records@.insert(
                    server_id,
                    ServerProcessRecord { rcon_state: spec_pump_state(rec.rcon_state, event), ..rec },
                )
            } else {
                final(self).records@ == old(self).records@ && r is None
            },
            final(self).records@ == spec_pump(old(self).records@, server_id, event),
    {
        match self.records.get(&server_id) {
            Some(rec) => {
                let rec = *rec;
                let (state, response) = rcon_pump(rec.rcon_state, event);
                let _ = self.records.insert(server_id, ServerProcessRecord { rcon_state: state, ..rec });
                response
            },
            None => None,
        }
    }

    /// Looks at the process of a watched server: the verdict of
    /// `process_verdict` for it, and a server whose process is gone or cannot
    /// be found is no longer watched. `None` for a server that is not
    /// watched.
    pub fn observe_server(&mut self, server_id: u128, observation: ProcessObservation, run_data: crate::server::RunData) -> (r: Option<ProcessVerdict>)
        ensures
            final(self).records@ == spec_observe(old(self).records@, server_id, observation),
            match r {
                None => !old(self).records@.contains_key(server_id),
                Some(v) => old(self).records@.contains_key(server_id) && verdict_report(v) == spec_report(old(self).records@, server_id, observation)
                    && match observation {
                    ProcessObservation::Exited => v is Exited,
                    ProcessObservation::Running => if old(self).records@[server_id].is_stopping {
                        v matches ProcessVerdict::Report(RunState::Stopping)
                    } else {
                        v == ProcessVerdict::Report(RunState::Available(run_data))
                    },
                    ProcessObservation::OtherStatus => v is EndRound,
                    ProcessObservation::Missing => v is Forget,
                },
            },
    {
        let is_stopping = match self.records.get(&server_id) {
            Some(rec) => rec.is_stopping,
            None => {
                return None;
            },
        };
        let v = process_verdict(observation, is_stopping, run_data);
        match observation {
            ProcessObservation::Exited | ProcessObservation::Missing => {
                let _ = self.records.remove(&server_id);
            },
            _ => {},
        }
        Some(v)
    }

    /// Stops watching the servers whose processes are gone.
    pub fn forget_servers(&mut self, server_ids: &Vec<u128>)
        ensures
            final(self).records@ == old(self).records@.remove_keys(server_ids@.to_set()),
    {
        let mut i: usize = 0;
        while i < server_ids.len()
            invariant
                i <= server_ids@.len(),
                self.records@ == old(self).records@.remove_keys(server_ids@.take(i as int).to_set()),
            decreases server_ids@.len() - i,
        {
            let id = server_ids[i];
            let _ = self.records.remove(&id);
            assert(server_ids@.take(i + 1) =~= server_ids@.take(i as int).push(id));
            proof {
                server_ids@.take(i as int).lemma_push_to_set_commute(id);
            }
            assert(self.records@ =~= old(self).records@.remove_keys(server_ids@.take(i + 1).to_set()));
            i = i + 1;
        }
        assert(server_ids@.take(server_ids@.len() as int) =~= server_ids@);
    }
}

} // verus!
