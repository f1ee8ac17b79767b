//! Combat awareness: notices combat rounds, requests `#scan all` probes at a
//! steady cadence and keeps the latest completed scan snapshot.
use crate::scan_grammar::{
    is_combat_end_line, is_probe_echo, is_round_header, is_round_header_spec, parse_scan_row,
    parse_scan_row_spec, rows_view, CombatScanRow, RowView, DEATH_COMBAT_END_LINE,
    NOT_IN_COMBAT_LINE, PROBE_COMMAND,
};
use vstd::prelude::*;

verus! {

/// After this many lines without the probe's echo, the probe is abandoned.
pub const MAX_LINES_WAITING_FOR_ECHO: u8 = 30;

#[derive(Debug, Clone, Copy, PartialEq, Eq)]
pub enum CombatAwarenessEffect {
    RoundStarted,
    CombatEnded,
    SendProbe,
    SendShortScore,
}

#[derive(Debug, Clone, PartialEq, Eq)]
pub struct LineHandlingResult {
    pub gag: bool,
    pub effects: Vec<CombatAwarenessEffect>,
}

/// Where an in-flight `#scan all` probe stands.
#[derive(Debug, Clone, Copy, PartialEq, Eq, Structural)]
pub enum ProbePhase {
    Idle,
    WaitingForEcho,
    CapturingRows,
}

/// The state of combat awareness as plain values.
pub struct AwarenessState {
    pub active: bool,
    pub phase: ProbePhase,
    pub counter: int,
    pub waiting: int,
    pub pending: Seq<RowView>,
    pub snapshot: Seq<RowView>,
}

/// The state after combat ends: inactive, idle, nothing pending, no snapshot.
pub open spec fn ended_state() -> AwarenessState {
    AwarenessState {
        active: false,
        phase: ProbePhase::Idle,
        counter: 0,
        waiting: 0,
        pending: Seq::empty(),
        snapshot: Seq::empty(),
    }
}

/// Starting a probe: only from idle; the echo counter restarts.
pub open spec fn request_probe_spec(s: AwarenessState) -> (AwarenessState, bool) {
    if s.phase == ProbePhase::Idle {
        (AwarenessState { phase: ProbePhase::WaitingForEcho, waiting: 0, ..s }, true)
    } else {
        (s, false)
    }
}

/// A finished scan: the pending rows become the snapshot.
pub open spec fn complete_scan_spec(s: AwarenessState) -> AwarenessState {
    AwarenessState {
        snapshot: s.pending,
        pending: Seq::empty(),
        phase: ProbePhase::Idle,
        waiting: 0,
        ..s
    }
}

/// An in-flight probe that is given up: back to idle, pending rows dropped.
pub open spec fn abandon_spec(s: AwarenessState) -> AwarenessState {
    AwarenessState { phase: ProbePhase::Idle, waiting: 0, pending: Seq::empty(), ..s }
}

pub open spec fn is_echo_spec(line: Seq<char>) -> bool {
    line == "scan all"@ || line == PROBE_COMMAND@
}

pub open spec fn is_end_spec(line: Seq<char>) -> bool {
    line == NOT_IN_COMBAT_LINE@ || line == DEATH_COMBAT_END_LINE@
}

pub open spec fn no_effects() -> Seq<CombatAwarenessEffect> {
    Seq::empty()
}

/// One incoming line: the next state, whether the line is hidden, and the effects.
pub open spec fn step_spec(s: AwarenessState, line: Seq<char>) -> (
    AwarenessState,
    bool,
    Seq<CombatAwarenessEffect>,
) {
    if is_end_spec(line) {
        (ended_state(), s.phase != ProbePhase::Idle, seq![CombatAwarenessEffect::CombatEnded])
    } else if is_round_header_spec(line) {
        let s1 = if s.phase == ProbePhase::CapturingRows {
            complete_scan_spec(s)
        } else if s.phase == ProbePhase::WaitingForEcho {
            abandon_spec(s)
        } else {
            s
        };
        let (s2, sent) = request_probe_spec(AwarenessState { active: true, ..s1 });
        let base = seq![CombatAwarenessEffect::RoundStarted, CombatAwarenessEffect::SendShortScore];
        (s2, false, if sent {
            base.push(CombatAwarenessEffect::SendProbe)
        } else {
            base
        })
    } else if s.phase == ProbePhase::Idle {
        if !s.active {
            (s, false, no_effects())
        } else if is_echo_spec(line) {
            (
                AwarenessState { phase: ProbePhase::CapturingRows, pending: Seq::empty(), ..s },
                true,
                no_effects(),
            )
        } else if parse_scan_row_spec(line) is Some {
            (
                AwarenessState {
                    phase: ProbePhase::CapturingRows,
                    pending: s.pending.push(parse_scan_row_spec(line)->0),
                    ..s
                },
                true,
                no_effects(),
            )
        } else {
            (s, false, no_effects())
        }
    } else if s.phase == ProbePhase::WaitingForEcho {
        if is_echo_spec(line) {
            (
                AwarenessState {
                    phase: ProbePhase::CapturingRows,
                    waiting: 0,
                    pending: Seq::empty(),
                    ..s
                },
                true,
                no_effects(),
            )
        } else if parse_scan_row_spec(line) is Some {
            (
                AwarenessState {
                    phase: ProbePhase::CapturingRows,
                    waiting: 0,
                    pending: s.pending.push(parse_scan_row_spec(line)->0),
                    ..s
                },
                true,
                no_effects(),
            )
        } else if s.waiting + 1 >= MAX_LINES_WAITING_FOR_ECHO {
            (abandon_spec(s), false, no_effects())
        } else {
            (AwarenessState { waiting: s.waiting + 1, ..s }, false, no_effects())
        }
    } else {
        if is_echo_spec(line) {
            (s, true, no_effects())
        } else if parse_scan_row_spec(line) is Some {
            (
                AwarenessState { pending: s.pending.push(parse_scan_row_spec(line)->0), ..s },
                true,
                no_effects(),
            )
        } else {
            (complete_scan_spec(s), false, no_effects())
        }
    }
}

/// One user command sent to the game: every second one while combat is
/// active and no probe is in flight requests a probe.
pub open spec fn observe_spec(s: AwarenessState) -> (AwarenessState, Option<CombatAwarenessEffect>) {
    if !s.active || s.phase != ProbePhase::Idle {
        (s, None)
    } else if s.counter + 1 >= 2 {
        (request_probe_spec(AwarenessState { counter: 0, ..s }).0, Some(CombatAwarenessEffect::SendProbe))
    } else {
        (AwarenessState { counter: s.counter + 1, ..s }, None)
    }
}

/// Tracks combat rounds and the `#scan all` probe.
#[derive(Debug, Clone, PartialEq, Eq)]
pub struct CombatAwareness {
    active: bool,
    phase: ProbePhase,
    user_command_counter: u8,
    lines_waiting_for_echo: u8,
    pending_rows: Vec<CombatScanRow>,
    snapshot: Vec<CombatScanRow>,
}

impl Default for CombatAwareness {
    fn default() -> (r: Self)
        ensures
            r.wf(),
            r.state() == ended_state(),
    {
        let r = CombatAwareness {
            active: false,
            phase: ProbePhase::Idle,
            user_command_counter: 0,
            lines_waiting_for_echo: 0,
            pending_rows: Vec::new(),
            snapshot: Vec::new(),
        };
        assert(rows_view(r.pending_rows@) =~= Seq::<RowView>::empty());
        assert(rows_view(r.snapshot@) =~= Seq::<RowView>::empty());
        r
    }
}

proof fn lemma_rows_push(rows: Seq<CombatScanRow>, r: CombatScanRow)
    ensures
        rows_view(rows.push(r)) == rows_view(rows).push(r.view_row()),
{
    assert(rows_view(rows.push(r)) =~= rows_view(rows).push(r.view_row()));
}

proof fn lemma_rows_empty()
    ensures
        rows_view(Seq::<CombatScanRow>::empty()) == Seq::<RowView>::empty(),
{
    assert(rows_view(Seq::<CombatScanRow>::empty()) =~= Seq::<RowView>::empty());
}

impl CombatAwareness {
    /// The state as plain values.
    pub closed spec fn state(&self) -> AwarenessState {
        AwarenessState {
            active: self.active,
            phase: self.phase,
            counter: self.user_command_counter as int,
            waiting: self.lines_waiting_for_echo as int,
            pending: rows_view(self.pending_rows@),
            snapshot: rows_view(self.snapshot@),
        }
    }

    /// The counters stay below the points where they restart.
    pub closed spec fn wf(&self) -> bool {
        self.user_command_counter < 2 && self.lines_waiting_for_echo < MAX_LINES_WAITING_FOR_ECHO
    }

    pub fn end_combat(&mut self)
        ensures
            final(self).wf(),
            final(self).state() == ended_state(),
    {
        self.active = false;
        self.phase = ProbePhase::Idle;
        self.user_command_counter = 0;
        self.lines_waiting_for_echo = 0;
        self.pending_rows.clear();
        self.snapshot.clear();
        proof {
            lemma_rows_empty();
        }
    }

    pub fn observe_user_game_command(&mut self) -> (r: Option<CombatAwarenessEffect>)
        requires
            old(self).wf(),
        ensures
            final(self).wf(),
            (final(self).state(), r) == observe_spec(old(self).state()),
    {
        if !self.active || self.phase != ProbePhase::Idle {
            return None;
        }
        self.user_command_counter = self.user_command_counter + 1;
        if self.user_command_counter >= 2 {
            self.user_command_counter = 0;
            if self.request_probe() {
                return Some(CombatAwarenessEffect::SendProbe);
            }
        }
        None
    }

    pub fn handle_incoming_line(&mut self, line: &str) -> (r: LineHandlingResult)
        requires
            old(self).wf(),
        ensures
            final(self).wf(),
            (final(self).state(), r.gag, r.effects@) == step_spec(old(self).state(), line@),
    {
        if is_combat_end_line(line) {
            let internal_probe = self.phase != ProbePhase::Idle;
            self.end_combat();
            let effects = vec![CombatAwarenessEffect::CombatEnded];
            assert(effects@ =~= seq![CombatAwarenessEffect::CombatEnded]);
            return LineHandlingResult { gag: internal_probe, effects };
        }
        if is_round_header(line) {
            if self.phase == ProbePhase::CapturingRows {
                self.complete_scan();
            } else if self.phase == ProbePhase::WaitingForEcho {
                self.abandon_in_flight_probe();
            }
            self.active = true;
            let mut effects = vec![
                CombatAwarenessEffect::RoundStarted,
                CombatAwarenessEffect::SendShortScore,
            ];
            let ghost base = effects@;
            assert(base =~= seq![
                CombatAwarenessEffect::RoundStarted,
                CombatAwarenessEffect::SendShortScore,
            ]);
            if self.request_probe() {
                effects.push(CombatAwarenessEffect::SendProbe);
            }
            return LineHandlingResult { gag: false, effects };
        }
        match self.phase {
            ProbePhase::Idle => self.handle_idle_line(line),
            ProbePhase::WaitingForEcho => self.handle_waiting_for_echo(line),
            ProbePhase::CapturingRows => self.handle_capturing_rows(line),
        }
    }

    /// Latest completed scan rows; empty when no probe has finished this combat.
    pub fn snapshot(&self) -> (r: &[CombatScanRow])
        ensures
            rows_view(r@) == self.state().snapshot,
    {
        self.snapshot.as_slice()
    }

    /// Whether combat is considered active (round header seen, combat not ended).
    pub fn is_active(&self) -> (r: bool)
        ensures
            r == self.state().active,
    {
        self.active
    }

    /// Whether no probe is in flight.
    pub fn is_idle(&self) -> (r: bool)
        ensures
            r == (self.state().phase == ProbePhase::Idle),
    {
        self.phase == ProbePhase::Idle
    }

    fn request_probe(&mut self) -> (sent: bool)
        requires
            old(self).wf(),
        ensures
            final(self).wf(),
            (final(self).state(), sent) == request_probe_spec(old(self).state()),
    {
        if self.phase == ProbePhase::Idle {
            self.phase = ProbePhase::WaitingForEcho;
            self.lines_waiting_for_echo = 0;
            true
        } else {
            false
        }
    }

    fn abandon_in_flight_probe(&mut self)
        requires
            old(self).wf(),
        ensures
            final(self).wf(),
            final(self).state() == abandon_spec(old(self).state()),
    {
        self.phase = ProbePhase::Idle;
        self.lines_waiting_for_echo = 0;
        self.pending_rows.clear();
        proof {
            lemma_rows_empty();
        }
    }

    fn complete_scan(&mut self)
        requires
            old(self).wf(),
        ensures
            final(self).wf(),
            final(self).state() == complete_scan_spec(old(self).state()),
    {
        let mut taken: Vec<CombatScanRow> = Vec::new();
        std::mem::swap(&mut taken, &mut self.pending_rows);
        self.snapshot = taken;
        self.phase = ProbePhase::Idle;
        self.lines_waiting_for_echo = 0;
        proof {
            lemma_rows_empty();
        }
    }

    fn handle_idle_line(&mut self, line: &str) -> (r: LineHandlingResult)
        requires
            old(self).wf(),
            old(self).phase == ProbePhase::Idle,
            !is_end_spec(line@),
            !is_round_header_spec(line@),
        ensures
            final(self).wf(),
            (final(self).state(), r.gag, r.effects@) == step_spec(old(self).state(), line@),
    {
        if !self.active {
            return LineHandlingResult { gag: false, effects: Vec::new() };
        }
        if is_probe_echo(line) {
            self.phase = ProbePhase::CapturingRows;
            self.pending_rows.clear();
            proof {
                lemma_rows_empty();
            }
            return LineHandlingResult { gag: true, effects: Vec::new() };
        }
        if let Some(row) = parse_scan_row(line) {
            self.phase = ProbePhase::CapturingRows;
            proof {
                lemma_rows_push(self.pending_rows@, row);
            }
            self.pending_rows.push(row);
            return LineHandlingResult { gag: true, effects: Vec::new() };
        }
        LineHandlingResult { gag: false, effects: Vec::new() }
    }

    fn handle_waiting_for_echo(&mut self, line: &str) -> (r: LineHandlingResult)
        requires
            old(self).wf(),
            old(self).phase == ProbePhase::WaitingForEcho,
            !is_end_spec(line@),
            !is_round_header_spec(line@),
        ensures
            final(self).wf(),
            (final(self).state(), r.gag, r.effects@) == step_spec(old(self).state(), line@),
    {
        if is_probe_echo(line) {
            self.phase = ProbePhase::CapturingRows;
            self.lines_waiting_for_echo = 0;
            self.pending_rows.clear();
            proof {
                lemma_rows_empty();
            }
            return LineHandlingResult { gag: true, effects: Vec::new() };
        }
        if let Some(row) = parse_scan_row(line) {
            self.phase = ProbePhase::CapturingRows;
            self.lines_waiting_for_echo = 0;
            proof {
                lemma_rows_push(self.pending_rows@, row);
            }
            self.pending_rows.push(row);
            return LineHandlingResult { gag: true, effects: Vec::new() };
        }
        self.lines_waiting_for_echo = self.lines_waiting_for_echo + 1;
        if self.lines_waiting_for_echo >= MAX_LINES_WAITING_FOR_ECHO {
            self.phase = ProbePhase::Idle;
            self.lines_waiting_for_echo = 0;
            self.pending_rows.clear();
            proof {
                lemma_rows_empty();
            }
        }
        LineHandlingResult { gag: false, effects: Vec::new() }
    }

    fn handle_capturing_rows(&mut self, line: &str) -> (r: LineHandlingResult)
        requires
            old(self).wf(),
            old(self).phase == ProbePhase::CapturingRows,
            !is_end_spec(line@),
            !is_round_header_spec(line@),
        ensures
            final(self).wf(),
            (final(self).state(), r.gag, r.effects@) == step_spec(old(self).state(), line@),
    {
        if is_probe_echo(line) {
            return LineHandlingResult { gag: true, effects: Vec::new() };
        }
        if let Some(row) = parse_scan_row(line) {
            proof {
                lemma_rows_push(self.pending_rows@, row);
            }
            self.pending_rows.push(row);
            return LineHandlingResult { gag: true, effects: Vec::new() };
        }
        self.complete_scan();
        LineHandlingResult { gag: false, effects: Vec::new() }
    }
}

/// A combat-end line always leaves awareness inactive, idle and without a snapshot.
pub proof fn law_combat_end_resets(s: AwarenessState, line: Seq<char>)
    requires
        is_end_spec(line),
    ensures
        step_spec(s, line).0 == ended_state(),
        step_spec(s, line).2 == seq![CombatAwarenessEffect::CombatEnded],
{
}

/// A round header always activates combat, leaves a probe in flight and asks
/// for the short score and a probe.
pub proof fn law_round_header_requests_probe(s: AwarenessState, line: Seq<char>)
    requires
        !is_end_spec(line),
        is_round_header_spec(line),
    ensures
        step_spec(s, line).0.active,
        step_spec(s, line).0.phase == ProbePhase::WaitingForEcho,
        !step_spec(s, line).1,
        step_spec(s, line).2 == seq![
            CombatAwarenessEffect::RoundStarted,
            CombatAwarenessEffect::SendShortScore,
            CombatAwarenessEffect::SendProbe,
        ],
{
    assert(seq![CombatAwarenessEffect::RoundStarted, CombatAwarenessEffect::SendShortScore].push(
        CombatAwarenessEffect::SendProbe,
    ) =~= seq![
        CombatAwarenessEffect::RoundStarted,
        CombatAwarenessEffect::SendShortScore,
        CombatAwarenessEffect::SendProbe,
    ]);
}

/// Outside combat, ordinary lines pass through untouched: nothing is hidden
/// and nothing changes.
pub proof fn law_inactive_lines_pass_through(s: AwarenessState, line: Seq<char>)
    requires
        !s.active,
        s.phase == ProbePhase::Idle,
        !is_end_spec(line),
        !is_round_header_spec(line),
    ensures
        step_spec(s, line).0 == s,
        !step_spec(s, line).1,
        step_spec(s, line).2.len() == 0,
{
}

/// Only a probe in flight is gagged at combat end; an organic end is visible.
pub proof fn law_combat_end_gag_iff_probe_in_flight(s: AwarenessState, line: Seq<char>)
    requires
        is_end_spec(line),
    ensures
        step_spec(s, line).1 == (s.phase != ProbePhase::Idle),
{
}

/// The snapshot only changes by being replaced with the rows of a completed
/// scan, or cleared when combat ends.
pub proof fn law_snapshot_changes_only_on_completion(s: AwarenessState, line: Seq<char>)
    ensures
        step_spec(s, line).0.snapshot == s.snapshot || step_spec(s, line).0.snapshot == s.pending
            || step_spec(s, line).0.snapshot.len() == 0,
{
}

/// Without a round header, the probe never stays waiting for its echo for
/// thirty lines: the waiting count stays below the limit.
pub proof fn law_waiting_is_bounded(s: AwarenessState, line: Seq<char>)
    requires
        0 <= s.waiting < MAX_LINES_WAITING_FOR_ECHO,
    ensures
        0 <= step_spec(s, line).0.waiting < MAX_LINES_WAITING_FOR_ECHO,
{
}

/// A round header that arrives while scan rows are being captured completes
/// the scan: the rows captured become the snapshot.
pub proof fn law_round_header_completes_capture(s: AwarenessState, line: Seq<char>)
    requires
        s.phase == ProbePhase::CapturingRows,
        !is_end_spec(line),
        is_round_header_spec(line),
    ensures
        step_spec(s, line).0.snapshot == s.pending,
{
}

/// A whole probe: after the round header the echo starts a capture, a scan
/// row is captured, and the next round header leaves that row as the snapshot.
pub proof fn law_probe_rows_become_snapshot(
    s: AwarenessState,
    header: Seq<char>,
    echo: Seq<char>,
    row: Seq<char>,
    next_header: Seq<char>,
)
    requires
        is_round_header_spec(header) && !is_end_spec(header),
        is_echo_spec(echo) && !is_round_header_spec(echo) && !is_end_spec(echo),
        parse_scan_row_spec(row) is Some && !is_round_header_spec(row) && !is_end_spec(row) && !is_echo_spec(row),
        is_round_header_spec(next_header) && !is_end_spec(next_header),
    ensures
        ({
            let s1 = step_spec(s, header).0;
            let s2 = step_spec(s1, echo).0;
            let s3 = step_spec(s2, row).0;
            step_spec(s3, next_header).0.snapshot == seq![parse_scan_row_spec(row)->0]
        }),
{
    let s1 = step_spec(s, header).0;
    law_round_header_requests_probe(s, header);
    let s2 = step_spec(s1, echo).0;
    assert(s2.phase == ProbePhase::CapturingRows && s2.pending == Seq::<RowView>::empty());
    let s3 = step_spec(s2, row).0;
    assert(s3.phase == ProbePhase::CapturingRows);
    assert(s3.pending =~= seq![parse_scan_row_spec(row)->0]);
    law_round_header_completes_capture(s3, next_header);
}

} // verus!
