//! The `#scan all` probe that runs during combat, and the snapshot of
//! combatants it leaves for the status area.
use crate::ansi::palette::{TerminalColor, BOLD_WHITE, TEXT};
use crate::scan_grammar::label_seq;
use crate::text::{i64_text, int_text};
use crate::ansi::segment::{display_width, text_width};
use crate::combat_awareness::{
    abandon_spec, complete_scan_spec, ended_state, observe_spec, request_probe_spec,
    AwarenessState, CombatAwarenessEffect, ProbePhase, MAX_LINES_WAITING_FOR_ECHO,
};
use crate::scan_grammar::{
    line_is, parse_scan_row, parse_scan_row_spec, rows_view, CombatCondition, CombatScanRow,
    RowView, NOT_IN_COMBAT_LINE, PROBE_COMMAND,
};
use crate::text::{chars_of, string_of};
use vstd::prelude::*;

verus! {

/// What an incoming line is, as far as the probe goes.
#[derive(Debug, Clone, Copy, PartialEq, Eq, Structural)]
pub enum IncomingCombatScanLine {
    /// Shown to the player.
    Visible,
    /// Part of the probe's answer, hidden.
    InternalProbe,
    /// The game reports the end of combat; `internal_probe` when a probe was in flight.
    CombatEnded { internal_probe: bool },
}

/// A scan row without a status, as this probe reads rows.
pub open spec fn plain_row(line: Seq<char>) -> Option<RowView> {
    match parse_scan_row_spec(line) {
        Some(r) => if r.status is None {
            Some(r)
        } else {
            None
        },
        None => None,
    }
}

/// One incoming line: the state after it and what the line is.
pub open spec fn scan_step(s: AwarenessState, line: Seq<char>) -> (AwarenessState, IncomingCombatScanLine) {
    if line == NOT_IN_COMBAT_LINE@ {
        (ended_state(), IncomingCombatScanLine::CombatEnded { internal_probe: s.phase != ProbePhase::Idle })
    } else if s.phase == ProbePhase::Idle {
        (s, IncomingCombatScanLine::Visible)
    } else if s.phase == ProbePhase::WaitingForEcho {
        if line == "scan all"@ {
            (
                AwarenessState { phase: ProbePhase::CapturingRows, waiting: 0, pending: seq![], ..s },
                IncomingCombatScanLine::InternalProbe,
            )
        } else if s.waiting + 1 >= MAX_LINES_WAITING_FOR_ECHO {
            (AwarenessState { phase: ProbePhase::Idle, waiting: 0, ..s }, IncomingCombatScanLine::Visible)
        } else {
            (AwarenessState { waiting: s.waiting + 1, ..s }, IncomingCombatScanLine::Visible)
        }
    } else {
        match plain_row(line) {
            Some(r) => (
                AwarenessState { pending: s.pending.push(r), ..s },
                IncomingCombatScanLine::InternalProbe,
            ),
            None => (complete_scan_spec(s), IncomingCombatScanLine::Visible),
        }
    }
}

/// The probe's state during combat.
#[derive(Debug)]
pub struct CombatScanState {
    active: bool,
    phase: ProbePhase,
    user_command_counter: u8,
    lines_waiting_for_echo: u8,
    pending_rows: Vec<CombatScanRow>,
    snapshot: Vec<CombatScanRow>,
}

impl CombatScanState {
    pub closed spec fn state(&self) -> AwarenessState {
        AwarenessState {
            active: self.active,
            phase: self.phase,
            counter: self.user_command_counter as int,
            waiting: self.lines_waiting_for_echo as int,
            pending: rows_view(self.pending_rows@),
            snapshot: rows_view(self.snapshot@),
        }
    }

    /// The counters stay below their limits.
    pub closed spec fn wf(&self) -> bool {
        &&& self.user_command_counter < 2
        &&& self.lines_waiting_for_echo < MAX_LINES_WAITING_FOR_ECHO
    }

    pub fn new() -> (r: Self)
        ensures
            r.wf(),
            r.state() == ended_state(),
    {
        let r = CombatScanState {
            active: false,
            phase: ProbePhase::Idle,
            user_command_counter: 0,
            lines_waiting_for_echo: 0,
            pending_rows: Vec::new(),
            snapshot: Vec::new(),
        };
        assert(rows_view(r.pending_rows@) =~= Seq::<RowView>::empty());
        assert(rows_view(r.snapshot@) =~= Seq::<RowView>::empty());
        r
    }

    fn request_probe(&mut self) -> (r: Option<&'static str>)
        requires
            old(self).wf(),
        ensures
            final(self).wf(),
            (final(self).state(), r is Some) == request_probe_spec(old(self).state()),
            r matches Some(p) ==> p@ == PROBE_COMMAND@,
    {
        if self.phase == ProbePhase::Idle {
            self.phase = ProbePhase::WaitingForEcho;
            self.lines_waiting_for_echo = 0;
            Some(PROBE_COMMAND)
        } else {
            None
        }
    }

    /// A combat round begins: combat is active and a probe is requested unless
    /// one is in flight.
    pub fn start_combat_round(&mut self) -> (r: Option<&'static str>)
        requires
            old(self).wf(),
        ensures
            final(self).wf(),
            (final(self).state(), r is Some) == request_probe_spec(
                AwarenessState { active: true, ..old(self).state() },
            ),
            r matches Some(p) ==> p@ == PROBE_COMMAND@,
    {
        self.active = true;
        self.request_probe()
    }

    /// Combat is over: everything is cleared.
    pub fn end_combat(&mut self)
        ensures
            final(self).wf(),
            final(self).state() == ended_state(),
    {
        self.active = false;
        self.phase = ProbePhase::Idle;
        self.user_command_counter = 0;
        self.lines_waiting_for_echo = 0;
        self.pending_rows = Vec::new();
        self.snapshot = Vec::new();
        assert(rows_view(self.pending_rows@) =~= Seq::<RowView>::empty());
        assert(rows_view(self.snapshot@) =~= Seq::<RowView>::empty());
    }

    /// The player sent a command to the game: every second one during combat,
    /// while no probe is in flight, requests a probe.
    pub fn observe_user_game_command(&mut self) -> (r: Option<&'static str>)
        requires
            old(self).wf(),
        ensures
            final(self).wf(),
            final(self).state() == observe_spec(old(self).state()).0,
            (r is Some) == (observe_spec(old(self).state()).1 is Some),
            r matches Some(p) ==> p@ == PROBE_COMMAND@,
    {
        if !self.active || self.phase != ProbePhase::Idle {
            return None;
        }
        self.user_command_counter = self.user_command_counter + 1;
        if self.user_command_counter >= 2 {
            self.user_command_counter = 0;
            self.request_probe()
        } else {
            None
        }
    }

    /// One incoming line: whether it is shown, part of the probe, or the end of combat.
    pub fn handle_incoming_line(&mut self, line: &str) -> (r: IncomingCombatScanLine)
        requires
            old(self).wf(),
        ensures
            final(self).wf(),
            (final(self).state(), r) == scan_step(old(self).state(), line@),
    {
        if line_is(line, NOT_IN_COMBAT_LINE) {
            let internal_probe = self.phase != ProbePhase::Idle;
            self.end_combat();
            return IncomingCombatScanLine::CombatEnded { internal_probe };
        }
        match self.phase {
            ProbePhase::Idle => IncomingCombatScanLine::Visible,
            ProbePhase::WaitingForEcho => {
                if line_is(line, "scan all") {
                    self.phase = ProbePhase::CapturingRows;
                    self.lines_waiting_for_echo = 0;
                    self.pending_rows = Vec::new();
                    assert(rows_view(self.pending_rows@) =~= Seq::<RowView>::empty());
                    IncomingCombatScanLine::InternalProbe
                } else {
                    self.lines_waiting_for_echo = self.lines_waiting_for_echo + 1;
                    if self.lines_waiting_for_echo >= MAX_LINES_WAITING_FOR_ECHO {
                        self.phase = ProbePhase::Idle;
                        self.lines_waiting_for_echo = 0;
                    }
                    IncomingCombatScanLine::Visible
                }
            },
            ProbePhase::CapturingRows => {
                match parse_scan_row(line) {
                    Some(row) => {
                        if row.status().is_none() {
                            let ghost old_rows = rows_view(self.pending_rows@);
                            let ghost rv = row.view_row();
                            self.pending_rows.push(row);
                            assert(rows_view(self.pending_rows@) =~= old_rows.push(rv));
                            IncomingCombatScanLine::InternalProbe
                        } else {
                            self.complete_scan();
                            IncomingCombatScanLine::Visible
                        }
                    },
                    None => {
                        self.complete_scan();
                        IncomingCombatScanLine::Visible
                    },
                }
            },
        }
    }

    fn complete_scan(&mut self)
        requires
            old(self).wf(),
        ensures
            final(self).wf(),
            final(self).state() == complete_scan_spec(old(self).state()),
    {
        let mut rows: Vec<CombatScanRow> = Vec::new();
        std::mem::swap(&mut rows, &mut self.pending_rows);
        self.snapshot = rows;
        self.phase = ProbePhase::Idle;
        self.lines_waiting_for_echo = 0;
        assert(rows_view(self.pending_rows@) =~= Seq::<RowView>::empty());
    }

    /// The rows of the last completed probe.
    pub fn snapshot(&self) -> (r: &[CombatScanRow])
        ensures
            rows_view(r@) == self.state().snapshot,
    {
        self.snapshot.as_slice()
    }

    pub fn is_active(&self) -> (r: bool)
        ensures
            r == self.state().active,
    {
        self.active
    }

    pub fn is_idle(&self) -> (r: bool)
        ensures
            r == (self.state().phase == ProbePhase::Idle),
    {
        self.phase == ProbePhase::Idle
    }
}


/// How a span of the HUD is drawn: its colour and whether it is bold.
#[derive(Debug, Clone, Copy, PartialEq, Eq)]
pub struct ScanStyle {
    pub color: TerminalColor,
    pub bold: bool,
}

/// A run of HUD text in one style.
#[derive(Debug, Clone, PartialEq, Eq)]
pub struct ScanSpan {
    pub text: String,
    pub style: ScanStyle,
}

/// Plain text style.
pub open spec fn normal_style() -> ScanStyle {
    ScanStyle { color: TerminalColor::Rgb(187, 187, 187), bold: false }
}

/// The style of a combatant's name: bold white.
pub open spec fn name_style() -> ScanStyle {
    ScanStyle { color: TerminalColor::Rgb(255, 255, 255), bold: true }
}

/// The style of a condition and its percentage: the condition's colour.
pub open spec fn condition_style(c: CombatCondition) -> ScanStyle {
    ScanStyle { color: c.color_spec(), bold: false }
}

pub open spec fn spans_view(v: Seq<ScanSpan>) -> Seq<(Seq<char>, ScanStyle)> {
    v.map_values(|s: ScanSpan| (s.text@, s.style))
}

pub open spec fn lines_of_spans(v: Seq<Vec<ScanSpan>>) -> Seq<Seq<(Seq<char>, ScanStyle)>> {
    v.map_values(|l: Vec<ScanSpan>| spans_view(l@))
}

/// A row as the HUD shows it: `name is condition (percent%).`
pub open spec fn row_spans_spec(r: RowView) -> Seq<(Seq<char>, ScanStyle)> {
    seq![
        (r.name, name_style()),
        (" is "@, normal_style()),
        (label_seq(r.condition), condition_style(r.condition)),
        (" ("@, normal_style()),
        (int_text(r.percent), condition_style(r.condition)),
        ("%)."@, normal_style()),
    ]
}

/// The spans of one row.
pub fn row_spans(row: &CombatScanRow) -> (r: Vec<ScanSpan>)
    ensures
        spans_view(r@) == row_spans_spec(row.view_row()),
{
    let c = row.condition();
    let normal = ScanStyle { color: TEXT(), bold: false };
    let cond = ScanStyle { color: c.color(), bold: false };
    let mut v: Vec<ScanSpan> = Vec::new();
    v.push(ScanSpan { text: string_of(chars_of(row.name()).as_slice()), style: ScanStyle { color: BOLD_WHITE(), bold: true } });
    v.push(ScanSpan { text: " is ".to_string(), style: normal });
    v.push(ScanSpan { text: c.label().to_string(), style: cond });
    v.push(ScanSpan { text: " (".to_string(), style: normal });
    v.push(ScanSpan { text: i64_text(row.percent() as i64), style: cond });
    v.push(ScanSpan { text: "%).".to_string(), style: normal });
    assert(spans_view(v@) =~= row_spans_spec(row.view_row()));
    v
}

/// The display width of spans.
pub open spec fn spans_width(p: Seq<(Seq<char>, ScanStyle)>) -> int
    decreases p.len(),
{
    if p.len() == 0 {
        0
    } else {
        spans_width(p.drop_last()) + text_width(p.last().0)
    }
}

/// Where packing pieces into lines stands: the finished lines, the line being
/// filled and its width.
pub struct WrapState {
    pub lines: Seq<Seq<(Seq<char>, ScanStyle)>>,
    pub cur: Seq<(Seq<char>, ScanStyle)>,
    pub cur_w: int,
}

/// Adds a piece: it starts a new line when the line so far is not empty and
/// the piece, after a two-space gap, would make it wider than `width`.
pub open spec fn wrap_step(st: WrapState, piece: Seq<(Seq<char>, ScanStyle)>, width: int) -> WrapState {
    let pw = spans_width(piece);
    let gap: int = if st.cur.len() == 0 {
        0
    } else {
        2
    };
    let st1 = if st.cur.len() > 0 && st.cur_w + gap + pw > width {
        WrapState { lines: st.lines.push(st.cur), cur: seq![], cur_w: 0 }
    } else {
        st
    };
    let st2 = if st1.cur.len() > 0 {
        WrapState { cur: st1.cur.push(("  "@, normal_style())), cur_w: st1.cur_w + 2, ..st1 }
    } else {
        st1
    };
    WrapState { cur: st2.cur + piece, cur_w: st2.cur_w + pw, ..st2 }
}

pub open spec fn wrap_run(pieces: Seq<Seq<(Seq<char>, ScanStyle)>>, width: int) -> WrapState
    decreases pieces.len(),
{
    if pieces.len() == 0 {
        WrapState { lines: seq![], cur: seq![], cur_w: 0 }
    } else {
        wrap_step(wrap_run(pieces.drop_last(), width), pieces.last(), width)
    }
}

/// Pieces packed into lines of at most `width` columns where they fit, two
/// spaces apart; with no width, one piece per line.
pub open spec fn wrap_spec(pieces: Seq<Seq<(Seq<char>, ScanStyle)>>, width: int) -> Seq<
    Seq<(Seq<char>, ScanStyle)>,
> {
    if width == 0 {
        pieces
    } else {
        let st = wrap_run(pieces, width);
        if st.cur.len() > 0 {
            st.lines.push(st.cur)
        } else {
            st.lines
        }
    }
}

/// Widths above this only ever compare as too wide for a line.
pub const WIDTH_CAP: u64 = 1048576;

pub open spec fn capped(w: int) -> int {
    if w < WIDTH_CAP {
        w
    } else {
        WIDTH_CAP as int
    }
}

proof fn lemma_spans_width_nonneg(p: Seq<(Seq<char>, ScanStyle)>)
    ensures
        spans_width(p) >= 0,
    decreases p.len(),
{
    if p.len() > 0 {
        lemma_spans_width_nonneg(p.drop_last());
    }
}

fn capped_width(piece: &Vec<ScanSpan>) -> (r: u64)
    ensures
        r == capped(spans_width(spans_view(piece@))),
{
    let ghost pv = spans_view(piece@);
    let mut acc: u64 = 0;
    let mut i: usize = 0;
    while i < piece.len()
        invariant
            i <= piece@.len(),
            pv == spans_view(piece@),
            acc == capped(spans_width(pv.take(i as int))),
            spans_width(pv.take(i as int)) >= 0,
        decreases piece.len() - i,
    {
        assert(pv.take(i + 1).drop_last() =~= pv.take(i as int));
        let w = display_width(piece[i].text.as_str());
        if acc >= WIDTH_CAP || w as u64 >= WIDTH_CAP - acc {
            acc = WIDTH_CAP;
        } else {
            acc = acc + w as u64;
        }
        i = i + 1;
    }
    assert(pv.take(pv.len() as int) =~= pv);
    acc
}

/// Packs pieces into lines of at most `width` columns where they fit, two
/// spaces apart; with no width, one piece per line.
pub fn wrap_pieces(pieces: Vec<Vec<ScanSpan>>, width: u16) -> (lines: Vec<Vec<ScanSpan>>)
    ensures
        lines_of_spans(lines@) == wrap_spec(lines_of_spans(pieces@), width as int),
{
    if width == 0 {
        return pieces;
    }
    let ghost pv = lines_of_spans(pieces@);
    let mut rest = pieces;
    let mut lines: Vec<Vec<ScanSpan>> = Vec::new();
    let mut current: Vec<ScanSpan> = Vec::new();
    let mut current_width: u64 = 0;
    let mut i: usize = 0;
    let n = rest.len();
    assert(lines_of_spans(lines@) =~= Seq::<Seq<(Seq<char>, ScanStyle)>>::empty());
    assert(spans_view(current@) =~= Seq::<(Seq<char>, ScanStyle)>::empty());
    assert(lines_of_spans(rest@) =~= pv.skip(0));
    while i < n
        invariant
            i <= n,
            n == pv.len(),
            lines_of_spans(rest@) == pv.skip(i as int),
            ({
                let st = wrap_run(pv.take(i as int), width as int);
                &&& lines_of_spans(lines@) == st.lines
                &&& spans_view(current@) == st.cur
                &&& current_width == capped(st.cur_w)
                &&& st.cur_w >= 0
            }),
        decreases n - i,
    {
        assert(pv.take(i + 1).drop_last() =~= pv.take(i as int));
        let ghost rv = lines_of_spans(rest@);
        assert(rv.len() == rest@.len());
        assert(rv[0] == spans_view(rest@[0]@));
        assert(pv.skip(i as int)[0] == pv[i as int]);
        let ghost old_rest = rest@;
        let mut piece = rest.remove(0);
        assert(rest@ =~= old_rest.subrange(1, old_rest.len() as int));
        assert forall|k: int| 0 <= k < rest@.len() implies #[trigger] lines_of_spans(rest@)[k] == pv.skip(i + 1)[k] by {
            assert(rest@[k] == old_rest[k + 1]);
            assert(rv[k + 1] == pv.skip(i as int)[k + 1]);
        }
        assert(spans_view(piece@) == pv[i as int]);
        assert(lines_of_spans(rest@) =~= pv.skip(i + 1));
        let pw = capped_width(&piece);
        proof {
            lemma_spans_width_nonneg(pv[i as int]);
        }
        let gap: u64 = if current.len() == 0 {
            0
        } else {
            2
        };
        if current.len() > 0 && current_width + gap + pw > width as u64 {
            let ghost lv = lines_of_spans(lines@);
            let mut done: Vec<ScanSpan> = Vec::new();
            std::mem::swap(&mut done, &mut current);
            lines.push(done);
            assert(lines_of_spans(lines@) =~= lv.push(spans_view(done@)));
            assert(spans_view(current@) =~= Seq::<(Seq<char>, ScanStyle)>::empty());
            current_width = 0;
        }
        if current.len() > 0 {
            let ghost cv = spans_view(current@);
            current.push(ScanSpan { text: "  ".to_string(), style: ScanStyle { color: TEXT(), bold: false } });
            assert(spans_view(current@) =~= cv.push(("  "@, normal_style())));
            current_width = if current_width + 2 >= WIDTH_CAP {
                WIDTH_CAP
            } else {
                current_width + 2
            };
        }
        let ghost cv2 = spans_view(current@);
        let ghost piece_v = spans_view(piece@);
        current.append(&mut piece);
        assert(spans_view(current@) =~= cv2 + piece_v);
        current_width = if current_width + pw >= WIDTH_CAP {
            WIDTH_CAP
        } else {
            current_width + pw
        };
        i = i + 1;
    }
    assert(pv.take(n as int) =~= pv);
    if current.len() > 0 {
        let ghost lv = lines_of_spans(lines@);
        let ghost cv = spans_view(current@);
        lines.push(current);
        assert(lines_of_spans(lines@) =~= lv.push(cv));
    }
    lines
}

impl CombatScanState {
    /// The HUD lines of the last scan while combat is on: each row as spans,
    /// packed into lines of at most `width` columns.
    pub fn render_lines(&self, width: u16) -> (lines: Vec<Vec<ScanSpan>>)
        ensures
            lines_of_spans(lines@) == if !self.state().active || self.state().snapshot.len() == 0 {
                Seq::<Seq<(Seq<char>, ScanStyle)>>::empty()
            } else {
                wrap_spec(self.state().snapshot.map_values(|r: RowView| row_spans_spec(r)), width as int)
            },
    {
        if !self.active || self.snapshot.len() == 0 {
            let v: Vec<Vec<ScanSpan>> = Vec::new();
            assert(lines_of_spans(v@) =~= Seq::<Seq<(Seq<char>, ScanStyle)>>::empty());
            return v;
        }
        let mut pieces: Vec<Vec<ScanSpan>> = Vec::new();
        let mut i: usize = 0;
        while i < self.snapshot.len()
            invariant
                i <= self.snapshot@.len(),
                lines_of_spans(pieces@) == rows_view(self.snapshot@).take(i as int).map_values(
                    |r: RowView| row_spans_spec(r),
                ),
            decreases self.snapshot.len() - i,
        {
            let ghost before = lines_of_spans(pieces@);
            let p = row_spans(&self.snapshot[i]);
            pieces.push(p);
            assert(lines_of_spans(pieces@) =~= before.push(row_spans_spec(self.snapshot@[i as int].view_row())));
            assert(rows_view(self.snapshot@).take(i + 1).map_values(|r: RowView| row_spans_spec(r)) =~= before.push(
                row_spans_spec(self.snapshot@[i as int].view_row()),
            ));
            i = i + 1;
        }
        assert(rows_view(self.snapshot@).take(self.snapshot@.len() as int) =~= rows_view(self.snapshot@));
        wrap_pieces(pieces, width)
    }
}

} // verus!
