//! The login flow as the game's lines reveal it, and the lifetime of connections:
//! which connection is current, the guard against overlapping reconnects, and
//! what happens to the output once the player logs in again.
use crate::template::{matches_template, pieces_view, template_matches, Piece, PieceView};
use crate::text::{
    chars_eq, chars_of, is_prefix, lower_chars, lower_seq, starts_with_chars, trim_end_chars,
    trim_end_seq,
};
use vstd::prelude::*;

verus! {

/// Where the login dialogue stands.
#[derive(Debug, Clone, Copy, PartialEq, Eq, Structural)]
pub enum LoginState {
    Choice,
    Name,
    Password,
    LoggedIn,
}

/// The game's prompt once logged in: `Hp:a/b Sp:c/d Ep:e/f Exp:g >`, each value
/// at least one character of the line.
pub open spec fn prompt_pattern() -> Seq<PieceView> {
    seq![
        PieceView::Lit("Hp:"@),
        PieceView::Hole(1),
        PieceView::Lit("/"@),
        PieceView::Hole(1),
        PieceView::Lit(" Sp:"@),
        PieceView::Hole(1),
        PieceView::Lit("/"@),
        PieceView::Hole(1),
        PieceView::Lit(" Ep:"@),
        PieceView::Hole(1),
        PieceView::Lit("/"@),
        PieceView::Hole(1),
        PieceView::Lit(" Exp:"@),
        PieceView::Hole(1),
        PieceView::Lit(" >"@),
    ]
}

fn lit(s: &str) -> (p: Piece)
    ensures
        crate::template::piece_view(p) == PieceView::Lit(s@),
{
    Piece::Lit(chars_of(s))
}

fn prompt_pieces() -> (r: Vec<Piece>)
    ensures
        pieces_view(r@) == prompt_pattern(),
{
    let mut r: Vec<Piece> = Vec::new();
    r.push(lit("Hp:"));
    r.push(Piece::Hole(1));
    r.push(lit("/"));
    r.push(Piece::Hole(1));
    r.push(lit(" Sp:"));
    r.push(Piece::Hole(1));
    r.push(lit("/"));
    r.push(Piece::Hole(1));
    r.push(lit(" Ep:"));
    r.push(Piece::Hole(1));
    r.push(lit("/"));
    r.push(Piece::Hole(1));
    r.push(lit(" Exp:"));
    r.push(Piece::Hole(1));
    r.push(lit(" >"));
    assert(pieces_view(r@) =~= prompt_pattern());
    r
}

/// The login dialogue and who is logging in.
#[derive(Debug)]
pub struct SessionState {
    login_state: LoginState,
    login_name: Option<String>,
    last_login_input: Option<String>,
}

pub open spec fn opt_view(o: Option<String>) -> Option<Seq<char>> {
    match o {
        Some(s) => Some(s@),
        None => None,
    }
}

/// The login state, name and last login input as plain values.
pub struct SessionView {
    pub state: LoginState,
    pub name: Option<Seq<char>>,
    pub last_input: Option<Seq<char>>,
}

/// What a line of game output does to the login dialogue (the line taken
/// without trailing whitespace), and whether it was a login line.
pub open spec fn login_step(v: SessionView, line: Seq<char>) -> (SessionView, bool) {
    let t = trim_end_seq(line);
    if t == "You entered a wrong password!"@ || t == "Please enter your choice or name:"@ {
        (SessionView { state: LoginState::Choice, name: None, last_input: None }, true)
    } else if is_prefix("What is your name:"@, t) {
        (SessionView { state: LoginState::Name, ..v }, true)
    } else if is_prefix("Password:"@, t) {
        (
            SessionView {
                state: LoginState::Password,
                name: if v.name is None {
                    v.last_input
                } else {
                    v.name
                },
                ..v
            },
            true,
        )
    } else if v.state != LoginState::LoggedIn && template_matches(prompt_pattern(), t) {
        (SessionView { state: LoginState::LoggedIn, ..v }, false)
    } else {
        (v, false)
    }
}

impl SessionState {
    pub closed spec fn view(&self) -> SessionView {
        SessionView {
            state: self.login_state,
            name: opt_view(self.login_name),
            last_input: opt_view(self.last_login_input),
        }
    }

    pub fn new() -> (r: Self)
        ensures
            r.view() == (SessionView { state: LoginState::Choice, name: None, last_input: None }),
    {
        SessionState { login_state: LoginState::Choice, login_name: None, last_login_input: None }
    }

    pub fn login_state(&self) -> (r: LoginState)
        ensures
            r == self.view().state,
    {
        self.login_state
    }

    pub fn is_logged_in(&self) -> (r: bool)
        ensures
            r == (self.view().state == LoginState::LoggedIn),
    {
        self.login_state == LoginState::LoggedIn
    }

    /// Follows the login dialogue through one line of game output; says whether
    /// the line belonged to it. The prompt marks the end of the login. (The
    /// short-score form that is also looked for puts a `$` end anchor before
    /// more text, so it never matches and is left out.)
    pub fn update_login_state(&mut self, line: &str) -> (r: bool)
        requires
            line@.len() < usize::MAX,
        ensures
            (final(self).view(), r) == login_step(old(self).view(), line@),
    {
        let raw = chars_of(line);
        let t = trim_end_chars(raw.as_slice());
        let wrong = chars_of("You entered a wrong password!");
        let choice = chars_of("Please enter your choice or name:");
        if chars_eq(t.as_slice(), wrong.as_slice()) || chars_eq(t.as_slice(), choice.as_slice()) {
            self.login_state = LoginState::Choice;
            self.login_name = None;
            self.last_login_input = None;
            return true;
        }
        let name_prompt = chars_of("What is your name:");
        if starts_with_chars(t.as_slice(), name_prompt.as_slice()) {
            self.login_state = LoginState::Name;
            return true;
        }
        let password_prompt = chars_of("Password:");
        if starts_with_chars(t.as_slice(), password_prompt.as_slice()) {
            self.login_state = LoginState::Password;
            if self.login_name.is_none() {
                self.login_name = match &self.last_login_input {
                    Some(s) => Some(s.clone()),
                    None => None,
                };
            }
            return true;
        }
        if !self.is_logged_in() {
            proof {
                crate::text::lemma_trim_end_len(line@);
            }
            let pat = prompt_pieces();
            if matches_template(pat.as_slice(), t.as_slice()) {
                self.login_state = LoginState::LoggedIn;
            }
        }
        false
    }

    pub fn set_login_name(&mut self, name: String)
        ensures
            final(self).view() == (SessionView { name: Some(name@), ..old(self).view() }),
    {
        self.login_name = Some(name);
    }

    pub fn set_last_login_input(&mut self, input: String)
        ensures
            final(self).view() == (SessionView { last_input: Some(input@), ..old(self).view() }),
    {
        self.last_login_input = Some(input);
    }

    pub fn login_name(&self) -> (r: Option<&str>)
        ensures
            match r {
                Some(s) => self.view().name == Some(s@),
                None => self.view().name is None,
            },
    {
        match &self.login_name {
            Some(s) => Some(s.as_str()),
            None => None,
        }
    }
}

/// Identifies one connection; events of older connections are stale.
pub type ConnectionId = u64;

/// The connection that exists before any reconnect.
pub const INITIAL_CONNECTION_ID: u64 = 0;

/// A group of session state cleared when a fresh connection starts.
#[derive(Debug, Clone, Copy, PartialEq, Eq, Structural)]
pub enum FreshSessionReset {
    Session,
    Stats,
    SecondaryStatus,
    CombatAwareness,
    TelnetBuffer,
    GuildSelection,
    Automation,
    UserConfigLoaded,
    PlayerProfile,
    GenericCommands,
    Dialogs,
}

/// Every reset group, once each.
pub open spec fn all_resets() -> Seq<FreshSessionReset> {
    seq![
        FreshSessionReset::Session,
        FreshSessionReset::Stats,
        FreshSessionReset::SecondaryStatus,
        FreshSessionReset::CombatAwareness,
        FreshSessionReset::TelnetBuffer,
        FreshSessionReset::GuildSelection,
        FreshSessionReset::Automation,
        FreshSessionReset::UserConfigLoaded,
        FreshSessionReset::PlayerProfile,
        FreshSessionReset::GenericCommands,
        FreshSessionReset::Dialogs,
    ]
}

impl FreshSessionReset {
    /// Every reset group, once each.
    #[allow(non_snake_case)]
    pub fn ALL() -> (r: Vec<FreshSessionReset>)
        ensures
            r@ == all_resets(),
    {
        let r = vec![
            FreshSessionReset::Session,
            FreshSessionReset::Stats,
            FreshSessionReset::SecondaryStatus,
            FreshSessionReset::CombatAwareness,
            FreshSessionReset::TelnetBuffer,
            FreshSessionReset::GuildSelection,
            FreshSessionReset::Automation,
            FreshSessionReset::UserConfigLoaded,
            FreshSessionReset::PlayerProfile,
            FreshSessionReset::GenericCommands,
            FreshSessionReset::Dialogs,
        ];
        assert(r@ =~= all_resets());
        r
    }
}

/// What starting a fresh connection clears, and the connection it belongs to.
#[derive(Debug, Clone, Copy, PartialEq, Eq, Structural)]
pub struct FreshSessionPlan {
    pub connection_id: u64,
}

impl FreshSessionPlan {
    pub fn new(connection_id: u64) -> (r: Self)
        ensures
            r.connection_id == connection_id,
    {
        FreshSessionPlan { connection_id }
    }

    /// Every reset group: a fresh connection clears all session state.
    pub fn resets(&self) -> (r: Vec<FreshSessionReset>)
        ensures
            r@ == all_resets(),
    {
        FreshSessionReset::ALL()
    }
}

/// Whether the output survives a login after a reconnect.
#[derive(Debug, Clone, Copy, PartialEq, Eq, Structural)]
pub enum OutputDisposition {
    KeepScrollback,
    ClearOutput,
}

/// What a login after a reconnect does to the output: the same character (names
/// compared ignoring ASCII case) keeps it, as does an empty name when nobody was
/// logged in; anyone else clears it.
pub open spec fn disposition_for(pre: Option<Seq<char>>, post: Seq<char>) -> OutputDisposition {
    match pre {
        Some(p) => if lower_seq(p) == lower_seq(post) {
            OutputDisposition::KeepScrollback
        } else {
            OutputDisposition::ClearOutput
        },
        None => if post.len() == 0 {
            OutputDisposition::KeepScrollback
        } else {
            OutputDisposition::ClearOutput
        },
    }
}

/// Whether two strings are equal ignoring ASCII case (`str::eq_ignore_ascii_case`).
pub fn eq_ignore_ascii_case(a: &str, b: &str) -> (r: bool)
    ensures
        r == (lower_seq(a@) == lower_seq(b@)),
{
    let la = lower_chars(chars_of(a).as_slice());
    let lb = lower_chars(chars_of(b).as_slice());
    chars_eq(la.as_slice(), lb.as_slice())
}

/// The current connection, the reconnect guard and the name logged in before
/// the last reconnect.
#[derive(Debug)]
pub struct SessionLifecycle {
    active_connection_id: u64,
    reconnect_in_progress: bool,
    post_connect_name_snapshot: Option<Option<String>>,
}

/// The lifecycle as plain values.
pub struct LifecycleView {
    pub active: u64,
    pub reconnecting: bool,
    pub snapshot: Option<Option<Seq<char>>>,
}

impl SessionLifecycle {
    pub closed spec fn view(&self) -> LifecycleView {
        LifecycleView {
            active: self.active_connection_id,
            reconnecting: self.reconnect_in_progress,
            snapshot: match self.post_connect_name_snapshot {
                Some(o) => Some(opt_view(o)),
                None => None,
            },
        }
    }

    pub fn new() -> (r: Self)
        ensures
            r.view() == (LifecycleView {
                active: INITIAL_CONNECTION_ID,
                reconnecting: false,
                snapshot: None,
            }),
    {
        SessionLifecycle {
            active_connection_id: INITIAL_CONNECTION_ID,
            reconnect_in_progress: false,
            post_connect_name_snapshot: None,
        }
    }

    /// Whether an event of connection `connection_id` comes from an older connection.
    pub fn is_stale(&self, connection_id: u64) -> (r: bool)
        ensures
            r == (connection_id != self.view().active),
    {
        connection_id != self.active_connection_id
    }

    /// Starts a fresh connection: the next connection id (saturating) and the name
    /// logged in before it, kept for the next login.
    pub fn begin_fresh_session(&mut self, pre_connect_login_name: Option<String>) -> (r:
        FreshSessionPlan)
        ensures
            final(self).view().active == if old(self).view().active < u64::MAX {
                (old(self).view().active + 1) as u64
            } else {
                u64::MAX
            },
            final(self).view().reconnecting == old(self).view().reconnecting,
            final(self).view().snapshot == Some(opt_view(pre_connect_login_name)),
            r.connection_id == final(self).view().active,
    {
        self.post_connect_name_snapshot = Some(pre_connect_login_name);
        self.active_connection_id = self.active_connection_id.saturating_add(1);
        FreshSessionPlan::new(self.active_connection_id)
    }

    /// Whether a reconnect is under way.
    pub fn reconnect_in_progress(&self) -> (r: bool)
        ensures
            r == self.view().reconnecting,
    {
        self.reconnect_in_progress
    }

    pub fn set_reconnect_in_progress(&mut self, in_progress: bool)
        ensures
            final(self).view() == (LifecycleView { reconnecting: in_progress, ..old(self).view() }),
    {
        self.reconnect_in_progress = in_progress;
    }

    /// The reconnect attempt has ended, whatever its outcome.
    pub fn finish_reconnect(&mut self)
        ensures
            final(self).view() == (LifecycleView { reconnecting: false, ..old(self).view() }),
    {
        self.reconnect_in_progress = false;
    }

    /// The first login after a reconnect decides what becomes of the output;
    /// later logins, and logins without a reconnect, decide nothing.
    pub fn on_post_connect_login(&mut self, login_name: &str) -> (r: Option<OutputDisposition>)
        ensures
            final(self).view() == (LifecycleView { snapshot: None, ..old(self).view() }),
            match old(self).view().snapshot {
                Some(pre) => r == Some(disposition_for(pre, login_name@)),
                None => r is None,
            },
    {
        let mut snap: Option<Option<String>> = None;
        std::mem::swap(&mut snap, &mut self.post_connect_name_snapshot);
        let pre = match snap {
            Some(p) => p,
            None => {
                return None;
            },
        };
        match pre {
            Some(p) => if eq_ignore_ascii_case(&p, login_name) {
                Some(OutputDisposition::KeepScrollback)
            } else {
                Some(OutputDisposition::ClearOutput)
            },
            None => {
                let lc = chars_of(login_name);
                if lc.len() == 0 {
                    Some(OutputDisposition::KeepScrollback)
                } else {
                    Some(OutputDisposition::ClearOutput)
                }
            },
        }
    }
}

/// Starts a reconnect unless one is under way: the guard is set and a fresh
/// connection begins; a reconnect already under way is refused and nothing changes.
pub fn prepare_connect(lifecycle: &mut SessionLifecycle, pre_connect_login_name: Option<String>) -> (r:
    Result<FreshSessionPlan, ()>)
    ensures
        old(lifecycle).view().reconnecting ==> r is Err && final(lifecycle).view() == old(
            lifecycle,
        ).view(),
        !old(lifecycle).view().reconnecting ==> ({
            let o = old(lifecycle).view();
            let f = final(lifecycle).view();
            &&& f.reconnecting
            &&& f.active == if o.active < u64::MAX {
                (o.active + 1) as u64
            } else {
                u64::MAX
            }
            &&& f.snapshot == Some(opt_view(pre_connect_login_name))
            &&& r == Ok::<FreshSessionPlan, ()>(FreshSessionPlan { connection_id: f.active })
        }),
{
    if lifecycle.reconnect_in_progress() {
        return Err(());
    }
    lifecycle.set_reconnect_in_progress(true);
    Ok(lifecycle.begin_fresh_session(pre_connect_login_name))
}

/// The choice prompt and a wrong password start the login over: whatever the
/// state was, it is back at the choice with no name and no remembered input,
/// and the line counts as a login line.
pub proof fn law_choice_prompt_forgets_login(v: SessionView, line: Seq<char>)
    requires
        trim_end_seq(line) == "Please enter your choice or name:"@ || trim_end_seq(line)
            == "You entered a wrong password!"@,
    ensures
        login_step(v, line) == (SessionView { state: LoginState::Choice, name: None, last_input: None }, true),
{
}

/// After the choice prompt, a password prompt names the player by the input
/// typed since then, never by a name from before.
pub proof fn law_password_after_choice_uses_new_input(v: SessionView, choice: Seq<char>, input: Seq<char>, password: Seq<char>)
    requires
        trim_end_seq(choice) == "Please enter your choice or name:"@,
        trim_end_seq(password) == "Password:"@,
    ensures
        login_step(
            SessionView { last_input: Some(input), ..login_step(v, choice).0 },
            password,
        ).0.name == Some(input),
{
    reveal_strlit("Password:");
    reveal_strlit("You entered a wrong password!");
    reveal_strlit("Please enter your choice or name:");
    reveal_strlit("What is your name:");
    let t = trim_end_seq(password);
    assert(t != "You entered a wrong password!"@) by {
        assert(t.len() != "You entered a wrong password!"@.len());
    }
    assert(t != "Please enter your choice or name:"@) by {
        assert(t.len() != "Please enter your choice or name:"@.len());
    }
    assert(!is_prefix("What is your name:"@, t)) by {
        assert(t.len() < "What is your name:"@.len());
    }
    assert(is_prefix("Password:"@, t)) by {
        assert(t.subrange(0, "Password:"@.len() as int) =~= t);
    }
}

/// The name prompt moves the login to the name step and keeps what was known.
pub proof fn law_name_prompt_asks_for_name(v: SessionView, line: Seq<char>)
    requires
        trim_end_seq(line) == "What is your name:"@,
    ensures
        login_step(v, line) == (SessionView { state: LoginState::Name, name: v.name, last_input: v.last_input }, true),
{
    reveal_strlit("What is your name:");
    reveal_strlit("You entered a wrong password!");
    reveal_strlit("Please enter your choice or name:");
    let t = trim_end_seq(line);
    assert(t.len() != "You entered a wrong password!"@.len());
    assert(t.len() != "Please enter your choice or name:"@.len());
    assert(t.subrange(0, "What is your name:"@.len() as int) =~= t);
}

} // verus!
