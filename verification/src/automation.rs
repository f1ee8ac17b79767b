//! Client automation: flags and variables set by actions, commands sent with
//! `{name}` placeholders filled in, and waiters that run actions when a line
//! matches their pattern.
use crate::ansi::segment::strings_view;
use crate::keyed::{keys_distinct, lemma_map_of_dom, lemma_map_of_remove, lemma_map_of_val, map_of};
use crate::text::{chars_eq, chars_of, push_all, string_of};
use vstd::prelude::*;

verus! {

#[verifier::external_type_specification]
#[verifier::external_body]
pub struct ExRegex(regex::Regex);

/// A step that automation carries out.
#[derive(Debug)]
pub enum Action {
    Send(String),
    SetFlag(String, bool),
    SetVar(String, String),
    ClearFlag(String),
    ClearVar(String),
    IfFlag { flag: String, actions: Vec<Action> },
}

/// Whether `Regex::new` accepts `source` as a regular expression.
pub uninterp spec fn regex_compiles(source: Seq<char>) -> bool;

/// Whether the regular expression compiled from `source` matches somewhere in `line`.
pub uninterp spec fn regex_is_match(source: Seq<char>, line: Seq<char>) -> bool;

/// `Regex::new`: the compiled expression, or `None` where `source` is not a
/// regular expression. Whether it is, is named, not stated.
#[verifier::external_body]
fn compile_regex(source: &str) -> (r: Option<regex::Regex>)
    ensures
        (r is Some) == regex_compiles(source@),
{
    regex::Regex::new(source).ok()
}

/// A waiter's pattern: its source text and the expression compiled from it.
#[derive(Debug)]
pub struct WaiterPattern {
    source: String,
    regex: regex::Regex,
}

impl WaiterPattern {
    /// The source text of the pattern.
    pub closed spec fn source_spec(&self) -> Seq<char> {
        self.source@
    }

    /// Compiles `source`; `None` where it is not a regular expression.
    pub fn new(source: &str) -> (r: Option<Self>)
        ensures
            (r is Some) == regex_compiles(source@),
            r matches Some(p) ==> p.source_spec() == source@,
    {
        match compile_regex(source) {
            Some(regex) => Some(WaiterPattern { source: source.to_string(), regex }),
            None => None,
        }
    }

    /// The source text of the pattern.
    pub fn as_str(&self) -> (r: &str)
        ensures
            r@ == self.source_spec(),
    {
        self.source.as_str()
    }
}

/// Actions to run when a line matches a pattern; a consuming waiter runs once.
#[derive(Debug)]
pub struct Waiter {
    pub pattern: WaiterPattern,
    pub actions: Vec<Action>,
    pub consume: bool,
}

/// Flags and variables as maps.
pub struct AutoState {
    pub flags: Map<Seq<char>, bool>,
    pub vars: Map<Seq<char>, Seq<char>>,
}

/// Whether a flag is set: present and true.
pub open spec fn flag_set(flags: Map<Seq<char>, bool>, k: Seq<char>) -> bool {
    flags.dom().contains(k) && flags[k]
}

/// A variable's value, empty when it has none.
pub open spec fn var_value(vars: Map<Seq<char>, Seq<char>>, k: Seq<char>) -> Seq<char> {
    if vars.dom().contains(k) {
        vars[k]
    } else {
        seq![]
    }
}

/// Characters of a placeholder name: ASCII letters, digits and `_`.
pub open spec fn is_name_char(c: char) -> bool {
    ('A' <= c && c <= 'Z') || ('a' <= c && c <= 'z') || ('0' <= c && c <= '9') || c == '_'
}

/// The number of name characters from index `i` on.
pub open spec fn name_len(s: Seq<char>, i: int) -> nat
    decreases s.len() - i,
{
    if 0 <= i < s.len() && is_name_char(s[i]) {
        1 + name_len(s, i + 1)
    } else {
        0
    }
}

/// A template with each `{name}` replaced by the variable's value (empty
/// when unset), left to right.
pub open spec fn expand_spec(s: Seq<char>, vars: Map<Seq<char>, Seq<char>>) -> Seq<char>
    decreases s.len(),
{
    if s.len() == 0 {
        seq![]
    } else {
        let n = name_len(s, 1) as int;
        if s[0] == '{' && n > 0 && 1 + n < s.len() && s[1 + n] == '}' {
            var_value(vars, s.subrange(1, 1 + n)) + expand_spec(s.skip(n + 2), vars)
        } else {
            seq![s[0]] + expand_spec(s.drop_first(), vars)
        }
    }
}

/// What one action does to the state, and the lines it sends.
pub open spec fn run_action(st: AutoState, a: Action) -> (AutoState, Seq<Seq<char>>)
    decreases a, 0int,
{
    match a {
        Action::Send(t) => (st, seq![expand_spec(t@, st.vars)]),
        Action::SetFlag(f, v) => (AutoState { flags: st.flags.insert(f@, v), ..st }, seq![]),
        Action::SetVar(k, v) => (AutoState { vars: st.vars.insert(k@, v@), ..st }, seq![]),
        Action::ClearFlag(f) => (AutoState { flags: st.flags.remove(f@), ..st }, seq![]),
        Action::ClearVar(k) => (AutoState { vars: st.vars.remove(k@), ..st }, seq![]),
        Action::IfFlag { flag, actions } => if flag_set(st.flags, flag@) {
            run_actions(st, actions@, 0)
        } else {
            (st, seq![])
        },
    }
}

/// What the actions from index `i` on do, in order.
pub open spec fn run_actions(st: AutoState, acts: Seq<Action>, i: int) -> (AutoState, Seq<Seq<char>>)
    decreases acts, acts.len() - i,
{
    if i < 0 || i >= acts.len() {
        (st, seq![])
    } else {
        let (s1, o1) = run_action(st, acts[i]);
        let (s2, o2) = run_actions(s1, acts, i + 1);
        (s2, o1 + o2)
    }
}

/// What the waiters from index `i` on do for the lines they match (`m`): the
/// state, the lines sent, and the waiters kept.
pub open spec fn run_waiters(st: AutoState, ws: Seq<Waiter>, m: Seq<bool>, i: int) -> (
    AutoState,
    Seq<Seq<char>>,
    Seq<Waiter>,
)
    decreases ws.len() - i,
{
    if i < 0 || i >= ws.len() {
        (st, seq![], seq![])
    } else if m[i] {
        let (s1, o1) = run_actions(st, ws[i].actions@, 0);
        let (s2, o2, r2) = run_waiters(s1, ws, m, i + 1);
        (s2, o1 + o2, if ws[i].consume {
            r2
        } else {
            seq![ws[i]] + r2
        })
    } else {
        let (s2, o2, r2) = run_waiters(st, ws, m, i + 1);
        (s2, o2, seq![ws[i]] + r2)
    }
}

pub open spec fn flags_view(v: Seq<(String, bool)>) -> Seq<(Seq<char>, bool)> {
    v.map_values(|p: (String, bool)| (p.0@, p.1))
}

pub open spec fn vars_view(v: Seq<(String, String)>) -> Seq<(Seq<char>, Seq<char>)> {
    v.map_values(|p: (String, String)| (p.0@, p.1@))
}

/// `Regex::is_match` on the expression compiled from the pattern's source:
/// whether it matches somewhere in the line, named by `regex_is_match`.
#[verifier::external_body]
fn waiter_matches(pattern: &WaiterPattern, line: &str) -> (r: bool)
    ensures
        r == regex_is_match(pattern.source_spec(), line@),
{
    pattern.regex.is_match(line)
}

/// For each waiter, whether its pattern matches the line.
pub open spec fn match_mask(ws: Seq<Waiter>, line: Seq<char>) -> Seq<bool> {
    Seq::new(ws.len(), |i: int| regex_is_match(ws[i].pattern.source_spec(), line))
}

/// Flags, variables and waiters.
pub struct Automation {
    flags: Vec<(String, bool)>,
    vars: Vec<(String, String)>,
    waiters: Vec<Waiter>,
}

fn find_key<V>(v: &Vec<(String, V)>, key: &[char]) -> (r: Option<usize>)
    ensures
        match r {
            Some(i) => i < v@.len() && v@[i as int].0@ == key@,
            None => forall|j: int| 0 <= j < v@.len() ==> (#[trigger] v@[j]).0@ != key@,
        },
{
    let mut i: usize = 0;
    while i < v.len()
        invariant
            i <= v@.len(),
            forall|j: int| 0 <= j < i ==> (#[trigger] v@[j]).0@ != key@,
        decreases v.len() - i,
    {
        if chars_eq(chars_of(v[i].0.as_str()).as_slice(), key) {
            return Some(i);
        }
        i = i + 1;
    }
    None
}

fn set_flag_in(v: &mut Vec<(String, bool)>, key: String, value: bool)
    requires
        keys_distinct(flags_view(old(v)@)),
    ensures
        keys_distinct(flags_view(final(v)@)),
        map_of(flags_view(final(v)@)) == map_of(flags_view(old(v)@)).insert(key@, value),
{
    let ghost ov = flags_view(v@);
    let kc = chars_of(key.as_str());
    match find_key(v, kc.as_slice()) {
        Some(i) => {
            proof {
                assert(ov[i as int].0 == key@);
                assert forall|j: int| i < j < ov.len() implies #[trigger] ov[j].0 != ov[i as int].0 by {
                    assert(ov[i as int] == ov[i as int] && ov[j] == ov[j]);
                }
                crate::keyed::lemma_map_of_update_at(ov, i as int, value);
            }
            v.remove(i);
            v.insert(i, (key, value));
            assert(flags_view(v@) =~= ov.update(i as int, (ov[i as int].0, value)));
        },
        None => {
            let ghost x = (key@, value);
            v.push((key, value));
            assert(flags_view(v@) =~= ov.push(x));
            assert(ov.push(x).drop_last() =~= ov);
            assert forall|j: int| 0 <= j < ov.len() implies #[trigger] ov[j].0 != x.0 by {
                assert(ov[j].0 == v@[j].0@);
            }
        },
    }
}

fn set_var_in(v: &mut Vec<(String, String)>, key: String, value: String)
    requires
        keys_distinct(vars_view(old(v)@)),
    ensures
        keys_distinct(vars_view(final(v)@)),
        map_of(vars_view(final(v)@)) == map_of(vars_view(old(v)@)).insert(key@, value@),
{
    let ghost ov = vars_view(v@);
    let kc = chars_of(key.as_str());
    match find_key(v, kc.as_slice()) {
        Some(i) => {
            proof {
                assert(ov[i as int].0 == key@);
                assert forall|j: int| i < j < ov.len() implies #[trigger] ov[j].0 != ov[i as int].0 by {
                    assert(ov[i as int] == ov[i as int] && ov[j] == ov[j]);
                }
                crate::keyed::lemma_map_of_update_at(ov, i as int, value@);
            }
            let ghost vv = value@;
            v.remove(i);
            v.insert(i, (key, value));
            assert(vars_view(v@) =~= ov.update(i as int, (ov[i as int].0, vv)));
        },
        None => {
            let ghost x = (key@, value@);
            v.push((key, value));
            assert(vars_view(v@) =~= ov.push(x));
            assert(ov.push(x).drop_last() =~= ov);
            assert forall|j: int| 0 <= j < ov.len() implies #[trigger] ov[j].0 != x.0 by {
                assert(ov[j].0 == v@[j].0@);
            }
        },
    }
}

proof fn lemma_absent_key<V>(s: Seq<(Seq<char>, V)>, k: Seq<char>)
    requires
        forall|j: int| 0 <= j < s.len() ==> (#[trigger] s[j]).0 != k,
    ensures
        !map_of(s).dom().contains(k),
        map_of(s).remove(k) == map_of(s),
{
    lemma_map_of_dom(s, k);
    if exists|i: int| 0 <= i < s.len() && #[trigger] s[i].0 == k {
        let i = choose|i: int| 0 <= i < s.len() && #[trigger] s[i].0 == k;
        assert(s[i].0 != k);
    }
    assert(map_of(s).remove(k) =~= map_of(s));
}

fn clear_flag_in(v: &mut Vec<(String, bool)>, key: &String)
    requires
        keys_distinct(flags_view(old(v)@)),
    ensures
        keys_distinct(flags_view(final(v)@)),
        map_of(flags_view(final(v)@)) == map_of(flags_view(old(v)@)).remove(key@),
{
    let ghost ov = flags_view(v@);
    let kc = chars_of(key.as_str());
    match find_key(v, kc.as_slice()) {
        Some(i) => {
            proof {
                lemma_map_of_remove(ov, i as int);
            }
            v.remove(i);
            assert(flags_view(v@) =~= ov.remove(i as int));
        },
        None => {
            proof {
                assert forall|j: int| 0 <= j < ov.len() implies (#[trigger] ov[j]).0 != key@ by {
                    assert(ov[j].0 == v@[j].0@);
                }
                lemma_absent_key(ov, key@);
            }
        },
    }
}

fn clear_var_in(v: &mut Vec<(String, String)>, key: &String)
    requires
        keys_distinct(vars_view(old(v)@)),
    ensures
        keys_distinct(vars_view(final(v)@)),
        map_of(vars_view(final(v)@)) == map_of(vars_view(old(v)@)).remove(key@),
{
    let ghost ov = vars_view(v@);
    let kc = chars_of(key.as_str());
    match find_key(v, kc.as_slice()) {
        Some(i) => {
            proof {
                lemma_map_of_remove(ov, i as int);
            }
            v.remove(i);
            assert(vars_view(v@) =~= ov.remove(i as int));
        },
        None => {
            proof {
                assert forall|j: int| 0 <= j < ov.len() implies (#[trigger] ov[j]).0 != key@ by {
                    assert(ov[j].0 == v@[j].0@);
                }
                lemma_absent_key(ov, key@);
            }
        },
    }
}

fn is_name_char_exec(c: char) -> (r: bool)
    ensures
        r == is_name_char(c),
{
    ('A' <= c && c <= 'Z') || ('a' <= c && c <= 'z') || ('0' <= c && c <= '9') || c == '_'
}

proof fn lemma_name_len_bound(s: Seq<char>, i: int)
    requires
        0 <= i,
    ensures
        name_len(s, i) <= if i <= s.len() {
            s.len() - i
        } else {
            0
        },
    decreases s.len() - i,
{
    if 0 <= i < s.len() && is_name_char(s[i]) {
        lemma_name_len_bound(s, i + 1);
    }
}

proof fn lemma_name_len_skip(s: Seq<char>, i: int, d: int)
    requires
        0 <= d <= i,
        d <= s.len(),
    ensures
        name_len(s, i) == name_len(s.skip(d), i - d),
    decreases s.len() - i,
{
    if 0 <= i < s.len() {
        assert(s.skip(d)[i - d] == s[i]);
        if is_name_char(s[i]) {
            lemma_name_len_skip(s, i + 1, d);
        }
    }
}

impl Automation {
    /// Flags and variables as maps.
    pub closed spec fn state(&self) -> AutoState {
        AutoState { flags: map_of(flags_view(self.flags@)), vars: map_of(vars_view(self.vars@)) }
    }

    /// The waiters, in the order they were added.
    pub closed spec fn waiters_spec(&self) -> Seq<Waiter> {
        self.waiters@
    }

    /// Each flag and each variable is stored once.
    pub closed spec fn wf(&self) -> bool {
        keys_distinct(flags_view(self.flags@)) && keys_distinct(vars_view(self.vars@))
    }

    /// No flags, no variables, no waiters.
    pub fn new() -> (a: Self)
        ensures
            a.wf(),
            a.state().flags == Map::<Seq<char>, bool>::empty(),
            a.state().vars == Map::<Seq<char>, Seq<char>>::empty(),
            a.waiters_spec() == Seq::<Waiter>::empty(),
    {
        let a = Automation { flags: Vec::new(), vars: Vec::new(), waiters: Vec::new() };
        assert(flags_view(a.flags@) =~= Seq::<(Seq<char>, bool)>::empty());
        assert(vars_view(a.vars@) =~= Seq::<(Seq<char>, Seq<char>)>::empty());
        a
    }

    /// The flags, each once.
    pub fn snapshot_flags(&self) -> (r: Vec<(String, bool)>)
        requires
            self.wf(),
        ensures
            keys_distinct(flags_view(r@)),
            map_of(flags_view(r@)) == self.state().flags,
    {
        let mut r: Vec<(String, bool)> = Vec::new();
        let mut i: usize = 0;
        while i < self.flags.len()
            invariant
                i <= self.flags@.len(),
                flags_view(r@) == flags_view(self.flags@).take(i as int),
            decreases self.flags.len() - i,
        {
            let ghost before = flags_view(r@);
            let k = self.flags[i].0.clone();
            let ghost kv = (k@, self.flags@[i as int].1);
            r.push((k, self.flags[i].1));
            assert(flags_view(r@) =~= before.push(kv));
            assert(flags_view(r@) =~= flags_view(self.flags@).take(i + 1));
            i = i + 1;
        }
        assert(flags_view(self.flags@).take(self.flags@.len() as int) =~= flags_view(self.flags@));
        r
    }

    /// The variables, each once.
    pub fn snapshot_vars(&self) -> (r: Vec<(String, String)>)
        requires
            self.wf(),
        ensures
            keys_distinct(vars_view(r@)),
            map_of(vars_view(r@)) == self.state().vars,
    {
        let mut r: Vec<(String, String)> = Vec::new();
        let mut i: usize = 0;
        while i < self.vars.len()
            invariant
                i <= self.vars@.len(),
                vars_view(r@) == vars_view(self.vars@).take(i as int),
            decreases self.vars.len() - i,
        {
            let ghost before = vars_view(r@);
            let k = self.vars[i].0.clone();
            let v = self.vars[i].1.clone();
            let ghost kv = (k@, v@);
            assert(kv == vars_view(self.vars@)[i as int]);
            r.push((k, v));
            assert(vars_view(r@) =~= before.push(kv));
            assert(vars_view(r@) =~= vars_view(self.vars@).take(i + 1));
            i = i + 1;
        }
        assert(vars_view(self.vars@).take(self.vars@.len() as int) =~= vars_view(self.vars@));
        r
    }

    /// Whether a flag is set.
    pub fn flag_is_set(&self, key: &str) -> (r: bool)
        requires
            self.wf(),
        ensures
            r == flag_set(self.state().flags, key@),
    {
        let kc = chars_of(key);
        match find_key(&self.flags, kc.as_slice()) {
            Some(i) => {
                proof {
                    lemma_map_of_val(flags_view(self.flags@), i as int);
                }
                self.flags[i].1
            },
            None => {
                proof {
                    assert forall|j: int| 0 <= j < flags_view(self.flags@).len() implies (#[trigger] flags_view(
                        self.flags@,
                    )[j]).0 != key@ by {
                        assert(flags_view(self.flags@)[j].0 == self.flags@[j].0@);
                    }
                    lemma_absent_key(flags_view(self.flags@), key@);
                }
                false
            },
        }
    }

    /// Sets a flag.
    pub fn set_flag(&mut self, key: &str, value: bool)
        requires
            old(self).wf(),
        ensures
            final(self).wf(),
            final(self).state().flags == old(self).state().flags.insert(key@, value),
            final(self).state().vars == old(self).state().vars,
            final(self).waiters_spec() == old(self).waiters_spec(),
    {
        set_flag_in(&mut self.flags, string_of(chars_of(key).as_slice()), value);
    }

    /// Sets a variable.
    pub fn set_var(&mut self, key: &str, value: String)
        requires
            old(self).wf(),
        ensures
            final(self).wf(),
            final(self).state().vars == old(self).state().vars.insert(key@, value@),
            final(self).state().flags == old(self).state().flags,
            final(self).waiters_spec() == old(self).waiters_spec(),
    {
        set_var_in(&mut self.vars, string_of(chars_of(key).as_slice()), value);
    }

    /// Adds a waiter after the others.
    pub fn add_waiter(&mut self, waiter: Waiter)
        requires
            old(self).wf(),
        ensures
            final(self).wf(),
            final(self).state() == old(self).state(),
            final(self).waiters_spec() == old(self).waiters_spec().push(waiter),
    {
        self.waiters.push(waiter);
    }

    /// Runs the actions in order: sends are expanded and collected, flags and
    /// variables set or cleared, and `IfFlag` runs its actions when the flag is set.
    fn execute_actions(&mut self, actions: &[Action], sends: &mut Vec<String>)
        requires
            old(self).wf(),
        ensures
            final(self).wf(),
            final(self).waiters_spec() == old(self).waiters_spec(),
            final(self).state() == run_actions(old(self).state(), actions@, 0).0,
            strings_view(final(sends)@) == strings_view(old(sends)@) + run_actions(
                old(self).state(),
                actions@,
                0,
            ).1,
        decreases actions@,
    {
        let ghost st0 = self.state();
        let ghost s0 = strings_view(sends@);
        let mut i: usize = 0;
        while i < actions.len()
            invariant
                i <= actions@.len(),
                self.wf(),
                self.waiters_spec() == old(self).waiters_spec(),
                run_actions(st0, actions@, 0).0 == run_actions(self.state(), actions@, i as int).0,
                s0 + run_actions(st0, actions@, 0).1 == strings_view(sends@) + run_actions(
                    self.state(),
                    actions@,
                    i as int,
                ).1,
            decreases actions.len() - i,
        {
            let ghost sti = self.state();
            let ghost si = strings_view(sends@);
            match &actions[i] {
                Action::Send(template) => {
                    let line = self.expand_template(template.as_str());
                    sends.push(line);
                    assert(strings_view(sends@) =~= si.push(expand_spec(template@, sti.vars)));
                },
                Action::SetFlag(flag, value) => {
                    set_flag_in(&mut self.flags, flag.clone(), *value);
                },
                Action::ClearFlag(flag) => {
                    clear_flag_in(&mut self.flags, flag);
                },
                Action::SetVar(key, value) => {
                    set_var_in(&mut self.vars, key.clone(), value.clone());
                },
                Action::ClearVar(key) => {
                    clear_var_in(&mut self.vars, key);
                },
                Action::IfFlag { flag, actions: inner } => {
                    if self.flag_is_set(flag.as_str()) {
                        assert(decreases_to!(actions@ => inner@)) by {
                            assert(decreases_to!(actions@ => actions@[i as int]));
                        }
                        self.execute_actions(inner.as_slice(), sends);
                    }
                },
            }
            let ghost r1 = run_action(sti, actions@[i as int]);
            assert(self.state() == r1.0);
            assert(strings_view(sends@) == si + r1.1);
            assert(si + (r1.1 + run_actions(r1.0, actions@, i + 1).1) =~= (si + r1.1) + run_actions(
                r1.0,
                actions@,
                i + 1,
            ).1);
            i = i + 1;
        }
        assert(s0 + run_actions(st0, actions@, 0).1 =~= strings_view(sends@) + Seq::<Seq<char>>::empty());
    }

    /// Runs actions and returns the lines they send.
    pub fn apply_actions(&mut self, actions: Vec<Action>) -> (sends: Vec<String>)
        requires
            old(self).wf(),
        ensures
            final(self).wf(),
            final(self).waiters_spec() == old(self).waiters_spec(),
            final(self).state() == run_actions(old(self).state(), actions@, 0).0,
            strings_view(sends@) == run_actions(old(self).state(), actions@, 0).1,
    {
        let mut sends: Vec<String> = Vec::new();
        assert(strings_view(sends@) =~= Seq::<Seq<char>>::empty());
        self.execute_actions(actions.as_slice(), &mut sends);
        assert(Seq::<Seq<char>>::empty() + run_actions(old(self).state(), actions@, 0).1 =~= run_actions(
            old(self).state(),
            actions@,
            0,
        ).1);
        sends
    }

    /// Runs the waiters in order for a line, given for each whether its
    /// pattern matches: a matching waiter runs its actions and is dropped if
    /// it consumes; the others stay.
    pub fn apply_matches(&mut self, matched: &[bool]) -> (sends: Vec<String>)
        requires
            old(self).wf(),
            matched@.len() == old(self).waiters_spec().len(),
        ensures
            final(self).wf(),
            ({
                let (st, out, kept) = run_waiters(old(self).state(), old(self).waiters_spec(), matched@, 0);
                &&& final(self).state() == st
                &&& strings_view(sends@) == out
                &&& final(self).waiters_spec() == kept
            }),
    {
        let ghost ws = self.waiters@;
        let ghost st0 = self.state();
        let mut waiters: Vec<Waiter> = Vec::new();
        std::mem::swap(&mut waiters, &mut self.waiters);
        let mut retained: Vec<Waiter> = Vec::new();
        let mut sends: Vec<String> = Vec::new();
        let mut i: usize = 0;
        let n = waiters.len();
        assert(ws.skip(0) =~= ws);
        assert(strings_view(sends@) =~= Seq::<Seq<char>>::empty());
        while i < n
            invariant
                n == ws.len(),
                i <= ws.len(),
                matched@.len() == ws.len(),
                waiters@ == ws.skip(i as int),
                self.wf(),
                self.waiters@ == Seq::<Waiter>::empty(),
                ({
                    let full = run_waiters(st0, ws, matched@, 0);
                    let rest = run_waiters(self.state(), ws, matched@, i as int);
                    &&& full.0 == rest.0
                    &&& full.1 == strings_view(sends@) + rest.1
                    &&& full.2 == retained@ + rest.2
                }),
            decreases n - i,
        {
            let w = waiters.remove(0);
            assert(w == ws[i as int]);
            assert(waiters@ =~= ws.skip(i + 1));
            let ghost sti = self.state();
            let ghost si = strings_view(sends@);
            let ghost ri = retained@;
            let ghost next = run_waiters(sti, ws, matched@, i + 1);
            if matched[i] {
                self.execute_actions(w.actions.as_slice(), &mut sends);
                let ghost ra = run_actions(sti, ws[i as int].actions@, 0);
                let ghost after = run_waiters(ra.0, ws, matched@, i + 1);
                assert(si + (ra.1 + after.1) =~= (si + ra.1) + after.1);
                if !w.consume {
                    retained.push(w);
                    assert(ri + (seq![ws[i as int]] + after.2) =~= retained@ + after.2);
                }
            } else {
                retained.push(w);
                assert(ri + (seq![ws[i as int]] + next.2) =~= retained@ + next.2);
            }
            i = i + 1;
        }
        assert(strings_view(sends@) + Seq::<Seq<char>>::empty() =~= strings_view(sends@));
        assert(retained@ + Seq::<Waiter>::empty() =~= retained@);
        self.waiters = retained;
        sends
    }

    /// Runs the waiters whose pattern matches the line, in order, and returns
    /// the lines their actions send.
    pub fn process_line(&mut self, line: &str) -> (sends: Vec<String>)
        requires
            old(self).wf(),
        ensures
            final(self).wf(),
            ({
                let m = match_mask(old(self).waiters_spec(), line@);
                let (st, out, kept) = run_waiters(old(self).state(), old(self).waiters_spec(), m, 0);
                &&& final(self).state() == st
                &&& strings_view(sends@) == out
                &&& final(self).waiters_spec() == kept
            }),
    {
        let mut matched: Vec<bool> = Vec::new();
        let mut i: usize = 0;
        while i < self.waiters.len()
            invariant
                i <= self.waiters@.len(),
                matched@ == match_mask(self.waiters@, line@).take(i as int),
            decreases self.waiters.len() - i,
        {
            let b = waiter_matches(&self.waiters[i].pattern, line);
            matched.push(b);
            assert(matched@ =~= match_mask(self.waiters@, line@).take(i + 1));
            i = i + 1;
        }
        assert(matched@ =~= match_mask(self.waiters@, line@));
        let ghost m = matched@;
        let ghost before = (self.state(), self.waiters@);
        let sends = self.apply_matches(matched.as_slice());
        assert(m.len() == before.1.len());
        let ghost r = run_waiters(before.0, before.1, m, 0);
        sends
    }

    /// A template with each `{name}` replaced by the variable's value.
    pub fn expand_template(&self, template: &str) -> (r: String)
        requires
            self.wf(),
        ensures
            r@ == expand_spec(template@, self.state().vars),
    {
        let s = chars_of(template);
        let ghost vars = self.state().vars;
        let mut out: Vec<char> = Vec::new();
        let mut i: usize = 0;
        assert(s@.skip(0) =~= s@);
        while i < s.len()
            invariant
                i <= s@.len(),
                s@ == template@,
                vars == self.state().vars,
                self.wf(),
                expand_spec(s@, vars) == out@ + expand_spec(s@.skip(i as int), vars),
            decreases s.len() - i,
        {
            let ghost rest = s@.skip(i as int);
            let mut n: usize = 0;
            proof {
                lemma_name_len_skip(s@, i + 1, i as int);
                lemma_name_len_bound(s@, i + 1);
            }
            while i + 1 + n < s.len() && is_name_char_exec(s[i + 1 + n])
                invariant
                    i < s@.len(),
                    i + 1 + n <= s@.len(),
                    name_len(s@, i + 1) == n + name_len(s@, i + 1 + n),
                decreases s.len() - (i + 1 + n),
            {
                n = n + 1;
            }
            assert(name_len(s@, i + 1 + n) == 0);
            assert(name_len(rest, 1) == n);
            if s[i] == '{' && n > 0 && i + 1 + n < s.len() && s[i + 1 + n] == '}' {
                let name = crate::text::sub_chars(s.as_slice(), i + 1, i + 1 + n);
                assert(name@ =~= rest.subrange(1, 1 + n as int));
                let ghost before = out@;
                match find_key(&self.vars, name.as_slice()) {
                    Some(k) => {
                        proof {
                            lemma_map_of_val(vars_view(self.vars@), k as int);
                        }
                        let vc = chars_of(self.vars[k].1.as_str());
                        push_all(&mut out, vc.as_slice());
                    },
                    None => {
                        proof {
                            assert forall|j: int| 0 <= j < vars_view(self.vars@).len() implies (#[trigger] vars_view(
                                self.vars@,
                            )[j]).0 != name@ by {
                                assert(vars_view(self.vars@)[j].0 == self.vars@[j].0@);
                            }
                            lemma_absent_key(vars_view(self.vars@), name@);
                        }
                    },
                }
                assert(out@ == before + var_value(vars, name@));
                assert(rest.skip(n + 2) =~= s@.skip(i + n + 2));
                i = i + n + 2;
            } else {
                out.push(s[i]);
                assert(rest.drop_first() =~= s@.skip(i + 1));
                i = i + 1;
            }
        }
        assert(s@.skip(i as int) =~= Seq::<char>::empty());
        assert(out@ + Seq::<char>::empty() =~= out@);
        string_of(out.as_slice())
    }
}

proof fn lemma_name_len_of_braced(name: Seq<char>, i: int)
    requires
        1 <= i <= name.len() + 1,
        forall|k: int|
            0 <= k < name.len() ==> {
                let c = #[trigger] name[k];
                ('A' <= c && c <= 'Z') || ('a' <= c && c <= 'z') || ('0' <= c && c <= '9') || c == '_'
            },
    ensures
        name_len(seq!['{'] + name + seq!['}'], i) == name.len() + 1 - i,
    decreases name.len() + 1 - i,
{
    let s = seq!['{'] + name + seq!['}'];
    if i <= name.len() {
        assert(s[i] == name[i - 1]);
        lemma_name_len_of_braced(name, i + 1);
    } else {
        assert(s[i] == '}');
    }
}

/// A placeholder `{name}` whose name is made of ASCII letters, digits and `_`
/// expands to the variable's value, or to nothing when the variable is unset.
pub proof fn law_placeholder_expands_to_value(name: Seq<char>, vars: Map<Seq<char>, Seq<char>>)
    requires
        name.len() > 0,
        forall|k: int|
            0 <= k < name.len() ==> {
                let c = #[trigger] name[k];
                ('A' <= c && c <= 'Z') || ('a' <= c && c <= 'z') || ('0' <= c && c <= '9') || c == '_'
            },
    ensures
        expand_spec(seq!['{'] + name + seq!['}'], vars) == if vars.dom().contains(name) {
            vars[name]
        } else {
            Seq::<char>::empty()
        },
{
    let s = seq!['{'] + name + seq!['}'];
    lemma_name_len_of_braced(name, 1);
    let n = name.len() as int;
    assert(s[1 + n] == '}');
    assert(s.subrange(1, 1 + n) =~= name);
    assert(s.skip(n + 2) =~= Seq::<char>::empty());
    assert(expand_spec(Seq::<char>::empty(), vars) == Seq::<char>::empty());
    assert(var_value(vars, name) + Seq::<char>::empty() =~= var_value(vars, name));
}

} // verus!
