//! Parsing of typed input lines into a command name and arguments, and the
//! environment that command handlers read.
use crate::text::{is_ws, lower, lower_seq, trim_seq, chars_of, string_of, sub_chars, push_all, is_whitespace_char, lower_chars, trim_chars, chars_eq};
use vstd::prelude::*;

verus! {

/// Length of the run of non-whitespace characters at the start of `s`.
pub open spec fn leading_word_len(s: Seq<char>) -> nat
    decreases s.len(),
{
    if s.len() == 0 || is_ws(s[0]) {
        0
    } else {
        1 + leading_word_len(s.drop_first())
    }
}

/// The command name: the first word of the trimmed line, ASCII lower-cased.
pub open spec fn command_name_seq(line: Seq<char>) -> Seq<char> {
    let t = trim_seq(line);
    lower_seq(t.take(leading_word_len(t) as int))
}

/// The arguments: the trimmed rest of the trimmed line after the first word.
pub open spec fn command_args_seq(line: Seq<char>) -> Seq<char> {
    let t = trim_seq(line);
    trim_seq(t.skip(leading_word_len(t) as int))
}

/// The canonical text of a command: its name, then one space and the
/// arguments when there are any.
pub open spec fn command_original_seq(cmd: Seq<char>, args: Seq<char>) -> Seq<char> {
    if args.len() == 0 {
        cmd
    } else {
        cmd + " "@ + args
    }
}

/// A shortcut as the help lists it: its alias and what it does.
#[derive(Clone, Copy, Debug, PartialEq, Eq)]
pub struct ShortcutEntry {
    pub alias: &'static str,
    pub description: &'static str,
}

impl ShortcutEntry {
    pub fn new(alias: &'static str, description: &'static str) -> (r: Self)
        ensures
            r.alias == alias,
            r.description == description,
    {
        ShortcutEntry { alias, description }
    }
}

/// A trigger as the help lists it: its pattern and what it does.
#[derive(Clone, Debug, PartialEq, Eq)]
pub struct TriggerCatalogEntry {
    pub pattern: String,
    pub description: String,
}

impl TriggerCatalogEntry {
    pub fn new(pattern: &str, description: &str) -> (r: Self)
        ensures
            r.pattern@ == pattern@,
            r.description@ == description@,
    {
        TriggerCatalogEntry { pattern: pattern.to_string(), description: description.to_string() }
    }
}

/// A typed line split into its lower-cased command word and its arguments.
pub struct ParsedCommand {
    pub cmd: String,
    pub args: String,
}

/// The input handed to command handlers.
pub type Data = ParsedCommand;

proof fn lemma_leading_word_step(s: Seq<char>, i: int)
    requires
        0 <= i < s.len(),
        !is_ws(s[i]),
    ensures
        leading_word_len(s.skip(i)) == 1 + leading_word_len(s.skip(i + 1)),
{
    assert(s.skip(i).drop_first() =~= s.skip(i + 1));
}

/// Index of the first whitespace character of `s`, or its length when there is none.
pub fn first_word_len(s: &[char]) -> (k: usize)
    ensures
        k == leading_word_len(s@),
        k <= s@.len(),
{
    let mut i: usize = 0;
    assert(s@.skip(0) =~= s@);
    while i < s.len() && !is_whitespace_char(s[i])
        invariant
            i <= s@.len(),
            leading_word_len(s@) == i + leading_word_len(s@.skip(i as int)),
        decreases s.len() - i,
    {
        proof {
            lemma_leading_word_step(s@, i as int);
        }
        i = i + 1;
    }
    proof {
        if i < s@.len() {
            assert(s@.skip(i as int)[0] == s@[i as int]);
        } else {
            assert(s@.skip(i as int).len() == 0);
        }
    }
    i
}

impl ParsedCommand {
    /// Splits a typed line into its command word and arguments.
    pub fn new(line: &str) -> (r: Self)
        ensures
            r.cmd@ == command_name_seq(line@),
            r.args@ == command_args_seq(line@),
    {
        let v = chars_of(line);
        let t = trim_chars(v.as_slice());
        let k = first_word_len(t.as_slice());
        let word = sub_chars(t.as_slice(), 0, k);
        let name = lower_chars(word.as_slice());
        let rest = sub_chars(t.as_slice(), k, t.len());
        let args = trim_chars(rest.as_slice());
        assert(word@ == t@.take(k as int));
        assert(rest@ == t@.skip(k as int));
        ParsedCommand { cmd: string_of(name.as_slice()), args: string_of(args.as_slice()) }
    }

    /// The command text: name, then a space and the arguments when there are any.
    pub fn original(&self) -> (r: String)
        ensures
            r@ == command_original_seq(self.cmd@, self.args@),
    {
        let args = chars_of(self.args.as_str());
        let mut out = chars_of(self.cmd.as_str());
        if args.len() > 0 {
            out.push(' ');
            push_all(&mut out, args.as_slice());
            assert(out@ =~= self.cmd@ + " "@ + self.args@) by {
                reveal_strlit(" ");
            }
        }
        string_of(out.as_slice())
    }

    /// The lower-cased command word.
    pub fn name(&self) -> (r: &str)
        ensures
            r@ == self.cmd@,
    {
        self.cmd.as_str()
    }
}

/// Flags and variables that guild command handlers may consult, as lists of
/// key and value pairs; where a key occurs more than once, the first entry is
/// the one read.
pub struct CommandEnvironment {
    pub flags: Vec<(String, bool)>,
    pub vars: Vec<(String, String)>,
}

/// The value of the first entry whose key is `key`.
pub open spec fn lookup_first<V>(entries: Seq<(Seq<char>, V)>, key: Seq<char>) -> Option<V>
    decreases entries.len(),
{
    if entries.len() == 0 {
        None
    } else if entries[0].0 == key {
        Some(entries[0].1)
    } else {
        lookup_first(entries.drop_first(), key)
    }
}

pub open spec fn flag_entries(v: Seq<(String, bool)>) -> Seq<(Seq<char>, bool)> {
    v.map_values(|e: (String, bool)| (e.0@, e.1))
}

pub open spec fn var_entries(v: Seq<(String, String)>) -> Seq<(Seq<char>, Seq<char>)> {
    v.map_values(|e: (String, String)| (e.0@, e.1@))
}

/// Whether two strings hold the same characters.
pub fn str_eq(a: &str, b: &str) -> (r: bool)
    ensures
        r == (a@ == b@),
{
    let x = chars_of(a);
    let y = chars_of(b);
    chars_eq(x.as_slice(), y.as_slice())
}

impl CommandEnvironment {
    pub fn new(flags: Vec<(String, bool)>, vars: Vec<(String, String)>) -> (r: Self)
        ensures
            r == (CommandEnvironment { flags, vars }),
    {
        CommandEnvironment { flags, vars }
    }

    /// An environment with no flags and no variables.
    pub fn empty() -> (r: Self)
        ensures
            r.flags@.len() == 0,
            r.vars@.len() == 0,
    {
        Self::new(Vec::new(), Vec::new())
    }

    pub fn with_vars(flags: Vec<(String, bool)>, vars: Vec<(String, String)>) -> (r: Self)
        ensures
            r.flags@ == flags@,
            r.vars@ == vars@,
    {
        Self::new(flags, vars)
    }

    /// The flag's value; an unknown flag reads as `false`.
    pub fn flag(&self, key: &str) -> (r: bool)
        ensures
            r == match lookup_first(flag_entries(self.flags@), key@) {
                Some(b) => b,
                None => false,
            },
    {
        let mut i: usize = 0;
        assert(self.flags@.skip(0) =~= self.flags@);
        while i < self.flags.len()
            invariant
                i <= self.flags@.len(),
                lookup_first(flag_entries(self.flags@), key@) == lookup_first(
                    flag_entries(self.flags@.skip(i as int)),
                    key@,
                ),
            decreases self.flags.len() - i,
        {
            assert(flag_entries(self.flags@.skip(i as int)).drop_first() =~= flag_entries(
                self.flags@.skip(i + 1),
            ));
            if str_eq(self.flags[i].0.as_str(), key) {
                return self.flags[i].1;
            }
            i = i + 1;
        }
        false
    }

    /// The variable's value, if it is set.
    pub fn var(&self, key: &str) -> (r: Option<&str>)
        ensures
            match lookup_first(var_entries(self.vars@), key@) {
                Some(v) => r is Some && r->0@ == v,
                None => r is None,
            },
    {
        let mut i: usize = 0;
        assert(self.vars@.skip(0) =~= self.vars@);
        while i < self.vars.len()
            invariant
                i <= self.vars@.len(),
                lookup_first(var_entries(self.vars@), key@) == lookup_first(
                    var_entries(self.vars@.skip(i as int)),
                    key@,
                ),
            decreases self.vars.len() - i,
        {
            assert(var_entries(self.vars@.skip(i as int)).drop_first() =~= var_entries(
                self.vars@.skip(i + 1),
            ));
            if str_eq(self.vars[i].0.as_str(), key) {
                return Some(self.vars[i].1.as_str());
            }
            i = i + 1;
        }
        None
    }
}

} // verus!
