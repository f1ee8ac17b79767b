//! Recognising the incoming lines that report a hit on the player: skills,
//! spells and melee verbs of the catalog.
use crate::ansi::segment::bytes_len;
use crate::combat_damage::catalog::{entries_view, entry_view, Catalog, CatalogEntry, EntryView};
use crate::combat_damage::conjugate::{conjugate_verb, conjugate_verb_spec};
use crate::scan_grammar::{no_newline, no_newline_exec};
use crate::text::{
    chars_eq, chars_of, ends_with_chars, is_prefix, is_suffix, is_ws, lower_chars, lower_seq,
    push_all, starts_with_chars, string_of, sub_chars, trim_end_len, trim_end_seq,
    trim_start_index, trim_start_seq, seq_less, seq_less_exec, lemma_seq_less_irrefl,
    lemma_seq_less_trans,
};
use vstd::prelude::*;

verus! {

/// How a hit was dealt.
#[derive(Debug, Clone, Copy, PartialEq, Eq, Structural)]
pub enum DamageCategory {
    Melee,
    Skill,
    Spell,
}

/// A line that may explain lost hit points: who dealt the hit, with what, and the line.
#[derive(Debug)]
pub struct DamageCandidate {
    pub category: DamageCategory,
    pub source_name: String,
    pub message_verb: String,
    pub message_text: String,
}

/// A candidate as plain values.
pub struct CandidateView {
    pub category: DamageCategory,
    pub source_name: Seq<char>,
    pub message_verb: Seq<char>,
    pub message_text: Seq<char>,
}

pub open spec fn candidate_view(c: DamageCandidate) -> CandidateView {
    CandidateView {
        category: c.category,
        source_name: c.source_name@,
        message_verb: c.message_verb@,
        message_text: c.message_text@,
    }
}

/// An optional candidate as plain values.
pub open spec fn opt_candidate_view(r: Option<DamageCandidate>) -> Option<CandidateView> {
    match r {
        Some(c) => Some(candidate_view(c)),
        None => None,
    }
}

/// What an incoming line reports and the melee family remembered after it: a
/// skill line first, then a spell, then the chosen melee verb (which becomes
/// the remembered family); nothing when the line names none.
pub open spec fn incoming_match(
    es: Seq<EntryView>,
    last: Option<usize>,
    line: Seq<char>,
    r: Option<CandidateView>,
    new_last: Option<usize>,
) -> bool {
    match first_skill(line, 0) {
        Some(i) => r == Some(
            CandidateView {
                category: DamageCategory::Skill,
                source_name: skill_source(i, line)->0,
                message_verb: skill_verb(i),
                message_text: line,
            },
        ) && new_last == last,
        None => match spell_name(line) {
            Some(n) => r == Some(
                CandidateView {
                    category: DamageCategory::Spell,
                    source_name: seq![],
                    message_verb: n,
                    message_text: line,
                },
            ) && new_last == last,
            None => if !ends_with_you(line) || no_melee_match(es, line) {
                r is None && new_last == last
            } else {
                exists|i: int|
                    is_melee_choice(es, last, line, i) && new_last == Some(es[i].family as usize) && r
                        == Some(
                        CandidateView {
                            category: DamageCategory::Melee,
                            source_name: entry_source(line, es[i])->0,
                            message_verb: es[i].canonical,
                            message_text: line,
                        },
                    )
            },
        },
    }
}

/// The text between a fixed start and a fixed end of the whole line: at least
/// one character, none of them a newline (`^P(.+)S$`).
pub open spec fn between(line: Seq<char>, p: Seq<char>, s: Seq<char>) -> Option<Seq<char>> {
    if line.len() >= p.len() + s.len() + 1 && is_prefix(p, line) && is_suffix(s, line) {
        let m = line.subrange(p.len() as int, line.len() - s.len());
        if no_newline(m) {
            Some(m)
        } else {
            None
        }
    } else {
        None
    }
}

/// The attacker in a feint line: after `OOF!`, a run of whitespace, then the
/// name up to the fixed end (`^OOF!\s+(.+) feints, ...$`, the whitespace run as
/// long as the name can stay non-empty).
pub open spec fn feint_source(line: Seq<char>) -> Option<Seq<char>> {
    let p = "OOF!"@;
    let s = " feints, throwing you offguard as he PUMMELS your midriff!"@;
    if line.len() >= p.len() + s.len() && is_prefix(p, line) && is_suffix(s, line) {
        let m = line.subrange(p.len() as int, line.len() - s.len());
        let rest = trim_start_seq(m);
        if rest.len() == m.len() {
            None
        } else if rest.len() > 0 {
            if no_newline(rest) {
                Some(rest)
            } else {
                None
            }
        } else if m.len() >= 2 && m.last() != '\n' {
            Some(seq![m.last()])
        } else {
            None
        }
    } else {
        None
    }
}

/// The skill lines, in the order they are tried: their fixed start and end, and the skill.
pub open spec fn skill_pattern(i: int) -> (Seq<char>, Seq<char>, Seq<char>) {
    if i == 0 {
        (
            ""@,
            " kicks you in the groin very hard. You gasp with pain and double up."@,
            "kick"@,
        )
    } else if i == 1 {
        (
            ""@,
            " performs a quick kick to your stomach, almost making you lose your breakfast."@,
            "kick"@,
        )
    } else if i == 2 {
        (
            ""@,
            "'s kick lashes at you with speed, but you manage to partly deflect it in time."@,
            "kick"@,
        )
    } else if i == 3 {
        ("With a quick flick, "@, " knocks your weapon aside and stabs your stomach!"@, "stab"@)
    } else if i == 4 {
        ("You watch helplessly as "@, " smashes your kneecap!"@, "stab"@)
    } else if i == 6 {
        (""@, " slashes a ragged wound across your chest."@, "scythe swipe"@)
    } else if i == 7 {
        (""@, "'s bash sends you sprawling."@, "bash"@)
    } else {
        (""@, " pushes you."@, "push"@)
    }
}

/// The attacker named by skill line `i`; line 5 is the feint.
pub open spec fn skill_source(i: int, line: Seq<char>) -> Option<Seq<char>> {
    if i == 5 {
        feint_source(line)
    } else {
        let (p, s, v) = skill_pattern(i);
        between(line, p, s)
    }
}

/// The skill of skill line `i`.
pub open spec fn skill_verb(i: int) -> Seq<char> {
    if i == 5 {
        "stab"@
    } else {
        skill_pattern(i).2
    }
}

/// The first skill line, from `i` on, that the line matches.
pub open spec fn first_skill(line: Seq<char>, i: int) -> Option<int>
    decreases 9 - i,
{
    if i < 0 || i >= 9 {
        None
    } else if skill_source(i, line) is Some {
        Some(i)
    } else {
        first_skill(line, i + 1)
    }
}

/// The spell of a line `A <spell> hits you.` or `An <spell> hits you.`.
pub open spec fn spell_name(line: Seq<char>) -> Option<Seq<char>> {
    match between(line, "An "@, " hits you."@) {
        Some(n) => Some(n),
        None => between(line, "A "@, " hits you."@),
    }
}

/// The attacker of a melee line ending in `suffix` (ASCII case ignored): what
/// comes before it, without trailing whitespace, when that is not empty.
pub open spec fn strip_suffix_ci(line: Seq<char>, suffix: Seq<char>) -> Option<Seq<char>> {
    let ll = lower_seq(line);
    let ls = lower_seq(suffix);
    if is_suffix(ls, ll) {
        let src = trim_end_seq(ll.take(ll.len() - ls.len()));
        if src.len() == 0 {
            None
        } else {
            Some(line.take(src.len() as int))
        }
    } else {
        None
    }
}

/// The attacker of a melee line for a catalog entry: by its conjugated ending,
/// else by its bare ending.
pub open spec fn entry_source(line: Seq<char>, e: EntryView) -> Option<Seq<char>> {
    match strip_suffix_ci(line, e.conjugated_suffix) {
        Some(s) => Some(s),
        None => strip_suffix_ci(line, e.bare_suffix),
    }
}

/// Whether a line, trailing whitespace aside, ends in ` you.` (ASCII case ignored).
pub open spec fn ends_with_you(line: Seq<char>) -> bool {
    is_suffix(" you."@, lower_seq(trim_end_seq(line)))
}

/// The catalog's order: longer verbs (in bytes) first, then alphabetical, then
/// by family and rank.
pub open spec fn catalog_before(a: EntryView, b: EntryView) -> bool {
    ||| bytes_len(a.canonical) > bytes_len(b.canonical)
    ||| bytes_len(a.canonical) == bytes_len(b.canonical) && seq_less(a.canonical, b.canonical)
    ||| bytes_len(a.canonical) == bytes_len(b.canonical) && a.canonical == b.canonical && (a.family
        < b.family || a.family == b.family && a.rank < b.rank)
}

/// The melee search's preference: a longer verb wins; at equal length a verb
/// of the last matched family wins; then the catalog's order.
pub open spec fn melee_before(a: EntryView, b: EntryView, last: Option<usize>) -> bool {
    let ra = last == Some(a.family as usize);
    let rb = last == Some(b.family as usize);
    ||| bytes_len(a.canonical) > bytes_len(b.canonical)
    ||| bytes_len(a.canonical) == bytes_len(b.canonical) && ra && !rb
    ||| bytes_len(a.canonical) == bytes_len(b.canonical) && ra == rb && catalog_before(a, b)
}

/// Whether entry `i` is the melee match: it matches, and no matching entry comes before it.
pub open spec fn is_melee_choice(es: Seq<EntryView>, last: Option<usize>, line: Seq<char>, i: int) -> bool {
    &&& 0 <= i < es.len()
    &&& entry_source(line, es[i]) is Some
    &&& forall|j: int|
        0 <= j < es.len() && j != i && entry_source(line, #[trigger] es[j]) is Some ==> !melee_before(
            es[j],
            es[i],
            last,
        )
}

/// Whether the line names no melee verb of the catalog.
pub open spec fn no_melee_match(es: Seq<EntryView>, line: Seq<char>) -> bool {
    forall|j: int| 0 <= j < es.len() ==> entry_source(line, #[trigger] es[j]) is None
}

/// Recognises incoming hits; remembers the weapon family of the last melee hit.
pub struct Matcher {
    last_family: Option<usize>,
    catalog: Catalog,
}

fn lit(s: &str) -> (r: Vec<char>)
    ensures
        r@ == s@,
{
    chars_of(s)
}

fn between_exec(line: &[char], p: &[char], s: &[char]) -> (r: Option<Vec<char>>)
    ensures
        match between(line@, p@, s@) {
            Some(m) => r matches Some(v) && v@ == m,
            None => r is None,
        },
{
    if p.len() > line.len() || s.len() > line.len() - p.len() || line.len() - p.len() - s.len()
        < 1 {
        return None;
    }
    if !starts_with_chars(line, p) || !ends_with_chars(line, s) {
        return None;
    }
    let end = line.len() - s.len();
    if !no_newline_exec(line, p.len(), end) {
        return None;
    }
    Some(sub_chars(line, p.len(), end))
}

fn feint_source_exec(line: &[char]) -> (r: Option<Vec<char>>)
    ensures
        match feint_source(line@) {
            Some(m) => r matches Some(v) && v@ == m,
            None => r is None,
        },
{
    let p = lit("OOF!");
    let s = lit(" feints, throwing you offguard as he PUMMELS your midriff!");
    if p.len() > line.len() || s.len() > line.len() - p.len() {
        return None;
    }
    if !starts_with_chars(line, p.as_slice()) || !ends_with_chars(line, s.as_slice()) {
        return None;
    }
    let end = line.len() - s.len();
    let m = sub_chars(line, p.len(), end);
    let k = trim_start_index(m.as_slice());
    if k == 0 {
        return None;
    }
    if k < m.len() {
        if no_newline_exec(m.as_slice(), k, m.len()) {
            return Some(sub_chars(m.as_slice(), k, m.len()));
        }
        return None;
    }
    if m.len() >= 2 && m[m.len() - 1] != '\n' {
        let mut v: Vec<char> = Vec::new();
        v.push(m[m.len() - 1]);
        return Some(v);
    }
    None
}

fn skill_strings(i: usize) -> (r: (Vec<char>, Vec<char>, Vec<char>))
    requires
        i < 9,
        i != 5,
    ensures
        r.0@ == skill_pattern(i as int).0,
        r.1@ == skill_pattern(i as int).1,
        r.2@ == skill_pattern(i as int).2,
{
    if i == 0 {
        (
            lit(""),
            lit(" kicks you in the groin very hard. You gasp with pain and double up."),
            lit("kick"),
        )
    } else if i == 1 {
        (
            lit(""),
            lit(" performs a quick kick to your stomach, almost making you lose your breakfast."),
            lit("kick"),
        )
    } else if i == 2 {
        (
            lit(""),
            lit("'s kick lashes at you with speed, but you manage to partly deflect it in time."),
            lit("kick"),
        )
    } else if i == 3 {
        (
            lit("With a quick flick, "),
            lit(" knocks your weapon aside and stabs your stomach!"),
            lit("stab"),
        )
    } else if i == 4 {
        (lit("You watch helplessly as "), lit(" smashes your kneecap!"), lit("stab"))
    } else if i == 6 {
        (lit(""), lit(" slashes a ragged wound across your chest."), lit("scythe swipe"))
    } else if i == 7 {
        (lit(""), lit("'s bash sends you sprawling."), lit("bash"))
    } else {
        (lit(""), lit(" pushes you."), lit("push"))
    }
}

fn skill_source_exec(i: usize, line: &[char]) -> (r: Option<Vec<char>>)
    requires
        i < 9,
    ensures
        match skill_source(i as int, line@) {
            Some(m) => r matches Some(v) && v@ == m,
            None => r is None,
        },
{
    if i == 5 {
        return feint_source_exec(line);
    }
    let (p, s, _v) = skill_strings(i);
    between_exec(line, p.as_slice(), s.as_slice())
}

/// The skill hit a line reports, trying the skill lines in order.
fn match_skill(line: &str) -> (r: Option<DamageCandidate>)
    ensures
        match first_skill(line@, 0) {
            Some(i) => r matches Some(c) && candidate_view(c) == (CandidateView {
                category: DamageCategory::Skill,
                source_name: skill_source(i, line@)->0,
                message_verb: skill_verb(i),
                message_text: line@,
            }),
            None => r is None,
        },
{
    let chars = chars_of(line);
    let mut i: usize = 0;
    while i < 9
        invariant
            i <= 9,
            chars@ == line@,
            first_skill(line@, 0) == first_skill(line@, i as int),
        decreases 9 - i,
    {
        match skill_source_exec(i, chars.as_slice()) {
            Some(src) => {
                let verb = if i == 5 {
                    lit("stab")
                } else {
                    let (_p, _s, v) = skill_strings(i);
                    v
                };
                return Some(
                    DamageCandidate {
                        category: DamageCategory::Skill,
                        source_name: string_of(src.as_slice()),
                        message_verb: string_of(verb.as_slice()),
                        message_text: string_of(chars.as_slice()),
                    },
                );
            },
            None => {},
        }
        i = i + 1;
    }
    None
}

/// The spell hit a line reports: its name as the verb, no attacker.
fn match_spell(line: &str) -> (r: Option<DamageCandidate>)
    ensures
        match spell_name(line@) {
            Some(n) => r matches Some(c) && candidate_view(c) == (CandidateView {
                category: DamageCategory::Spell,
                source_name: seq![],
                message_verb: n,
                message_text: line@,
            }),
            None => r is None,
        },
{
    let chars = chars_of(line);
    let s = lit(" hits you.");
    let an = lit("An ");
    let name = match between_exec(chars.as_slice(), an.as_slice(), s.as_slice()) {
        Some(n) => n,
        None => {
            let a = lit("A ");
            match between_exec(chars.as_slice(), a.as_slice(), s.as_slice()) {
                Some(n) => n,
                None => {
                    return None;
                },
            }
        },
    };
    let empty = String::new();
    assert(empty@ =~= Seq::<char>::empty());
    Some(
        DamageCandidate {
            category: DamageCategory::Spell,
            source_name: empty,
            message_verb: string_of(name.as_slice()),
            message_text: string_of(chars.as_slice()),
        },
    )
}

fn strip_suffix_ci_exec(line: &[char], suffix: &[char]) -> (r: Option<Vec<char>>)
    ensures
        match strip_suffix_ci(line@, suffix@) {
            Some(m) => r matches Some(v) && v@ == m,
            None => r is None,
        },
{
    let ll = lower_chars(line);
    let ls = lower_chars(suffix);
    if !ends_with_chars(ll.as_slice(), ls.as_slice()) {
        return None;
    }
    let head = sub_chars(ll.as_slice(), 0, ll.len() - ls.len());
    assert(head@ =~= ll@.take(ll@.len() - ls@.len()));
    let k = trim_end_len(head.as_slice());
    if k == 0 {
        return None;
    }
    let r = sub_chars(line, 0, k);
    assert(r@ =~= line@.take(k as int));
    Some(r)
}

fn entry_source_exec(line: &[char], e: &CatalogEntry) -> (r: Option<Vec<char>>)
    ensures
        match entry_source(line@, entry_view(*e)) {
            Some(m) => r matches Some(v) && v@ == m,
            None => r is None,
        },
{
    let conj = chars_of(&e.conjugated_suffix);
    match strip_suffix_ci_exec(line, conj.as_slice()) {
        Some(s) => Some(s),
        None => {
            let bare = chars_of(&e.bare_suffix);
            strip_suffix_ci_exec(line, bare.as_slice())
        },
    }
}

fn catalog_before_exec(a: &CatalogEntry, b: &CatalogEntry) -> (r: bool)
    ensures
        r == catalog_before(entry_view(*a), entry_view(*b)),
{
    let la = crate::ansi::line::byte_len(&a.canonical);
    let lb = crate::ansi::line::byte_len(&b.canonical);
    if la != lb {
        return la > lb;
    }
    let ca = chars_of(&a.canonical);
    let cb = chars_of(&b.canonical);
    if seq_less_exec(ca.as_slice(), cb.as_slice()) {
        return true;
    }
    if !chars_eq(ca.as_slice(), cb.as_slice()) {
        return false;
    }
    a.family < b.family || (a.family == b.family && a.rank < b.rank)
}

fn melee_before_exec(a: &CatalogEntry, b: &CatalogEntry, last: Option<usize>) -> (r: bool)
    ensures
        r == melee_before(entry_view(*a), entry_view(*b), last),
{
    let la = crate::ansi::line::byte_len(&a.canonical);
    let lb = crate::ansi::line::byte_len(&b.canonical);
    if la != lb {
        return la > lb;
    }
    let ra = match last {
        Some(f) => f == a.family,
        None => false,
    };
    let rb = match last {
        Some(f) => f == b.family,
        None => false,
    };
    if ra != rb {
        return ra;
    }
    catalog_before_exec(a, b)
}

/// The third-person incoming line for a verb: `<source> <verb>s you.`.
pub fn format_incoming_line(source: &str, canonical_verb: &str) -> (r: String)
    ensures
        r@ == source@ + " "@ + conjugate_verb_spec(canonical_verb@) + " you."@,
{
    let mut out = chars_of(source);
    crate::text::push_str_chars(&mut out, " ");
    let conj = conjugate_verb(canonical_verb);
    crate::text::push_str_chars(&mut out, &conj);
    crate::text::push_str_chars(&mut out, " you.");
    string_of(out.as_slice())
}

/// The incoming line with the verb as the catalog writes it: `<source> <verb> you.`.
pub fn format_incoming_line_bare(source: &str, canonical_verb: &str) -> (r: String)
    ensures
        r@ == source@ + " "@ + canonical_verb@ + " you."@,
{
    let mut out = chars_of(source);
    crate::text::push_str_chars(&mut out, " ");
    crate::text::push_str_chars(&mut out, canonical_verb);
    crate::text::push_str_chars(&mut out, " you.");
    string_of(out.as_slice())
}

proof fn lemma_melee_before_trans(a: EntryView, b: EntryView, c: EntryView, last: Option<usize>)
    requires
        melee_before(a, b, last),
        melee_before(b, c, last),
    ensures
        melee_before(a, c, last),
{
    if seq_less(a.canonical, b.canonical) && seq_less(b.canonical, c.canonical) {
        lemma_seq_less_trans(a.canonical, b.canonical, c.canonical);
    }
    lemma_seq_less_irrefl(a.canonical);
    lemma_seq_less_irrefl(b.canonical);
}

proof fn lemma_catalog_before_trans(a: EntryView, b: EntryView, c: EntryView)
    requires
        catalog_before(a, b),
        catalog_before(b, c),
    ensures
        catalog_before(a, c),
{
    if seq_less(a.canonical, b.canonical) && seq_less(b.canonical, c.canonical) {
        lemma_seq_less_trans(a.canonical, b.canonical, c.canonical);
    }
    lemma_seq_less_irrefl(a.canonical);
    lemma_seq_less_irrefl(b.canonical);
}

/// `t` without its trailing full stops.
pub open spec fn trim_dots(t: Seq<char>) -> Seq<char>
    decreases t.len(),
{
    if t.len() > 0 && t.last() == '.' {
        trim_dots(t.drop_last())
    } else {
        t
    }
}

/// The target of an outgoing line's remainder after `You ` for a verb form:
/// the form, a space, then a target ending in a full stop (stops trimmed).
pub open spec fn form_target(rest: Seq<char>, form: Seq<char>) -> Option<Seq<char>> {
    let p = form + " "@;
    if is_prefix(p, rest) {
        let t = rest.skip(p.len() as int);
        if t.len() > 0 && t.last() == '.' {
            Some(trim_dots(t))
        } else {
            None
        }
    } else {
        None
    }
}

/// The target for a catalog entry: by the verb as written, else by its conjugated form.
pub open spec fn sanity_target(rest: Seq<char>, e: EntryView) -> Option<Seq<char>> {
    match form_target(rest, e.canonical) {
        Some(t) => Some(t),
        None => form_target(rest, conjugate_verb_spec(e.canonical)),
    }
}

/// Whether entry `i` is the outgoing match: it matches, and no matching entry
/// comes before it in the catalog's order.
pub open spec fn is_sanity_choice(es: Seq<EntryView>, rest: Seq<char>, i: int) -> bool {
    &&& 0 <= i < es.len()
    &&& sanity_target(rest, es[i]) is Some
    &&& forall|j: int|
        0 <= j < es.len() && j != i && sanity_target(rest, #[trigger] es[j]) is Some ==> !catalog_before(
            es[j],
            es[i],
        )
}

fn trim_dots_exec(t: &[char]) -> (r: Vec<char>)
    ensures
        r@ == trim_dots(t@),
{
    let mut k = t.len();
    assert(t@.take(k as int) =~= t@);
    while k > 0 && t[k - 1] == '.'
        invariant
            k <= t@.len(),
            trim_dots(t@) == trim_dots(t@.take(k as int)),
        decreases k,
    {
        assert(t@.take(k as int).drop_last() =~= t@.take(k - 1));
        k = k - 1;
    }
    let r = sub_chars(t, 0, k);
    assert(r@ =~= t@.take(k as int));
    r
}

fn form_target_exec(rest: &[char], form: &[char]) -> (r: Option<Vec<char>>)
    ensures
        match form_target(rest@, form@) {
            Some(t) => r matches Some(v) && v@ == t,
            None => r is None,
        },
{
    let mut p: Vec<char> = Vec::new();
    push_all(&mut p, form);
    crate::text::push_str_chars(&mut p, " ");
    if !starts_with_chars(rest, p.as_slice()) {
        return None;
    }
    let t = sub_chars(rest, p.len(), rest.len());
    assert(t@ =~= rest@.skip(p@.len() as int));
    if t.len() > 0 && t[t.len() - 1] == '.' {
        Some(trim_dots_exec(t.as_slice()))
    } else {
        None
    }
}

fn sanity_target_exec(rest: &[char], e: &CatalogEntry) -> (r: Option<Vec<char>>)
    ensures
        match sanity_target(rest@, entry_view(*e)) {
            Some(t) => r matches Some(v) && v@ == t,
            None => r is None,
        },
{
    let canon = chars_of(&e.canonical);
    match form_target_exec(rest, canon.as_slice()) {
        Some(t) => Some(t),
        None => {
            let conj = conjugate_verb(&e.canonical);
            let cc = chars_of(&conj);
            form_target_exec(rest, cc.as_slice())
        },
    }
}

impl Matcher {
    pub closed spec fn last_family_spec(&self) -> Option<usize> {
        self.last_family
    }

    pub closed spec fn entries_spec(&self) -> Seq<EntryView> {
        self.catalog.entries_spec()
    }

    /// A matcher over a catalog, remembering no family yet.
    pub fn new(catalog: Catalog) -> (r: Self)
        ensures
            r.last_family_spec() is None,
            r.entries_spec() == catalog.entries_spec(),
    {
        Matcher { last_family: None, catalog }
    }

    /// The family of the last melee hit.
    pub fn last_family(&self) -> (r: Option<usize>)
        ensures
            r == self.last_family_spec(),
    {
        self.last_family
    }

    /// Forgets the last family.
    pub fn reset(&mut self)
        ensures
            final(self).last_family_spec() is None,
            final(self).entries_spec() == old(self).entries_spec(),
    {
        self.last_family = None;
    }

    /// The melee hit a line reports: among the catalog verbs whose incoming
    /// ending the line has, the longest, preferring the last hit's family; the
    /// family of the verb is remembered.
    pub fn match_melee_for_test(&mut self, line: &str) -> (r: Option<DamageCandidate>)
        ensures
            final(self).entries_spec() == old(self).entries_spec(),
            ({
                let es = old(self).entries_spec();
                let last = old(self).last_family_spec();
                if !ends_with_you(line@) || no_melee_match(es, line@) {
                    r is None && final(self).last_family_spec() == last
                } else {
                    exists|i: int|
                        is_melee_choice(es, last, line@, i) && final(self).last_family_spec() == Some(
                            es[i].family as usize,
                        ) && (r matches Some(c) && candidate_view(c) == (CandidateView {
                            category: DamageCategory::Melee,
                            source_name: entry_source(line@, es[i])->0,
                            message_verb: es[i].canonical,
                            message_text: line@,
                        }))
                }
            }),
    {
        self.match_melee(line)
    }

    fn match_melee(&mut self, line: &str) -> (r: Option<DamageCandidate>)
        ensures
            final(self).entries_spec() == old(self).entries_spec(),
            ({
                let es = old(self).entries_spec();
                let last = old(self).last_family_spec();
                if !ends_with_you(line@) || no_melee_match(es, line@) {
                    r is None && final(self).last_family_spec() == last
                } else {
                    exists|i: int|
                        is_melee_choice(es, last, line@, i) && final(self).last_family_spec() == Some(
                            es[i].family as usize,
                        ) && (r matches Some(c) && candidate_view(c) == (CandidateView {
                            category: DamageCategory::Melee,
                            source_name: entry_source(line@, es[i])->0,
                            message_verb: es[i].canonical,
                            message_text: line@,
                        }))
                }
            }),
    {
        let chars = chars_of(line);
        let t = crate::text::trim_end_chars(chars.as_slice());
        let tl = lower_chars(t.as_slice());
        let you = lit(" you.");
        if !ends_with_chars(tl.as_slice(), you.as_slice()) {
            return None;
        }
        let entries = self.catalog.entries();
        let ghost es = entries_view(entries@);
        let last = self.last_family;
        let mut best: Option<(usize, Vec<char>)> = None;
        let mut k: usize = 0;
        while k < entries.len()
            invariant
                k <= entries@.len(),
                es == entries_view(entries@),
                chars@ == line@,
                match best {
                    Some((b, src)) => {
                        &&& b < k
                        &&& entry_source(line@, es[b as int]) == Some(src@)
                        &&& forall|j: int|
                            0 <= j < k && j != b && entry_source(line@, #[trigger] es[j]) is Some
                                ==> !melee_before(es[j], es[b as int], last)
                    },
                    None => forall|j: int|
                        0 <= j < k ==> entry_source(line@, #[trigger] es[j]) is None,
                },
            decreases entries.len() - k,
        {
            let found = entry_source_exec(chars.as_slice(), &entries[k]);
            assert(entry_view(entries@[k as int]) == es[k as int]);
            match found {
                Some(src) => {
                    let replace = match &best {
                        Some((b, _)) => melee_before_exec(&entries[k], &entries[*b], last),
                        None => true,
                    };
                    if replace {
                        proof {
                            if let Some((b, _)) = best {
                                assert(entry_view(entries@[b as int]) == es[b as int]);
                                assert forall|j: int|
                                    0 <= j < k + 1 && j != k && entry_source(
                                        line@,
                                        #[trigger] es[j],
                                    ) is Some implies !melee_before(es[j], es[k as int], last) by {
                                    if j != b && melee_before(es[j], es[k as int], last) {
                                        lemma_melee_before_trans(
                                            es[j],
                                            es[k as int],
                                            es[b as int],
                                            last,
                                        );
                                    }
                                    if j == b && melee_before(es[j], es[k as int], last) {
                                        lemma_melee_before_trans(
                                            es[k as int],
                                            es[b as int],
                                            es[k as int],
                                            last,
                                        );
                                        lemma_seq_less_irrefl(es[k as int].canonical);
                                    }
                                }
                            }
                        }
                        best = Some((k, src));
                    } else {
                        proof {
                            let b = best->0;
                            let b = b.0;
                            assert(entry_view(entries@[b as int]) == es[b as int]);
                        }
                    }
                },
                None => {},
            }
            k = k + 1;
        }
        match best {
            Some((b, src)) => {
                let e = &entries[b];
                assert(entry_view(entries@[b as int]) == es[b as int]);
                assert(is_melee_choice(es, last, line@, b as int));
                assert(!no_melee_match(es, line@));
                assert(you@ == " you."@);
                self.last_family = Some(e.family);
                Some(
                    DamageCandidate {
                        category: DamageCategory::Melee,
                        source_name: string_of(src.as_slice()),
                        message_verb: e.canonical.clone(),
                        message_text: string_of(chars.as_slice()),
                    },
                )
            },
            None => None,
        }
    }

    /// The hit a line reports: a skill line first, then a spell, then a melee verb.
    pub fn match_incoming(&mut self, line: &str) -> (r: Option<DamageCandidate>)
        ensures
            final(self).entries_spec() == old(self).entries_spec(),
            incoming_match(
                old(self).entries_spec(),
                old(self).last_family_spec(),
                line@,
                opt_candidate_view(r),
                final(self).last_family_spec(),
            ),
    {
        if let Some(c) = match_skill(line) {
            return Some(c);
        }
        if let Some(c) = match_spell(line) {
            return Some(c);
        }
        self.match_melee(line)
    }

    /// An outgoing hit `You <verb> <target>.`: the verb as the catalog writes
    /// it and the target, for the first catalog verb (longest first) whose
    /// written or conjugated form the line uses.
    pub fn match_outgoing_sanity(&self, line: &str) -> (r: Option<(String, String)>)
        ensures
            ({
                let es = self.entries_spec();
                if !is_prefix("You "@, line@) {
                    r is None
                } else {
                    let rest = line@.skip(4);
                    if forall|j: int| 0 <= j < es.len() ==> sanity_target(rest, #[trigger] es[j]) is None {
                        r is None
                    } else {
                        exists|i: int|
                            is_sanity_choice(es, rest, i) && (r matches Some((v, t)) && v@
                                == es[i].canonical && t@ == sanity_target(rest, es[i])->0)
                    }
                }
            }),
    {
        let chars = chars_of(line);
        let you = lit("You ");
        proof {
            reveal_strlit("You ");
        }
        if !starts_with_chars(chars.as_slice(), you.as_slice()) {
            return None;
        }
        let rest = sub_chars(chars.as_slice(), 4, chars.len());
        assert(rest@ =~= line@.skip(4));
        let entries = self.catalog.entries();
        let ghost es = entries_view(entries@);
        let mut best: Option<(usize, Vec<char>)> = None;
        let mut k: usize = 0;
        while k < entries.len()
            invariant
                k <= entries@.len(),
                es == entries_view(entries@),
                rest@ == line@.skip(4),
                match best {
                    Some((b, tgt)) => {
                        &&& b < k
                        &&& sanity_target(rest@, es[b as int]) == Some(tgt@)
                        &&& forall|j: int|
                            0 <= j < k && j != b && sanity_target(rest@, #[trigger] es[j]) is Some
                                ==> !catalog_before(es[j], es[b as int])
                    },
                    None => forall|j: int|
                        0 <= j < k ==> sanity_target(rest@, #[trigger] es[j]) is None,
                },
            decreases entries.len() - k,
        {
            let found = sanity_target_exec(rest.as_slice(), &entries[k]);
            assert(entry_view(entries@[k as int]) == es[k as int]);
            match found {
                Some(tgt) => {
                    let replace = match &best {
                        Some((b, _)) => catalog_before_exec(&entries[k], &entries[*b]),
                        None => true,
                    };
                    if replace {
                        proof {
                            if let Some((b, _)) = best {
                                assert(entry_view(entries@[b as int]) == es[b as int]);
                                assert forall|j: int|
                                    0 <= j < k + 1 && j != k && sanity_target(
                                        rest@,
                                        #[trigger] es[j],
                                    ) is Some implies !catalog_before(es[j], es[k as int]) by {
                                    if j != b && catalog_before(es[j], es[k as int]) {
                                        lemma_catalog_before_trans(es[j], es[k as int], es[b as int]);
                                    }
                                    if j == b && catalog_before(es[j], es[k as int]) {
                                        lemma_catalog_before_trans(
                                            es[k as int],
                                            es[b as int],
                                            es[k as int],
                                        );
                                        lemma_seq_less_irrefl(es[k as int].canonical);
                                    }
                                }
                            }
                        }
                        best = Some((k, tgt));
                    } else {
                        proof {
                            let b = best->0;
                            let b = b.0;
                            assert(entry_view(entries@[b as int]) == es[b as int]);
                        }
                    }
                },
                None => {},
            }
            k = k + 1;
        }
        match best {
            Some((b, tgt)) => {
                assert(entry_view(entries@[b as int]) == es[b as int]);
                assert(is_sanity_choice(es, rest@, b as int));
                Some((entries[b].canonical.clone(), string_of(tgt.as_slice())))
            },
            None => None,
        }
    }
}

} // verus!
