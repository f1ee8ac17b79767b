//! Canonical `use` / `cast` command lines and client send wrapping.
//!
//! Logical lines omit the leading `@`; [`client_send_line`] adds at most one `@`
//! for the whole line.
use crate::command::Data;
use crate::text::{trim_seq, chars_of, string_of, push_all, push_str_chars, trim_chars};
use vstd::prelude::*;

verus! {

/// The send line for a logical line: empty stays empty, a line that already
/// starts with `@` is kept, anything else gets one `@` in front.
pub open spec fn client_send_seq(s: Seq<char>) -> Seq<char> {
    if s.len() == 0 {
        s
    } else if s[0] == '@' {
        s
    } else {
        seq!['@'] + s
    }
}

/// `use '<skill>'`, or `target <t>;use '<skill>' <t>` with `t` the trimmed target.
pub open spec fn targeted_seq(verb: Seq<char>, name: Seq<char>, target_args: Seq<char>) -> Seq<char> {
    let t = trim_seq(target_args);
    if t.len() == 0 {
        verb + " '"@ + name + "'"@
    } else {
        "target "@ + t + ";"@ + verb + " '"@ + name + "' "@ + t
    }
}

/// `cast '<spell>'` followed by the trimmed suffix, when there is one.
pub open spec fn cast_with_suffix_seq(spell: Seq<char>, suffix: Seq<char>) -> Seq<char> {
    let t = trim_seq(suffix);
    if t.len() == 0 {
        "cast '"@ + spell + "'"@
    } else {
        "cast '"@ + spell + "' "@ + t
    }
}

/// The parts joined with `sep` between neighbours.
pub open spec fn join_seq(parts: Seq<Seq<char>>, sep: Seq<char>) -> Seq<char>
    decreases parts.len(),
{
    if parts.len() == 0 {
        Seq::empty()
    } else if parts.len() == 1 {
        parts[0]
    } else {
        join_seq(parts.drop_last(), sep) + sep + parts.last()
    }
}

/// Add the client send prefix when the logical line does not already have one.
pub fn client_send_line(logical_line: &str) -> (r: String)
    ensures
        r@ == client_send_seq(logical_line@),
{
    let v = chars_of(logical_line);
    if v.len() == 0 {
        return string_of(v.as_slice());
    }
    if v[0] == '@' {
        string_of(v.as_slice())
    } else {
        let mut out: Vec<char> = Vec::new();
        out.push('@');
        push_all(&mut out, v.as_slice());
        assert(out@ =~= seq!['@'] + v@);
        string_of(out.as_slice())
    }
}

fn targeted(verb: &str, name: &str, target_args: &str) -> (r: String)
    ensures
        r@ == targeted_seq(verb@, name@, target_args@),
{
    let args = chars_of(target_args);
    let t = trim_chars(args.as_slice());
    let mut out: Vec<char> = Vec::new();
    if t.len() == 0 {
        push_str_chars(&mut out, verb);
        push_str_chars(&mut out, " '");
        push_str_chars(&mut out, name);
        push_str_chars(&mut out, "'");
    } else {
        push_str_chars(&mut out, "target ");
        push_all(&mut out, t.as_slice());
        push_str_chars(&mut out, ";");
        push_str_chars(&mut out, verb);
        push_str_chars(&mut out, " '");
        push_str_chars(&mut out, name);
        push_str_chars(&mut out, "' ");
        push_all(&mut out, t.as_slice());
    }
    string_of(out.as_slice())
}

/// `use '<skill>'`, or `target <t>;use '<skill>' <t>` when `target_args` is non-empty.
pub fn targeted_use(skill: &str, target_args: &str) -> (r: String)
    ensures
        r@ == targeted_seq("use"@, skill@, target_args@),
{
    targeted("use", skill, target_args)
}

/// `cast '<spell>'`, or `target <t>;cast '<spell>' <t>` when `target_args` is non-empty.
pub fn targeted_cast(spell: &str, target_args: &str) -> (r: String)
    ensures
        r@ == targeted_seq("cast"@, spell@, target_args@),
{
    targeted("cast", spell, target_args)
}

/// Cast with an extra tail after the quoted name (`cast 'spark birth' troll`).
pub fn cast_quoted_with_suffix(spell: &str, suffix: &str) -> (r: String)
    ensures
        r@ == client_send_seq(cast_with_suffix_seq(spell@, suffix@)),
{
    let sv = chars_of(suffix);
    let t = trim_chars(sv.as_slice());
    let mut out: Vec<char> = Vec::new();
    push_str_chars(&mut out, "cast '");
    push_str_chars(&mut out, spell);
    if t.len() == 0 {
        push_str_chars(&mut out, "'");
    } else {
        push_str_chars(&mut out, "' ");
        push_all(&mut out, t.as_slice());
    }
    let logical = string_of(out.as_slice());
    client_send_line(logical.as_str())
}

/// `@use '<skill>'` aimed at the command's arguments.
pub fn use_skill(skill_name: &str, data: &Data) -> (r: String)
    ensures
        r@ == client_send_seq(targeted_seq("use"@, skill_name@, data.args@)),
{
    let line = targeted_use(skill_name, data.args.as_str());
    client_send_line(line.as_str())
}

/// `@cast '<spell>'` aimed at the command's arguments.
pub fn cast_spell(spell_name: &str, data: &Data) -> (r: String)
    ensures
        r@ == client_send_seq(targeted_seq("cast"@, spell_name@, data.args@)),
{
    let line = targeted_cast(spell_name, data.args.as_str());
    client_send_line(line.as_str())
}

/// Join logical fragments with `;`, then add a single client prefix.
pub fn compound_send(parts: &[&str]) -> (r: String)
    ensures
        r@ == client_send_seq(join_seq(parts@.map_values(|p: &str| p@), ";"@)),
{
    let ghost views = parts@.map_values(|p: &str| p@);
    let mut out: Vec<char> = Vec::new();
    let mut i: usize = 0;
    while i < parts.len()
        invariant
            i <= parts@.len(),
            views == parts@.map_values(|p: &str| p@),
            out@ == join_seq(views.take(i as int), ";"@),
        decreases parts.len() - i,
    {
        assert(views.take(i + 1).drop_last() =~= views.take(i as int));
        if i > 0 {
            push_str_chars(&mut out, ";");
        }
        push_str_chars(&mut out, parts[i]);
        i = i + 1;
    }
    assert(views.take(parts@.len() as int) =~= views);
    let logical = string_of(out.as_slice());
    client_send_line(logical.as_str())
}

/// `@repeat inf cast heal self` (Civmage / Mage / Psionicist `chf`).
pub fn repeat_inf_cast_heal_self() -> (r: String)
    ensures
        r@ == client_send_seq("repeat inf cast heal self"@),
{
    client_send_line("repeat inf cast heal self")
}

/// `@cast floating disc`
pub fn send_cast_floating_disc() -> (r: String)
    ensures
        r@ == client_send_seq("cast floating disc"@),
{
    client_send_line("cast floating disc")
}

/// `@get all from my disc`
pub fn send_get_all_from_disc() -> (r: String)
    ensures
        r@ == client_send_seq("get all from my disc"@),
{
    client_send_line("get all from my disc")
}

/// `@get all armour from my disc`
pub fn send_get_all_armour_from_disc() -> (r: String)
    ensures
        r@ == client_send_seq("get all armour from my disc"@),
{
    client_send_line("get all armour from my disc")
}

/// `@get all weapon from my disc`
pub fn send_get_all_weapon_from_disc() -> (r: String)
    ensures
        r@ == client_send_seq("get all weapon from my disc"@),
{
    client_send_line("get all weapon from my disc")
}

/// `@put noeq in my disc`
pub fn send_put_noeq_in_disc() -> (r: String)
    ensures
        r@ == client_send_seq("put noeq in my disc"@),
{
    client_send_line("put noeq in my disc")
}

/// Sending is idempotent: wrapping an already wrapped line changes nothing.
pub proof fn law_client_send_idempotent(s: Seq<char>)
    ensures
        client_send_seq(client_send_seq(s)) == client_send_seq(s),
{
}

/// A non-empty send line starts with exactly the one `@` the client adds.
pub proof fn law_client_send_prefixed(s: Seq<char>)
    requires
        s.len() > 0,
    ensures
        client_send_seq(s).len() > 0,
        client_send_seq(s)[0] == '@',
{
}

} // verus!
