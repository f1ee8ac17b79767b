//! The catalog of melee hit verbs, read from the hit-messages document: one
//! section per weapon family, one numbered line per verb, mildest first.
use crate::ansi::sgr::split_on;
use crate::combat_damage::conjugate::{conjugate_verb, conjugate_verb_spec};
use crate::text::{
    chars_of, find_chars, first_occurrence, parse_unsigned, parse_unsigned_chars, push_all,
    string_of, sub_chars, trim_chars, trim_seq,
};
use vstd::prelude::*;

verus! {

/// A line without one trailing carriage return.
pub open spec fn strip_cr(l: Seq<char>) -> Seq<char> {
    if l.len() > 0 && l.last() == '\r' {
        l.drop_last()
    } else {
        l
    }
}

/// The lines of `s` (`str::lines`): split at newlines, without a final empty line,
/// each without a trailing carriage return.
pub open spec fn lines_of(s: Seq<char>) -> Seq<Seq<char>> {
    if s.len() == 0 {
        seq![]
    } else {
        let p = split_on(s, '\n');
        let q = if s.last() == '\n' {
            p.drop_last()
        } else {
            p
        };
        q.map_values(|l: Seq<char>| strip_cr(l))
    }
}

proof fn lemma_split_nonempty(s: Seq<char>, sep: char)
    ensures
        split_on(s, sep).len() >= 1,
    decreases s.len(),
{
    if s.len() > 0 {
        lemma_split_nonempty(s.drop_last(), sep);
    }
}

pub open spec fn lines_view(v: Seq<Vec<char>>) -> Seq<Seq<char>> {
    v.map_values(|l: Vec<char>| l@)
}

fn strip_cr_exec(l: Vec<char>) -> (r: Vec<char>)
    ensures
        r@ == strip_cr(l@),
{
    let mut l = l;
    if l.len() > 0 && l[l.len() - 1] == '\r' {
        l.pop();
    }
    l
}

/// The lines of `s`.
pub fn split_lines(s: &[char]) -> (r: Vec<Vec<char>>)
    ensures
        lines_view(r@) == lines_of(s@),
{
    if s.len() == 0 {
        let r: Vec<Vec<char>> = Vec::new();
        assert(lines_view(r@) =~= lines_of(s@));
        return r;
    }
    let mut pieces: Vec<Vec<char>> = Vec::new();
    let mut cur: Vec<char> = Vec::new();
    let mut k: usize = 0;
    proof {
        assert(s@.take(0) =~= Seq::<char>::empty());
        assert(lines_view(pieces@) =~= split_on(s@.take(0), '\n').drop_last());
    }
    while k < s.len()
        invariant
            k <= s@.len(),
            split_on(s@.take(k as int), '\n').len() >= 1,
            lines_view(pieces@) == split_on(s@.take(k as int), '\n').drop_last(),
            cur@ == split_on(s@.take(k as int), '\n').last(),
        decreases s.len() - k,
    {
        let c = s[k];
        let ghost before = s@.take(k as int);
        let ghost after = s@.take(k + 1);
        proof {
            assert(after.drop_last() =~= before);
            assert(after.last() == c);
            lemma_split_nonempty(after, '\n');
        }
        if c == '\n' {
            let ghost p = split_on(before, '\n');
            let ghost old_pieces = pieces@;
            let mut done: Vec<char> = Vec::new();
            std::mem::swap(&mut done, &mut cur);
            let ghost dv = done@;
            pieces.push(done);
            proof {
                assert(lines_view(pieces@) =~= lines_view(old_pieces).push(dv));
                assert(p =~= p.drop_last().push(p.last()));
                assert(lines_view(pieces@) =~= p);
                assert(split_on(after, '\n').drop_last() =~= p);
            }
        } else {
            cur.push(c);
            proof {
                let p = split_on(before, '\n');
                assert(split_on(after, '\n').drop_last() =~= p.drop_last());
            }
        }
        k = k + 1;
    }
    proof {
        assert(s@.take(s@.len() as int) =~= s@);
        lemma_split_nonempty(s@, '\n');
    }
    let ghost all = split_on(s@, '\n');
    if s[s.len() - 1] != '\n' {
        let ghost old_pieces = pieces@;
        let ghost cv = cur@;
        pieces.push(cur);
        proof {
            assert(lines_view(pieces@) =~= lines_view(old_pieces).push(cv));
            assert(all =~= all.drop_last().push(all.last()));
            assert(lines_view(pieces@) =~= all);
        }
    }
    let ghost q = lines_view(pieces@);
    let mut out: Vec<Vec<char>> = Vec::new();
    let mut i: usize = 0;
    while i < pieces.len()
        invariant
            i <= pieces@.len(),
            q == lines_view(pieces@),
            lines_view(out@) == q.take(i as int).map_values(|l: Seq<char>| strip_cr(l)),
        decreases pieces.len() - i,
    {
        let piece = sub_chars(pieces[i].as_slice(), 0, pieces[i].len());
        assert(piece@ =~= q[i as int]);
        let ghost old_out = out@;
        let stripped = strip_cr_exec(piece);
        let ghost sv = stripped@;
        out.push(stripped);
        proof {
            assert(lines_view(out@) =~= lines_view(old_out).push(sv));
            assert(lines_view(out@) =~= q.take(i + 1).map_values(|l: Seq<char>| strip_cr(l)));
        }
        i = i + 1;
    }
    proof {
        assert(q.take(q.len() as int) =~= q);
        assert(lines_view(out@) =~= lines_of(s@));
    }
    out
}

/// Index of the last `c` in `s`.
pub open spec fn last_index_of(s: Seq<char>, c: char) -> Option<int>
    decreases s.len(),
{
    if s.len() == 0 {
        None
    } else if s.last() == c {
        Some(s.len() - 1)
    } else {
        last_index_of(s.drop_last(), c)
    }
}

pub fn last_index_exec(s: &[char], c: char) -> (r: Option<usize>)
    ensures
        match last_index_of(s@, c) {
            Some(i) => r == Some(i as usize) && 0 <= i < s@.len(),
            None => r is None,
        },
        r matches Some(i) ==> last_index_of(s@, c) == Some(i as int) && i < s@.len(),
        r is None ==> last_index_of(s@, c) is None,
{
    let mut k: usize = s.len();
    assert(s@.take(k as int) =~= s@);
    while k > 0
        invariant
            k <= s@.len(),
            last_index_of(s@, c) == last_index_of(s@.take(k as int), c),
        decreases k,
    {
        let ghost t = s@.take(k as int);
        assert(t.drop_last() =~= s@.take(k - 1));
        if s[k - 1] == c {
            return Some(k - 1);
        }
        k = k - 1;
    }
    None
}

/// Unicode upper-casing of one character, as `char::to_uppercase` yields it.
pub uninterp spec fn char_uppercase(c: char) -> Seq<char>;

/// `char::to_uppercase`, collected into a string.
#[verifier::external_body]
fn upper_char(c: char) -> (r: String)
    ensures
        r@ == char_uppercase(c),
{
    c.to_uppercase().collect()
}

/// The title with its first character in upper case.
pub open spec fn capitalize_spec(t: Seq<char>) -> Seq<char> {
    if t.len() == 0 {
        seq![]
    } else {
        char_uppercase(t[0]) + t.drop_first()
    }
}

fn capitalize_title(t: &[char]) -> (r: Vec<char>)
    ensures
        r@ == capitalize_spec(t@),
{
    if t.len() == 0 {
        return Vec::new();
    }
    let first = upper_char(t[0]);
    let mut out = chars_of(&first);
    let rest = sub_chars(t, 1, t.len());
    push_all(&mut out, rest.as_slice());
    assert(rest@ =~= t@.drop_first());
    out
}

/// Where the title of a header starts: after the first ` for `.
pub open spec fn title_start(t: Seq<char>) -> Option<int> {
    match first_occurrence(t, " for "@) {
        Some(f) => Some(f + 5),
        None => None,
    }
}

/// A header line `# ... for <title> (<id>)`, read as title and family id: it
/// starts with `#` (after trimming), its id lies in the last brackets, and its
/// title runs from the first ` for ` to the last `(`.
#[verifier::opaque]
pub open spec fn header_of(line: Seq<char>) -> Option<(Seq<char>, Seq<char>)> {
    let t = trim_seq(line);
    if !(t.len() > 0 && t[0] == '#') {
        None
    } else {
        match (last_index_of(t, '('), last_index_of(t, ')')) {
            (Some(open), Some(close)) => if close <= open {
                None
            } else {
                match title_start(t) {
                    Some(ts) => Some(
                        (
                            capitalize_spec(trim_seq(t.subrange(ts, open))),
                            trim_seq(t.subrange(open + 1, close)),
                        ),
                    ),
                    None => None,
                }
            },
            _ => None,
        }
    }
}

/// A header line whose ` for ` comes after its last `(`, which the reader cannot slice.
pub open spec fn header_is_malformed(line: Seq<char>) -> bool {
    let t = trim_seq(line);
    &&& t.len() > 0 && t[0] == '#'
    &&& last_index_of(t, '(') is Some
    &&& last_index_of(t, ')') is Some
    &&& last_index_of(t, ')')->0 > last_index_of(t, '(')->0
    &&& title_start(t) is Some
    &&& title_start(t)->0 > last_index_of(t, '(')->0
}

#[verifier::rlimit(40)]
fn parse_family_header(line: &[char]) -> (r: Option<(Vec<char>, Vec<char>)>)
    requires
        !header_is_malformed(line@),
    ensures
        match header_of(line@) {
            Some((title, id)) => r matches Some((rt, ri)) && rt@ == title && ri@ == id,
            None => r is None,
        },
{
    reveal(header_of);
    let t = trim_chars(line);
    if !(t.len() > 0 && t[0] == '#') {
        return None;
    }
    let open = match last_index_exec(t.as_slice(), '(') {
        Some(o) => o,
        None => {
            return None;
        },
    };
    let close = match last_index_exec(t.as_slice(), ')') {
        Some(c) => c,
        None => {
            return None;
        },
    };
    if close <= open {
        return None;
    }
    let id_raw = sub_chars(t.as_slice(), open + 1, close);
    let id = trim_chars(id_raw.as_slice());
    let marker = chars_of(" for ");
    let f = match find_chars(t.as_slice(), marker.as_slice()) {
        Some(f) => f,
        None => {
            return None;
        },
    };
    let ts = f + 5;
    assert(ts <= open);
    let title_raw = sub_chars(t.as_slice(), ts, open);
    let title_trimmed = trim_chars(title_raw.as_slice());
    let title = capitalize_title(title_trimmed.as_slice());
    Some((title, id))
}

/// A verb line `<number>: <verb>`, read as its verb: the part before the first
/// colon reads as a `u32` once trimmed, and the trimmed verb is not empty.
#[verifier::opaque]
pub open spec fn verb_of(line: Seq<char>) -> Option<Seq<char>> {
    let t = trim_seq(line);
    match first_index_from(t, ':', 0) {
        Some(i) => {
            let v = trim_seq(t.skip(i + 1));
            if parse_unsigned(trim_seq(t.take(i)), 0xffff_ffff) is Some && v.len() > 0 {
                Some(v)
            } else {
                None
            }
        },
        None => None,
    }
}

/// Index of the first `c` in `s` at or after `k`.
pub open spec fn first_index_from(s: Seq<char>, c: char, k: int) -> Option<int>
    decreases s.len() - k,
{
    if k < 0 || k >= s.len() {
        None
    } else if s[k] == c {
        Some(k)
    } else {
        first_index_from(s, c, k + 1)
    }
}

pub fn first_index_exec(s: &[char], c: char) -> (r: Option<usize>)
    ensures
        match first_index_from(s@, c, 0) {
            Some(i) => r == Some(i as usize) && 0 <= i < s@.len(),
            None => r is None,
        },
        r matches Some(i) ==> first_index_from(s@, c, 0) == Some(i as int) && i < s@.len(),
        r is None ==> first_index_from(s@, c, 0) is None,
{
    let mut k: usize = 0;
    while k < s.len()
        invariant
            k <= s@.len(),
            first_index_from(s@, c, 0) == first_index_from(s@, c, k as int),
            forall|j: int| 0 <= j < k ==> s@[j] != c,
        decreases s.len() - k,
    {
        if s[k] == c {
            return Some(k);
        }
        k = k + 1;
    }
    None
}

/// The parts of `t` before and after its first colon.
fn split_at_colon(t: &[char]) -> (r: Option<(Vec<char>, Vec<char>)>)
    ensures
        match first_index_from(t@, ':', 0) {
            Some(i) => r matches Some((a, b)) && a@ == t@.take(i) && b@ == t@.skip(i + 1),
            None => r is None,
        },
{
    match first_index_exec(t, ':') {
        Some(i) => {
            assert(t@.len() == t.len());
            let num = sub_chars(t, 0, i);
            let verb = sub_chars(t, i + 1, t.len());
            assert(num@ =~= t@.take(i as int));
            assert(verb@ =~= t@.skip(i + 1));
            Some((num, verb))
        },
        None => None,
    }
}

fn parse_verb_line(line: &[char]) -> (r: Option<Vec<char>>)
    ensures
        match verb_of(line@) {
            Some(v) => r matches Some(rv) && rv@ == v,
            None => r is None,
        },
{
    reveal(verb_of);
    let t = trim_chars(line);
    let (num, verb) = match split_at_colon(t.as_slice()) {
        Some(p) => p,
        None => {
            return None;
        },
    };
    let num_t = trim_chars(num.as_slice());
    let v = trim_chars(verb.as_slice());
    if parse_unsigned_chars(num_t.as_slice(), 0xffff_ffff).is_none() {
        return None;
    }
    if v.len() == 0 {
        return None;
    }
    Some(v)
}

/// A weapon family of the document: its id, its title and its verbs, mildest first.
pub struct Family {
    pub id: String,
    pub title: String,
    pub verbs: Vec<String>,
}

pub struct FamilyView {
    pub id: Seq<char>,
    pub title: Seq<char>,
    pub verbs: Seq<Seq<char>>,
}

pub open spec fn family_view(f: Family) -> FamilyView {
    FamilyView { id: f.id@, title: f.title@, verbs: crate::ansi::segment::strings_view(f.verbs@) }
}

pub open spec fn families_view(v: Seq<Family>) -> Seq<FamilyView> {
    v.map_values(|f: Family| family_view(f))
}

/// The families read so far and the one being read.
pub struct ReadState {
    pub families: Seq<FamilyView>,
    pub current: Option<FamilyView>,
}

/// The finished families: those read, then the one being read.
pub open spec fn finished(st: ReadState) -> Seq<FamilyView> {
    match st.current {
        Some(f) => st.families.push(f),
        None => st.families,
    }
}

/// One line of the document: a header closes the family being read and opens
/// a new one; a verb line adds a verb to the open family; other lines are ignored.
pub open spec fn read_step(st: ReadState, line: Seq<char>) -> ReadState {
    match header_of(line) {
        Some((title, id)) => ReadState {
            families: finished(st),
            current: Some(FamilyView { id, title, verbs: seq![] }),
        },
        None => match (verb_of(line), st.current) {
            (Some(v), Some(f)) => ReadState {
                families: st.families,
                current: Some(FamilyView { verbs: f.verbs.push(v), ..f }),
            },
            _ => st,
        },
    }
}

pub open spec fn read_upto(lines: Seq<Seq<char>>, k: int) -> ReadState
    decreases k,
{
    if k <= 0 {
        ReadState { families: seq![], current: None }
    } else {
        read_step(read_upto(lines, k - 1), lines[k - 1])
    }
}

/// The families of a hit-messages document, in order.
pub open spec fn hit_families(content: Seq<char>) -> Seq<FamilyView> {
    let lines = lines_of(content);
    finished(read_upto(lines, lines.len() as int))
}

/// Whether no header line of the document is malformed.
pub open spec fn readable(content: Seq<char>) -> bool {
    forall|i: int| 0 <= i < lines_of(content).len() ==> !header_is_malformed(#[trigger] lines_of(content)[i])
}

pub open spec fn current_view(c: Option<Family>) -> Option<FamilyView> {
    match c {
        Some(f) => Some(family_view(f)),
        None => None,
    }
}

/// Reads one line into the families read so far and the one being read.
fn read_line(families: &mut Vec<Family>, current: &mut Option<Family>, line: &[char])
    requires
        !header_is_malformed(line@),
    ensures
        read_step(
            ReadState { families: families_view(old(families)@), current: current_view(*old(current)) },
            line@,
        ) == (ReadState { families: families_view(final(families)@), current: current_view(*final(current)) }),
{
    match parse_family_header(line) {
        Some((title, id)) => {
            let mut fresh: Option<Family> = Some(
                Family {
                    id: string_of(id.as_slice()),
                    title: string_of(title.as_slice()),
                    verbs: Vec::new(),
                },
            );
            std::mem::swap(&mut fresh, current);
            if let Some(done) = fresh {
                let ghost old = families_view(families@);
                let ghost dv = family_view(done);
                families.push(done);
                assert(families_view(families@) =~= old.push(dv));
            }
            proof {
                let f = current->0;
                assert(crate::ansi::segment::strings_view(f.verbs@) =~= Seq::<Seq<char>>::empty());
            }
        },
        None => {
            match parse_verb_line(line) {
                Some(v) => {
                    if current.is_some() {
                        let mut f = current.take().unwrap();
                        let ghost fv = family_view(f);
                        f.verbs.push(string_of(v.as_slice()));
                        proof {
                            assert(crate::ansi::segment::strings_view(f.verbs@) =~= fv.verbs.push(v@));
                        }
                        *current = Some(f);
                    }
                },
                None => {},
            }
        },
    }
}

#[verifier::rlimit(40)]
#[verifier::spinoff_prover]
fn header_malformed_exec(line: &[char]) -> (r: bool)
    ensures
        r == header_is_malformed(line@),
{
    let t = trim_chars(line);
    assert(t@ == trim_seq(line@));
    if !(t.len() > 0 && t[0] == '#') {
        return false;
    }
    let open = match last_index_exec(t.as_slice(), '(') {
        Some(o) => o,
        None => {
            return false;
        },
    };
    let close = match last_index_exec(t.as_slice(), ')') {
        Some(c) => c,
        None => {
            return false;
        },
    };
    if close <= open {
        return false;
    }
    let marker = chars_of(" for ");
    assert(marker@ == " for "@);
    let found = find_chars(t.as_slice(), marker.as_slice());
    assert(title_start(t@) == match first_occurrence(t@, " for "@) {
        Some(f) => Some(f + 5),
        None => None::<int>,
    });
    match found {
        Some(f) => {
            assert(first_occurrence(t@, " for "@) == Some(f as int));
            f > open || open - f < 5
        },
        None => false,
    }
}

/// Whether the document can be read: no header line is malformed.
pub fn is_readable(content: &str) -> (r: bool)
    ensures
        r == readable(content@),
{
    let chars = chars_of(content);
    let lines = split_lines(chars.as_slice());
    let ghost lv = lines_view(lines@);
    let mut k: usize = 0;
    while k < lines.len()
        invariant
            k <= lines@.len(),
            lv == lines_view(lines@),
            lv == lines_of(content@),
            forall|i: int| 0 <= i < k ==> !header_is_malformed(#[trigger] lv[i]),
        decreases lines.len() - k,
    {
        assert(lines@[k as int]@ == lv[k as int]);
        if header_malformed_exec(lines[k].as_slice()) {
            return false;
        }
        k = k + 1;
    }
    true
}

/// Reads the weapon families of a hit-messages document.
pub fn parse_hit_messages(content: &str) -> (r: Vec<Family>)
    requires
        readable(content@),
    ensures
        families_view(r@) == hit_families(content@),
{
    let chars = chars_of(content);
    let lines = split_lines(chars.as_slice());
    let ghost lv = lines_view(lines@);
    let mut families: Vec<Family> = Vec::new();
    let mut current: Option<Family> = None;
    let mut k: usize = 0;
    assert(families_view(families@) =~= Seq::<FamilyView>::empty());
    while k < lines.len()
        invariant
            k <= lines@.len(),
            lv == lines_view(lines@),
            lv == lines_of(content@),
            readable(content@),
            read_upto(lv, k as int) == (ReadState {
                families: families_view(families@),
                current: current_view(current),
            }),
        decreases lines.len() - k,
    {
        assert(!header_is_malformed(lv[k as int]));
        assert(lines@[k as int]@ == lv[k as int]);
        read_line(&mut families, &mut current, lines[k].as_slice());
        k = k + 1;
    }
    if let Some(done) = current {
        let ghost old = families_view(families@);
        let ghost dv = family_view(done);
        families.push(done);
        assert(families_view(families@) =~= old.push(dv));
    }
    families
}

/// Why a set of families makes no catalog.
#[derive(Debug, PartialEq, Eq)]
pub enum CatalogError {
    /// The document holds no family.
    NoFamilies,
    /// A family has no verbs.
    NoVerbs(String),
    /// A family has other than twenty-six verbs.
    WrongVerbCount(String, usize),
}

/// The number of verbs every family has.
pub const VERBS_PER_FAMILY: usize = 26;

/// The first family, in order, that has no verbs or other than twenty-six.
pub open spec fn first_bad_family(fams: Seq<FamilyView>, k: int) -> Option<int>
    decreases fams.len() - k,
{
    if k < 0 || k >= fams.len() {
        None
    } else if fams[k].verbs.len() != 26 {
        Some(k)
    } else {
        first_bad_family(fams, k + 1)
    }
}

proof fn lemma_no_bad_family(fams: Seq<FamilyView>, k: int)
    requires
        0 <= k,
        first_bad_family(fams, k) is None,
    ensures
        forall|j: int| k <= j < fams.len() ==> #[trigger] fams[j].verbs.len() == 26,
    decreases fams.len() - k,
{
    if k < fams.len() {
        lemma_no_bad_family(fams, k + 1);
    }
}

/// A verb of the catalog: its canonical text, family, rank within the family
/// (1 mildest), and the endings of the incoming lines it appears in.
pub struct CatalogEntry {
    pub canonical: String,
    pub family: usize,
    pub rank: u8,
    pub conjugated_suffix: String,
    pub bare_suffix: String,
}

pub struct EntryView {
    pub canonical: Seq<char>,
    pub family: int,
    pub rank: int,
    pub conjugated_suffix: Seq<char>,
    pub bare_suffix: Seq<char>,
}

pub open spec fn entry_view(e: CatalogEntry) -> EntryView {
    EntryView {
        canonical: e.canonical@,
        family: e.family as int,
        rank: e.rank as int,
        conjugated_suffix: e.conjugated_suffix@,
        bare_suffix: e.bare_suffix@,
    }
}

pub open spec fn entries_view(v: Seq<CatalogEntry>) -> Seq<EntryView> {
    v.map_values(|e: CatalogEntry| entry_view(e))
}

/// The catalog entry of the verb of rank `rank` in family `family`.
pub open spec fn make_entry(family: int, rank: int, verb: Seq<char>) -> EntryView {
    EntryView {
        canonical: verb,
        family,
        rank,
        conjugated_suffix: conjugate_verb_spec(verb) + " you."@,
        bare_suffix: verb + " you."@,
    }
}

/// The entries of the first `n` families, family by family, mildest verb first.
pub open spec fn catalog_entries(fams: Seq<FamilyView>, n: int) -> Seq<EntryView>
    decreases n,
{
    if n <= 0 {
        seq![]
    } else {
        catalog_entries(fams, n - 1) + fams[n - 1].verbs.map(
            |r: int, v: Seq<char>| make_entry(n - 1, r + 1, v),
        )
    }
}

/// The verb catalog with its families' ids and titles.
pub struct Catalog {
    entries: Vec<CatalogEntry>,
    family_ids: Vec<String>,
    family_titles: Vec<String>,
}

impl Catalog {
    pub closed spec fn entries_spec(&self) -> Seq<EntryView> {
        entries_view(self.entries@)
    }

    pub closed spec fn ids_spec(&self) -> Seq<Seq<char>> {
        crate::ansi::segment::strings_view(self.family_ids@)
    }

    pub closed spec fn titles_spec(&self) -> Seq<Seq<char>> {
        crate::ansi::segment::strings_view(self.family_titles@)
    }

    /// Builds the catalog: every family must have twenty-six verbs.
    pub fn from_families(families: Vec<Family>) -> (r: Result<Catalog, CatalogError>)
        ensures
            ({
                let fv = families_view(families@);
                if fv.len() == 0 {
                    r == Err::<Catalog, CatalogError>(CatalogError::NoFamilies)
                } else {
                    match first_bad_family(fv, 0) {
                        Some(k) => if fv[k].verbs.len() == 0 {
                            r matches Err(CatalogError::NoVerbs(id)) && id@ == fv[k].id
                        } else {
                            r matches Err(CatalogError::WrongVerbCount(id, n)) && id@ == fv[k].id
                                && n == fv[k].verbs.len()
                        },
                        None => r matches Ok(c) && c.entries_spec() == catalog_entries(
                            fv,
                            fv.len() as int,
                        ) && c.ids_spec() == fv.map_values(|f: FamilyView| f.id)
                            && c.titles_spec() == fv.map_values(|f: FamilyView| f.title),
                    }
                }
            }),
    {
        let ghost fv = families_view(families@);
        if families.len() == 0 {
            return Err(CatalogError::NoFamilies);
        }
        let mut i: usize = 0;
        while i < families.len()
            invariant
                i <= families@.len(),
                fv == families_view(families@),
                first_bad_family(fv, 0) == first_bad_family(fv, i as int),
            decreases families.len() - i,
        {
            let n = families[i].verbs.len();
            if n == 0 {
                return Err(CatalogError::NoVerbs(families[i].id.clone()));
            }
            if n != VERBS_PER_FAMILY {
                return Err(CatalogError::WrongVerbCount(families[i].id.clone(), n));
            }
            i = i + 1;
        }
        proof {
            lemma_no_bad_family(fv, 0);
        }
        let mut entries: Vec<CatalogEntry> = Vec::new();
        assert(entries_view(entries@) =~= catalog_entries(fv, 0));
        let mut ids: Vec<String> = Vec::new();
        let mut titles: Vec<String> = Vec::new();
        let mut f: usize = 0;
        while f < families.len()
            invariant
                f <= families@.len(),
                fv == families_view(families@),
                first_bad_family(fv, 0) is None,
                forall|j: int| 0 <= j < fv.len() ==> #[trigger] fv[j].verbs.len() == 26,
                entries_view(entries@) == catalog_entries(fv, f as int),
                crate::ansi::segment::strings_view(ids@) == fv.take(f as int).map_values(
                    |x: FamilyView| x.id,
                ),
                crate::ansi::segment::strings_view(titles@) == fv.take(f as int).map_values(
                    |x: FamilyView| x.title,
                ),
            decreases families.len() - f,
        {
            let fam = &families[f];
            assert(fv[f as int] == family_view(*fam));
            assert(fv[f as int].verbs.len() == 26);
            let ghost base = entries_view(entries@);
            assert(fv[f as int].verbs.take(0) =~= Seq::<Seq<char>>::empty());
            let mut r: usize = 0;
            while r < fam.verbs.len()
                invariant
                    r <= fam.verbs@.len(),
                    fam.verbs@.len() == 26,
                    fv[f as int] == family_view(*fam),
                    entries_view(entries@) == base + fv[f as int].verbs.take(r as int).map(
                        |rr: int, v: Seq<char>| make_entry(f as int, rr + 1, v),
                    ),
                decreases fam.verbs.len() - r,
            {
                let verb = &fam.verbs[r];
                let conj = conjugate_verb(verb);
                let e = CatalogEntry {
                    canonical: verb.clone(),
                    family: f,
                    rank: (r + 1) as u8,
                    conjugated_suffix: crate::text::concat2(&conj, " you."),
                    bare_suffix: crate::text::concat2(verb, " you."),
                };
                let ghost old = entries_view(entries@);
                let ghost ev = entry_view(e);
                entries.push(e);
                proof {
                    assert(entries_view(entries@) =~= old.push(ev));
                    assert(entries_view(entries@) =~= base + fv[f as int].verbs.take(r + 1).map(
                        |rr: int, v: Seq<char>| make_entry(f as int, rr + 1, v),
                    ));
                }
                r = r + 1;
            }
            proof {
                assert(fv[f as int].verbs.take(26) =~= fv[f as int].verbs);
            }
            let ghost oi = crate::ansi::segment::strings_view(ids@);
            let ghost ot = crate::ansi::segment::strings_view(titles@);
            ids.push(fam.id.clone());
            titles.push(fam.title.clone());
            proof {
                assert(crate::ansi::segment::strings_view(ids@) =~= oi.push(fv[f as int].id));
                assert(crate::ansi::segment::strings_view(titles@) =~= ot.push(fv[f as int].title));
                assert(fv.take(f + 1).map_values(|x: FamilyView| x.id) =~= fv.take(f as int).map_values(
                    |x: FamilyView| x.id,
                ).push(fv[f as int].id));
                assert(fv.take(f + 1).map_values(|x: FamilyView| x.title) =~= fv.take(
                    f as int,
                ).map_values(|x: FamilyView| x.title).push(fv[f as int].title));
            }
            f = f + 1;
        }
        proof {
            assert(fv.take(fv.len() as int) =~= fv);
        }
        Ok(Catalog { entries, family_ids: ids, family_titles: titles })
    }

    /// The family ids, in document order.
    pub fn family_ids(&self) -> (r: &[String])
        ensures
            crate::ansi::segment::strings_view(r@) == self.ids_spec(),
    {
        self.family_ids.as_slice()
    }

    /// The family titles, in document order.
    pub fn family_titles(&self) -> (r: &[String])
        ensures
            crate::ansi::segment::strings_view(r@) == self.titles_spec(),
    {
        self.family_titles.as_slice()
    }

    /// The entries.
    pub fn entries(&self) -> (r: &[CatalogEntry])
        ensures
            entries_view(r@) == self.entries_spec(),
    {
        self.entries.as_slice()
    }
}

/// The family and rank of a melee verb.
#[derive(Debug, Clone, Copy, PartialEq, Eq, Structural)]
pub struct MeleeCatalogMeta {
    pub family_index: usize,
    pub rank: u8,
}

/// Number of the first `k` entries whose verb is `key`, ASCII case ignored.
pub open spec fn verb_count(es: Seq<EntryView>, key: Seq<char>, k: int) -> nat
    decreases k,
{
    if k <= 0 {
        0
    } else {
        verb_count(es, key, k - 1) + if crate::text::lower_seq(es[k - 1].canonical)
            == crate::text::lower_seq(key) {
            1nat
        } else {
            0nat
        }
    }
}

impl Catalog {
    /// The family and rank of a melee verb (ASCII case ignored) when exactly one
    /// catalog entry has it.
    pub fn unambiguous_melee_catalog_meta(&self, verb: &str) -> (r: Option<MeleeCatalogMeta>)
        ensures
            ({
                let es = self.entries_spec();
                if verb_count(es, verb@, es.len() as int) == 1 {
                    exists|i: int|
                        0 <= i < es.len() && crate::text::lower_seq(es[i].canonical)
                            == crate::text::lower_seq(verb@) && r == Some(
                            MeleeCatalogMeta { family_index: es[i].family as usize, rank: es[i].rank as u8 },
                        )
                } else {
                    r is None
                }
            }),
    {
        let key = crate::text::lower_chars(chars_of(verb).as_slice());
        let ghost es = entries_view(self.entries@);
        let mut count: usize = 0;
        let mut found: Option<MeleeCatalogMeta> = None;
        let mut k: usize = 0;
        while k < self.entries.len()
            invariant
                k <= self.entries@.len(),
                es == entries_view(self.entries@),
                key@ == crate::text::lower_seq(verb@),
                count == verb_count(es, verb@, k as int),
                count <= k,
                count >= 1 ==> exists|i: int|
                    0 <= i < k && crate::text::lower_seq(es[i].canonical) == crate::text::lower_seq(
                        verb@,
                    ) && found == Some(
                        MeleeCatalogMeta { family_index: es[i].family as usize, rank: es[i].rank as u8 },
                    ),
            decreases self.entries.len() - k,
        {
            let e = &self.entries[k];
            assert(entry_view(self.entries@[k as int]) == es[k as int]);
            let ec = crate::text::lower_chars(chars_of(&e.canonical).as_slice());
            if crate::text::chars_eq(ec.as_slice(), key.as_slice()) {
                if count == 0 {
                    found = Some(MeleeCatalogMeta { family_index: e.family, rank: e.rank });
                }
                count = count + 1;
            }
            k = k + 1;
        }
        if count == 1 {
            found
        } else {
            None
        }
    }
}

} // verus!
