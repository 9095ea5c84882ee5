// Configuration files of the XCP daemon
//  Text in the form of INI files: sections "[name]", lines "key = value", comments "# ..."
//  DaemonConfig, Section, SectionIter, SectionItemIter

use vstd::prelude::*;

use crate::strings::{str_eq, str_to_chars, str_to_string, trim, trim_bounds, trimmed_subrange, chars_to_string};

verus! {

//----------------------------------------------------------------------------------------------
// Model

/// The key/value pairs of one section, in the order in which the keys first appeared
pub type ItemsView = Seq<(Seq<char>, Seq<char>)>;

/// The sections of a configuration, in the order in which they first appeared
pub type SectionsView = Seq<(Seq<char>, ItemsView)>;

/// Position of the last entry named `k`, or -1
pub open spec fn last_pos<T>(s: Seq<(Seq<char>, T)>, k: Seq<char>) -> int
    decreases s.len(),
{
    if s.len() == 0 {
        -1
    } else if s.last().0 == k {
        s.len() - 1
    } else {
        last_pos(s.drop_last(), k)
    }
}

/// The last position of a name holds that name, and no later position does
pub proof fn lemma_last_pos<T>(s: Seq<(Seq<char>, T)>, k: Seq<char>)
    ensures
        -1 <= last_pos(s, k) < s.len(),
        last_pos(s, k) >= 0 ==> s[last_pos(s, k)].0 == k,
        forall|j: int| last_pos(s, k) < j < s.len() ==> s[j].0 != k,
    decreases s.len(),
{
    if s.len() > 0 && s.last().0 != k {
        lemma_last_pos(s.drop_last(), k);
        assert forall|j: int| last_pos(s, k) < j < s.len() implies s[j].0 != k by {
            if j < s.len() - 1 {
                assert(s[j] == s.drop_last()[j]);
            }
        }
    }
}

/// Position of the first `c` in s, or -1
pub open spec fn first_pos(s: Seq<char>, c: char) -> int
    decreases s.len(),
{
    if s.len() == 0 {
        -1
    } else if s[0] == c {
        0
    } else {
        let r = first_pos(s.drop_first(), c);
        if r < 0 {
            -1
        } else {
            r + 1
        }
    }
}

/// The first position of a character holds it, and no earlier position does
pub proof fn lemma_first_pos(s: Seq<char>, c: char)
    ensures
        -1 <= first_pos(s, c) < s.len(),
        first_pos(s, c) >= 0 ==> s[first_pos(s, c)] == c,
        forall|j: int| 0 <= j < s.len() && (first_pos(s, c) < 0 || j < first_pos(s, c)) ==> s[j] != c,
    decreases s.len(),
{
    if s.len() > 0 && s[0] != c {
        lemma_first_pos(s.drop_first(), c);
        assert forall|j: int| 0 <= j < s.len() && (first_pos(s, c) < 0 || j < first_pos(s, c)) implies s[j] != c by {
            if j > 0 {
                assert(s[j] == s.drop_first()[j - 1]);
            }
        }
    }
}

/// Sets the value of a key, in place where the key is present, else at the end
pub open spec fn assoc_set(items: ItemsView, k: Seq<char>, v: Seq<char>) -> ItemsView {
    let i = last_pos(items, k);
    if i >= 0 {
        items.update(i, (k, v))
    } else {
        items.push((k, v))
    }
}

/// Adds a section without items, unless a section of this name is present
pub open spec fn ensure_section(secs: SectionsView, name: Seq<char>) -> SectionsView {
    if last_pos(secs, name) >= 0 {
        secs
    } else {
        secs.push((name, Seq::empty()))
    }
}

/// Gives the named section no items, adding it where it is missing
pub open spec fn reset_section(secs: SectionsView, name: Seq<char>) -> SectionsView {
    let i = last_pos(secs, name);
    if i >= 0 {
        secs.update(i, (name, Seq::empty()))
    } else {
        secs.push((name, Seq::empty()))
    }
}

/// Sets the value of a key in a section, adding the section where it is missing
pub open spec fn set_value(secs: SectionsView, sec: Seq<char>, k: Seq<char>, v: Seq<char>) -> SectionsView {
    let i = last_pos(secs, sec);
    if i >= 0 {
        secs.update(i, (sec, assoc_set(secs[i].1, k, v)))
    } else {
        secs.push((sec, seq![(k, v)]))
    }
}

/// The value of a key in a section
pub open spec fn lookup(secs: SectionsView, sec: Seq<char>, k: Seq<char>) -> Option<Seq<char>> {
    let i = last_pos(secs, sec);
    if i < 0 {
        None
    } else {
        let j = last_pos(secs[i].1, k);
        if j < 0 {
            None
        } else {
            Some(secs[i].1[j].1)
        }
    }
}

/// No name occurs twice
pub open spec fn names_unique<T>(s: Seq<(Seq<char>, T)>) -> bool {
    forall|i: int, j: int| 0 <= i < j < s.len() ==> s[i].0 != s[j].0
}

/// Section names are unique, and so are the keys of each section
pub open spec fn sections_well_formed(secs: SectionsView) -> bool {
    &&& names_unique(secs)
    &&& forall|i: int| 0 <= i < secs.len() ==> names_unique(#[trigger] secs[i].1)
}

//----------------------------------------------------------------------------------------------
// Lines

/// A line to be ignored: empty (after trimming) or a comment
pub open spec fn is_skipped(t: Seq<char>) -> bool {
    t.len() == 0 || t[0] == '#'
}

/// A section header "[name]"
pub open spec fn is_header(t: Seq<char>) -> bool {
    t.len() > 0 && t[0] == '[' && t.last() == ']'
}

pub open spec fn header_name(t: Seq<char>) -> Seq<char> {
    t.subrange(1, t.len() - 1)
}

/// The text before the first '=' of a line, trimmed
pub open spec fn line_key(t: Seq<char>) -> Seq<char> {
    trim(t.take(first_pos(t, '=')))
}

/// The text after the first '=' of a line, trimmed
pub open spec fn line_value(t: Seq<char>) -> Seq<char> {
    trim(t.skip(first_pos(t, '=') + 1))
}

/// One line of a daemon configuration, applied to (current section, sections)
pub open spec fn daemon_line(st: (Seq<char>, SectionsView), line: Seq<char>) -> (
    Seq<char>,
    SectionsView,
) {
    let t = trim(line);
    if is_skipped(t) {
        st
    } else if is_header(t) {
        (header_name(t), ensure_section(st.1, header_name(t)))
    } else if first_pos(t, '=') >= 0 {
        (st.0, set_value(st.1, st.0, line_key(t), line_value(t)))
    } else {
        st
    }
}

/// The lines of a text (separated by '\n'), applied in order
pub open spec fn daemon_lines(st: (Seq<char>, SectionsView), rest: Seq<char>) -> (
    Seq<char>,
    SectionsView,
)
    decreases rest.len(),
{
    let i = first_pos(rest, '\n');
    if i < 0 {
        daemon_line(st, rest)
    } else {
        proof {
            lemma_first_pos(rest, '\n');
        }
        daemon_lines(daemon_line(st, rest.take(i)), rest.skip(i + 1))
    }
}

/// The name of the section of keys that come before any section header
pub open spec fn default_section_name() -> Seq<char> {
    seq!['d', 'e', 'f', 'a', 'u', 'l', 't']
}

/// The sections of a daemon configuration text
pub open spec fn daemon_parse(secs: SectionsView, text: Seq<char>) -> SectionsView {
    daemon_lines((default_section_name(), secs), text).1
}

//----------------------------------------------------------------------------------------------
// Laws of the model

/// A value that was set is read back; the values of other keys and sections stay
pub proof fn lemma_set_value_lookup(
    secs: SectionsView,
    sec: Seq<char>,
    k: Seq<char>,
    v: Seq<char>,
    sec2: Seq<char>,
    k2: Seq<char>,
)
    requires
        sections_well_formed(secs),
    ensures
        lookup(set_value(secs, sec, k, v), sec, k) == Some(v),
        sec2 != sec || k2 != k ==> lookup(set_value(secs, sec, k, v), sec2, k2) == lookup(
            secs,
            sec2,
            k2,
        ),
{
    lemma_set_value_well_formed(secs, sec, k, v);
    let r = set_value(secs, sec, k, v);
    lemma_last_pos(secs, sec);
    lemma_last_pos(secs, sec2);
    let i = last_pos(secs, sec);
    let i2 = last_pos(secs, sec2);
    if i >= 0 {
        let items = secs[i].1;
        let n = assoc_set(items, k, v);
        assert(r[i] == (sec, n));
        assert(names_unique(r[i].1));
        lemma_unique_pos(r, sec, i);
        lemma_last_pos(items, k);
        lemma_last_pos(items, k2);
        let j = last_pos(items, k);
        let p = if j >= 0 { j } else { items.len() as int };
        assert(n[p] == (k, v));
        lemma_unique_pos(n, k, p);
        if sec2 != sec {
            if i2 >= 0 {
                assert(r[i2] == secs[i2]);
                lemma_unique_pos(r, sec2, i2);
            } else {
                lemma_last_pos(r, sec2);
                if last_pos(r, sec2) >= 0 {
                    assert(r[last_pos(r, sec2)] == secs[last_pos(r, sec2)]);
                }
            }
        } else if k2 != k {
            let j2 = last_pos(items, k2);
            if j2 >= 0 {
                assert(n[j2] == items[j2]);
                lemma_unique_pos(n, k2, j2);
            } else {
                lemma_last_pos(n, k2);
                if last_pos(n, k2) >= 0 {
                    assert(n[last_pos(n, k2)] == items[last_pos(n, k2)]);
                }
            }
        }
    } else {
        let p = secs.len() as int;
        assert(r[p] == (sec, seq![(k, v)]));
        lemma_unique_pos(r, sec, p);
        lemma_unique_pos(seq![(k, v)], k, 0);
        if sec2 != sec {
            if i2 >= 0 {
                assert(r[i2] == secs[i2]);
                lemma_unique_pos(r, sec2, i2);
            } else {
                lemma_last_pos(r, sec2);
                if last_pos(r, sec2) >= 0 {
                    assert(r[last_pos(r, sec2)] == secs[last_pos(r, sec2)]);
                }
            }
        } else {
            lemma_last_pos(seq![(k, v)], k2);
        }
    }
}

/// In a sequence of unique names, a name is found where it stands
pub proof fn lemma_unique_pos<T>(s: Seq<(Seq<char>, T)>, k: Seq<char>, p: int)
    requires
        names_unique(s),
        0 <= p < s.len(),
        s[p].0 == k,
    ensures
        last_pos(s, k) == p,
{
    lemma_last_pos(s, k);
    if last_pos(s, k) != p {
        assert(s[last_pos(s, k)].0 == s[p].0);
    }
}

/// Setting a value keeps names unique
pub proof fn lemma_set_value_well_formed(secs: SectionsView, sec: Seq<char>, k: Seq<char>, v: Seq<char>)
    requires
        sections_well_formed(secs),
    ensures
        sections_well_formed(set_value(secs, sec, k, v)),
{
    lemma_last_pos(secs, sec);
    let i = last_pos(secs, sec);
    let r = set_value(secs, sec, k, v);
    if i >= 0 {
        lemma_last_pos(secs[i].1, k);
        assert(names_unique(r));
        assert(forall|j: int| 0 <= j < r.len() && j != i ==> r[j] == secs[j]);
        assert(names_unique(r[i].1));
    } else {
        assert(names_unique(r));
        assert(forall|j: int| 0 <= j < secs.len() ==> r[j] == secs[j]);
        assert(names_unique(r[secs.len() as int].1));
    }
}

/// Adding or resetting a section keeps names unique
pub proof fn lemma_section_ops_well_formed(secs: SectionsView, name: Seq<char>)
    requires
        sections_well_formed(secs),
    ensures
        sections_well_formed(ensure_section(secs, name)),
        sections_well_formed(reset_section(secs, name)),
{
    lemma_last_pos(secs, name);
    let r = reset_section(secs, name);
    let e = ensure_section(secs, name);
    assert(names_unique(r));
    assert(names_unique(e));
    assert(forall|j: int| 0 <= j < r.len() ==> names_unique(#[trigger] r[j].1)) by {
        assert forall|j: int| 0 <= j < r.len() implies names_unique(#[trigger] r[j].1) by {
            if j < secs.len() && j != last_pos(secs, name) {
                assert(r[j] == secs[j]);
            }
        }
    }
    assert(forall|j: int| 0 <= j < e.len() ==> names_unique(#[trigger] e[j].1)) by {
        assert forall|j: int| 0 <= j < e.len() implies names_unique(#[trigger] e[j].1) by {
            if j < secs.len() {
                assert(e[j] == secs[j]);
            }
        }
    }
}

/// Every line keeps section names and keys unique
pub proof fn lemma_daemon_lines_well_formed(st: (Seq<char>, SectionsView), rest: Seq<char>)
    requires
        sections_well_formed(st.1),
    ensures
        sections_well_formed(daemon_lines(st, rest).1),
    decreases rest.len(),
{
    lemma_daemon_line_well_formed(st, rest);
    let i = first_pos(rest, '\n');
    if i >= 0 {
        lemma_first_pos(rest, '\n');
        lemma_daemon_line_well_formed(st, rest.take(i));
        lemma_daemon_lines_well_formed(daemon_line(st, rest.take(i)), rest.skip(i + 1));
    }
}

/// A line keeps section names and keys unique
pub proof fn lemma_daemon_line_well_formed(st: (Seq<char>, SectionsView), line: Seq<char>)
    requires
        sections_well_formed(st.1),
    ensures
        sections_well_formed(daemon_line(st, line).1),
{
    let t = trim(line);
    lemma_section_ops_well_formed(st.1, header_name(t));
    lemma_set_value_well_formed(st.1, st.0, line_key(t), line_value(t));
}

//----------------------------------------------------------------------------------------------
// Exec helpers

/// A section of a configuration: its name and its key/value pairs
pub struct Section {
    pub name: String,
    pub items: Vec<(String, String)>,
}

pub open spec fn pairs_view(s: Seq<(String, String)>) -> ItemsView {
    s.map_values(|p: (String, String)| (p.0@, p.1@))
}

pub open spec fn sections_view(s: Seq<Section>) -> SectionsView {
    s.map_values(|x: Section| (x.name@, pairs_view(x.items@)))
}

/// Position of the first `c` in s[from..to]
pub fn find_char_in(s: &[char], from: usize, to: usize, c: char) -> (r: Option<usize>)
    requires
        from <= to <= s@.len(),
    ensures
        match r {
            Some(j) => from <= j < to && first_pos(s@.subrange(from as int, to as int), c) == j
                - from,
            None => first_pos(s@.subrange(from as int, to as int), c) == -1,
        },
{
    let ghost t = s@.subrange(from as int, to as int);
    let mut i = from;
    while i < to
        invariant
            from <= i <= to <= s@.len(),
            t == s@.subrange(from as int, to as int),
            forall|k: int| from <= k < i ==> s@[k] != c,
        decreases to - i,
    {
        if s[i] == c {
            proof {
                lemma_first_pos(t, c);
                let p = first_pos(t, c);
                assert(t[i - from] == c);
                if p < 0 || p > i - from {
                    assert(false);
                }
                if p >= 0 && p < i - from {
                    assert(t[p] == s@[from + p]);
                }
            }
            return Some(i);
        }
        i += 1;
    }
    proof {
        lemma_first_pos(t, c);
        let p = first_pos(t, c);
        if p >= 0 {
            assert(t[p] == s@[from + p]);
        }
    }
    None
}

/// Copies s[from..to] into a string
pub fn sub_string(s: &[char], from: usize, to: usize) -> (r: String)
    requires
        from <= to <= s@.len(),
    ensures
        r@ == s@.subrange(from as int, to as int),
{
    let mut v: Vec<char> = Vec::new();
    let mut i = from;
    while i < to
        invariant
            from <= i <= to <= s@.len(),
            v@ == s@.subrange(from as int, i as int),
        decreases to - i,
    {
        v.push(s[i]);
        i += 1;
        assert(v@ =~= s@.subrange(from as int, i as int));
    }
    chars_to_string(v.as_slice())
}

/// Position of the last pair with key `k`
pub fn find_key(items: &Vec<(String, String)>, k: &str) -> (r: Option<usize>)
    ensures
        match r {
            Some(i) => i == last_pos(pairs_view(items@), k@) && i < items@.len(),
            None => last_pos(pairs_view(items@), k@) == -1,
        },
{
    let ghost iv = pairs_view(items@);
    let mut i = items.len();
    assert(iv.take(i as int) =~= iv);
    while i > 0
        invariant
            i <= items@.len(),
            iv == pairs_view(items@),
            last_pos(iv, k@) == last_pos(iv.take(i as int), k@),
        decreases i,
    {
        if str_eq(items[i - 1].0.as_str(), k) {
            assert(iv.take(i as int).last().0 == k@);
            return Some(i - 1);
        }
        assert(iv.take(i as int).drop_last() =~= iv.take(i - 1));
        i -= 1;
    }
    None
}

/// Position of the last section named `name`
pub fn find_section(secs: &Vec<Section>, name: &str) -> (r: Option<usize>)
    ensures
        match r {
            Some(i) => i == last_pos(sections_view(secs@), name@) && i < secs@.len(),
            None => last_pos(sections_view(secs@), name@) == -1,
        },
{
    let ghost sv = sections_view(secs@);
    let mut i = secs.len();
    assert(sv.take(i as int) =~= sv);
    while i > 0
        invariant
            i <= secs@.len(),
            sv == sections_view(secs@),
            last_pos(sv, name@) == last_pos(sv.take(i as int), name@),
        decreases i,
    {
        if str_eq(secs[i - 1].name.as_str(), name) {
            assert(sv.take(i as int).last().0 == name@);
            return Some(i - 1);
        }
        assert(sv.take(i as int).drop_last() =~= sv.take(i - 1));
        i -= 1;
    }
    None
}

/// Sets the value of a key in a list of pairs
pub fn assoc_set_exec(items: &mut Vec<(String, String)>, k: String, v: String)
    ensures
        pairs_view(final(items)@) == assoc_set(pairs_view(old(items)@), k@, v@),
{
    match find_key(items, k.as_str()) {
        Some(i) => {
            let ghost kv = k@;
            let ghost vv = v@;
            items.set(i, (k, v));
            assert(pairs_view(items@) =~= pairs_view(old(items)@).update(i as int, (kv, vv)));
        },
        None => {
            let ghost kv = k@;
            let ghost vv = v@;
            items.push((k, v));
            assert(pairs_view(items@) =~= pairs_view(old(items)@).push((kv, vv)));
        },
    }
}

/// Adds a section without items, unless one of that name is present
pub fn ensure_section_exec(secs: &mut Vec<Section>, name: &String)
    ensures
        sections_view(final(secs)@) == ensure_section(sections_view(old(secs)@), name@),
{
    if find_section(secs, name.as_str()).is_none() {
        let s = Section { name: name.clone(), items: Vec::new() };
        secs.push(s);
        assert(pairs_view(Seq::<(String, String)>::empty()) =~= Seq::empty());
        assert(sections_view(secs@) =~= sections_view(old(secs)@).push((name@, Seq::empty())));
    }
}

/// Gives the named section no items, adding it where it is missing
pub fn reset_section_exec(secs: &mut Vec<Section>, name: &String)
    ensures
        sections_view(final(secs)@) == reset_section(sections_view(old(secs)@), name@),
{
    let s = Section { name: name.clone(), items: Vec::new() };
    assert(pairs_view(s.items@) =~= Seq::empty());
    match find_section(secs, name.as_str()) {
        Some(i) => {
            secs.set(i, s);
            assert(sections_view(secs@) =~= sections_view(old(secs)@).update(
                i as int,
                (name@, Seq::empty()),
            ));
        },
        None => {
            secs.push(s);
            assert(sections_view(secs@) =~= sections_view(old(secs)@).push((name@, Seq::empty())));
        },
    }
}

/// Sets the value of a key in a section, adding the section where it is missing
pub fn set_value_exec(secs: &mut Vec<Section>, sec: &String, k: String, v: String)
    ensures
        sections_view(final(secs)@) == set_value(sections_view(old(secs)@), sec@, k@, v@),
{
    let ghost kv = k@;
    let ghost vv = v@;
    match find_section(secs, sec.as_str()) {
        Some(i) => {
            proof {
                lemma_last_pos(sections_view(old(secs)@), sec@);
            }
            let s = &mut secs[i];
            assoc_set_exec(&mut s.items, k, v);
            assert(sections_view(secs@) =~= sections_view(old(secs)@).update(
                i as int,
                (sec@, assoc_set(sections_view(old(secs)@)[i as int].1, kv, vv)),
            ));
        },
        None => {
            let mut items: Vec<(String, String)> = Vec::new();
            items.push((k, v));
            assert(pairs_view(items@) =~= seq![(kv, vv)]);
            secs.push(Section { name: sec.clone(), items });
            assert(sections_view(secs@) =~= sections_view(old(secs)@).push((sec@, seq![(kv, vv)])));
        },
    }
}

/// The value of a key in a section, as a reference into the sections
pub fn lookup_exec<'a>(secs: &'a Vec<Section>, sec: &str, k: &str) -> (r: Option<&'a String>)
    ensures
        match r {
            Some(v) => lookup(sections_view(secs@), sec@, k@) == Some(v@),
            None => lookup(sections_view(secs@), sec@, k@) == None::<Seq<char>>,
        },
{
    match find_section(secs, sec) {
        None => None,
        Some(i) => match find_key(&secs[i].items, k) {
            None => None,
            Some(j) => Some(&secs[i].items[j].1),
        },
    }
}

/// Bounds of the key and of the value of a line "key = value" in s[a..b], where '=' stands at e
pub fn key_value_at(s: &[char], a: usize, e: usize, b: usize) -> (r: (String, String))
    requires
        a <= e < b <= s@.len(),
        first_pos(s@.subrange(a as int, b as int), '=') == e - a,
    ensures
        r.0@ == line_key(s@.subrange(a as int, b as int)),
        r.1@ == line_value(s@.subrange(a as int, b as int)),
{
    let ghost t = s@.subrange(a as int, b as int);
    assert(t.take(e - a) =~= s@.subrange(a as int, e as int));
    assert(t.skip(e - a + 1) =~= s@.subrange(e + 1, b as int));
    let kc = trimmed_subrange(s, a, e);
    let vc = trimmed_subrange(s, e + 1, b);
    (chars_to_string(kc.as_slice()), chars_to_string(vc.as_slice()))
}

//----------------------------------------------------------------------------------------------
// DaemonConfig

/// Runtime configuration of the daemon, read from a configuration file
pub struct DaemonConfig {
    runtime_dir: String,
    data_dir: String,
    user: String,
    group: String,
    sections: Vec<Section>,
}

impl View for DaemonConfig {
    type V = SectionsView;

    closed spec fn view(&self) -> SectionsView {
        sections_view(self.sections@)
    }
}

/// Iterator over the sections of a configuration
pub struct SectionIter<'a> {
    sections: &'a Vec<Section>,
    pos: usize,
}

/// Iterator over the key/value pairs of a section
pub struct SectionItemIter<'a> {
    items: &'a Vec<(String, String)>,
    pos: usize,
}

impl<'a> SectionIter<'a> {
    /// The sections iterated over
    pub closed spec fn seq(&self) -> Seq<Section> {
        self.sections@
    }

    /// The number of sections handed out so far
    pub closed spec fn pos(&self) -> int {
        self.pos as int
    }

    pub fn new(sections: &'a Vec<Section>) -> (it: SectionIter<'a>)
        ensures
            it.seq() == sections@,
            it.pos() == 0,
    {
        SectionIter { sections, pos: 0 }
    }

    /// The next section, if any is left
    pub fn next(&mut self) -> (r: Option<&'a Section>)
        ensures
            final(self).seq() == old(self).seq(),
            match r {
                Some(s) => old(self).pos() < old(self).seq().len() && *s == old(self).seq()[old(
                    self,
                ).pos()] && final(self).pos() == old(self).pos() + 1,
                None => old(self).pos() >= old(self).seq().len() && final(self).pos() == old(
                    self,
                ).pos(),
            },
    {
        if self.pos < self.sections.len() {
            let s = &self.sections[self.pos];
            self.pos = self.pos + 1;
            Some(s)
        } else {
            None
        }
    }
}

impl<'a> SectionItemIter<'a> {
    /// The pairs iterated over
    pub closed spec fn seq(&self) -> Seq<(String, String)> {
        self.items@
    }

    /// The number of pairs handed out so far
    pub closed spec fn pos(&self) -> int {
        self.pos as int
    }

    pub fn new(items: &'a Vec<(String, String)>) -> (it: SectionItemIter<'a>)
        ensures
            it.seq() == items@,
            it.pos() == 0,
    {
        SectionItemIter { items, pos: 0 }
    }

    /// The next key/value pair, if any is left
    pub fn next(&mut self) -> (r: Option<(&'a String, &'a String)>)
        ensures
            final(self).seq() == old(self).seq(),
            match r {
                Some(p) => old(self).pos() < old(self).seq().len() && (*p.0, *p.1) == old(
                    self,
                ).seq()[old(self).pos()] && final(self).pos() == old(self).pos() + 1,
                None => old(self).pos() >= old(self).seq().len() && final(self).pos() == old(
                    self,
                ).pos(),
            },
    {
        if self.pos < self.items.len() {
            let p = &self.items[self.pos];
            self.pos = self.pos + 1;
            Some((&p.0, &p.1))
        } else {
            None
        }
    }
}

impl DaemonConfig {
    pub closed spec fn runtime_dir_view(&self) -> Seq<char> {
        self.runtime_dir@
    }

    pub closed spec fn data_dir_view(&self) -> Seq<char> {
        self.data_dir@
    }

    pub closed spec fn user_view(&self) -> Seq<char> {
        self.user@
    }

    pub closed spec fn group_view(&self) -> Seq<char> {
        self.group@
    }

    /// The configuration given by the text of a configuration file, on top of the defaults
    pub fn new(content: &str) -> (c: DaemonConfig)
        ensures
            c@ == daemon_parse(Seq::empty(), content@),
            sections_well_formed(c@),
            c.runtime_dir_view() == "/var/run"@,
            c.data_dir_view() == "/var/lib"@,
            c.user_view() == "daemon"@,
            c.group_view() == "daemon"@,
    {
        let mut config = DaemonConfig::default();
        config.parse_text(content);
        proof {
            lemma_daemon_lines_well_formed((default_section_name(), Seq::empty()), content@);
        }
        config
    }

    /// Get the value of a key in a section. Keys before any section header are in section "default"
    pub fn get_value(&self, section: &str, key: &str) -> (r: Option<&String>)
        ensures
            match r {
                Some(v) => lookup(self@, section@, key@) == Some(v@),
                None => lookup(self@, section@, key@) == None::<Seq<char>>,
            },
    {
        lookup_exec(&self.sections, section, key)
    }

    pub fn runtime_dir(&self) -> (r: &str)
        ensures
            r@ == self.runtime_dir_view(),
    {
        self.runtime_dir.as_str()
    }

    pub fn data_dir(&self) -> (r: &str)
        ensures
            r@ == self.data_dir_view(),
    {
        self.data_dir.as_str()
    }

    pub fn user(&self) -> (r: &str)
        ensures
            r@ == self.user_view(),
    {
        self.user.as_str()
    }

    pub fn group(&self) -> (r: &str)
        ensures
            r@ == self.group_view(),
    {
        self.group.as_str()
    }

    /// The sections, in the order in which they first appeared
    pub fn sections(&self) -> (it: SectionIter<'_>)
        ensures
            sections_view(it.seq()) == self@,
            it.pos() == 0,
    {
        SectionIter::new(&self.sections)
    }

    /// The key/value pairs of a section, None where there is no such section
    pub fn section_items(&self, section: &str) -> (r: Option<SectionItemIter<'_>>)
        ensures
            match r {
                Some(it) => last_pos(self@, section@) >= 0 && it.pos() == 0 && pairs_view(it.seq())
                    == self@[last_pos(self@, section@)].1,
                None => last_pos(self@, section@) == -1,
            },
    {
        match find_section(&self.sections, section) {
            None => None,
            Some(i) => Some(SectionItemIter::new(&self.sections[i].items)),
        }
    }

    /// Applies the lines of a configuration text
    fn parse_text(&mut self, content: &str)
        ensures
            final(self)@ == daemon_lines((default_section_name(), old(self)@), content@).1,
            final(self).runtime_dir_view() == old(self).runtime_dir_view(),
            final(self).data_dir_view() == old(self).data_dir_view(),
            final(self).user_view() == old(self).user_view(),
            final(self).group_view() == old(self).group_view(),
    {
        let chars = str_to_chars(content);
        let mut current = chars_to_string(&['d', 'e', 'f', 'a', 'u', 'l', 't']);
        assert(current@ =~= default_section_name());
        let mut pos: usize = 0;
        assert(chars@.skip(0) =~= chars@);
        loop
            invariant
                pos <= chars@.len(),
                chars@ == content@,
                daemon_lines((default_section_name(), old(self)@), content@) == daemon_lines(
                    (current@, self@),
                    chars@.skip(pos as int),
                ),
                self.runtime_dir_view() == old(self).runtime_dir_view(),
                self.data_dir_view() == old(self).data_dir_view(),
                self.user_view() == old(self).user_view(),
                self.group_view() == old(self).group_view(),
            ensures
                final(self)@ == daemon_lines((default_section_name(), old(self)@), content@).1,
            decreases chars@.len() - pos,
        {
            let len = chars.len();
            let ghost rest = chars@.skip(pos as int);
            assert(rest =~= chars@.subrange(pos as int, len as int));
            match find_char_in(chars.as_slice(), pos, len, '\n') {
                None => {
                    self.apply_line(&mut current, chars.as_slice(), pos, len);
                    return;
                },
                Some(j) => {
                    assert(rest.take(j - pos) =~= chars@.subrange(pos as int, j as int));
                    assert(rest.skip(j - pos + 1) =~= chars@.skip(j + 1));
                    self.apply_line(&mut current, chars.as_slice(), pos, j);
                    pos = j + 1;
                },
            }
        }
    }

    /// Applies the line s[from..to]
    fn apply_line(&mut self, current: &mut String, s: &[char], from: usize, to: usize)
        requires
            from <= to <= s@.len(),
        ensures
            (final(current)@, final(self)@) == daemon_line(
                (old(current)@, old(self)@),
                s@.subrange(from as int, to as int),
            ),
            final(self).runtime_dir_view() == old(self).runtime_dir_view(),
            final(self).data_dir_view() == old(self).data_dir_view(),
            final(self).user_view() == old(self).user_view(),
            final(self).group_view() == old(self).group_view(),
    {
        let (a, b) = trim_bounds(s, from, to);
        let ghost t = s@.subrange(a as int, b as int);
        if a == b || s[a] == '#' {
            return;
        }
        if s[a] == '[' && s[b - 1] == ']' {
            let name = sub_string(s, a + 1, b - 1);
            assert(name@ =~= header_name(t));
            ensure_section_exec(&mut self.sections, &name);
            *current = name;
            return;
        }
        match find_char_in(s, a, b, '=') {
            None => {},
            Some(e) => {
                let (k, v) = key_value_at(s, a, e, b);
                set_value_exec(&mut self.sections, current, k, v);
            },
        }
    }
}

impl Default for DaemonConfig {
    fn default() -> (c: DaemonConfig)
        ensures
            c@ == Seq::<(Seq<char>, ItemsView)>::empty(),
            c.runtime_dir_view() == "/var/run"@,
            c.data_dir_view() == "/var/lib"@,
            c.user_view() == "daemon"@,
            c.group_view() == "daemon"@,
    {
        let c = DaemonConfig {
            runtime_dir: str_to_string("/var/run"),  // For PID files
            data_dir: str_to_string("/var/lib"),  // For application data
            user: str_to_string("daemon"),  // Non-privileged user
            group: str_to_string("daemon"),  // Non-privileged group
            sections: Vec::new(),
        };
        assert(c@ =~= Seq::<(Seq<char>, ItemsView)>::empty());
        c
    }
}

} // verus!
