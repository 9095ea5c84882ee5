// Configuration of a daemon process
//  ProcessConfig, Sections, Process
//  Unlike DaemonConfig, keys before the first section header are ignored, and a repeated
//  section header starts its section anew

use vstd::prelude::*;

pub use crate::daemon_config::{Section, SectionIter, SectionItemIter};
use crate::daemon_config::{
    SectionsView, find_char_in, first_pos, header_name, is_header, is_skipped, key_value_at,
    lemma_first_pos, lemma_section_ops_well_formed, lemma_set_value_well_formed, line_key,
    line_value, lookup, lookup_exec, reset_section, reset_section_exec, sections_view,
    sections_well_formed, set_value, set_value_exec, sub_string,
};
use crate::strings::{str_to_chars, trim, trim_bounds};

verus! {

//----------------------------------------------------------------------------------------------
// Model

/// One line of a process configuration, applied to (current section, sections)
pub open spec fn section_line(st: (Option<Seq<char>>, SectionsView), line: Seq<char>) -> (
    Option<Seq<char>>,
    SectionsView,
) {
    let t = trim(line);
    if is_skipped(t) {
        st
    } else if is_header(t) {
        (Some(header_name(t)), reset_section(st.1, header_name(t)))
    } else if st.0 is Some && first_pos(t, '=') >= 0 {
        (st.0, set_value(st.1, st.0->0, line_key(t), line_value(t)))
    } else {
        st
    }
}

/// The lines of a text (separated by '\n'), applied in order
pub open spec fn section_lines(st: (Option<Seq<char>>, SectionsView), rest: Seq<char>) -> (
    Option<Seq<char>>,
    SectionsView,
)
    decreases rest.len(),
{
    let i = first_pos(rest, '\n');
    if i < 0 {
        section_line(st, rest)
    } else {
        proof {
            lemma_first_pos(rest, '\n');
        }
        section_lines(section_line(st, rest.take(i)), rest.skip(i + 1))
    }
}

/// The sections of a process configuration text
pub open spec fn sections_parse(text: Seq<char>) -> SectionsView {
    section_lines((None, Seq::empty()), text).1
}

/// Every line keeps section names and keys unique
pub proof fn lemma_section_lines_well_formed(st: (Option<Seq<char>>, SectionsView), rest: Seq<char>)
    requires
        sections_well_formed(st.1),
    ensures
        sections_well_formed(section_lines(st, rest).1),
    decreases rest.len(),
{
    lemma_section_line_well_formed(st, rest);
    let i = first_pos(rest, '\n');
    if i >= 0 {
        lemma_first_pos(rest, '\n');
        lemma_section_line_well_formed(st, rest.take(i));
        lemma_section_lines_well_formed(section_line(st, rest.take(i)), rest.skip(i + 1));
    }
}

/// A line keeps section names and keys unique
pub proof fn lemma_section_line_well_formed(st: (Option<Seq<char>>, SectionsView), line: Seq<char>)
    requires
        sections_well_formed(st.1),
    ensures
        sections_well_formed(section_line(st, line).1),
{
    let t = trim(line);
    lemma_section_ops_well_formed(st.1, header_name(t));
    if st.0 is Some {
        lemma_set_value_well_formed(st.1, st.0->0, line_key(t), line_value(t));
    }
}

//----------------------------------------------------------------------------------------------
// Sections

/// The sections of a configuration file
pub struct Sections(Vec<Section>);

impl View for Sections {
    type V = SectionsView;

    closed spec fn view(&self) -> SectionsView {
        sections_view(self.0@)
    }
}

impl Sections {
    /// The sections given by the text of a configuration file
    pub fn from_text(content: &str) -> (r: Sections)
        ensures
            r@ == sections_parse(content@),
            sections_well_formed(r@),
    {
        let chars = str_to_chars(content);
        let mut items: Vec<Section> = Vec::new();
        let mut current: Option<String> = None;
        let mut pos: usize = 0;
        assert(chars@.skip(0) =~= chars@);
        assert(sections_view(items@) =~= Seq::empty());
        proof {
            lemma_section_lines_well_formed((None, Seq::empty()), content@);
        }
        loop
            invariant
                pos <= chars@.len(),
                chars@ == content@,
                sections_well_formed(sections_parse(content@)),
                sections_parse(content@) == section_lines(
                    (opt_view(current), sections_view(items@)),
                    chars@.skip(pos as int),
                ).1,
            decreases chars@.len() - pos,
        {
            let len = chars.len();
            let ghost rest = chars@.skip(pos as int);
            assert(rest =~= chars@.subrange(pos as int, len as int));
            match find_char_in(chars.as_slice(), pos, len, '\n') {
                None => {
                    apply_section_line(&mut current, &mut items, chars.as_slice(), pos, len);
                    return Sections(items);
                },
                Some(j) => {
                    assert(rest.take(j - pos) =~= chars@.subrange(pos as int, j as int));
                    assert(rest.skip(j - pos + 1) =~= chars@.skip(j + 1));
                    apply_section_line(&mut current, &mut items, chars.as_slice(), pos, j);
                    pos = j + 1;
                },
            }
        }
    }

    /// The value of a key in a section
    pub fn get_value(&self, section: &str, key: &str) -> (r: Option<&String>)
        ensures
            match r {
                Some(v) => lookup(self@, section@, key@) == Some(v@),
                None => lookup(self@, section@, key@) == None::<Seq<char>>,
            },
    {
        lookup_exec(&self.0, section, key)
    }

    /// The sections, in the order in which they first appeared
    pub fn iterate(&self) -> (it: SectionIter<'_>)
        ensures
            sections_view(it.seq()) == self@,
            it.pos() == 0,
    {
        SectionIter::new(&self.0)
    }
}

impl Default for Sections {
    fn default() -> (r: Sections)
        ensures
            r@ == Seq::<(Seq<char>, Seq<(Seq<char>, Seq<char>)>)>::empty(),
    {
        let r = Sections(Vec::new());
        assert(r@ =~= Seq::<(Seq<char>, Seq<(Seq<char>, Seq<char>)>)>::empty());
        r
    }
}

pub open spec fn opt_view(o: Option<String>) -> Option<Seq<char>> {
    match o {
        Some(s) => Some(s@),
        None => None,
    }
}

/// Applies the line s[from..to]
fn apply_section_line(
    current: &mut Option<String>,
    secs: &mut Vec<Section>,
    s: &[char],
    from: usize,
    to: usize,
)
    requires
        from <= to <= s@.len(),
    ensures
        (opt_view(*final(current)), sections_view(final(secs)@)) == section_line(
            (opt_view(*old(current)), sections_view(old(secs)@)),
            s@.subrange(from as int, to as int),
        ),
{
    let (a, b) = trim_bounds(s, from, to);
    let ghost t = s@.subrange(a as int, b as int);
    if a == b || s[a] == '#' {
        return;
    }
    if s[a] == '[' && s[b - 1] == ']' {
        let name = sub_string(s, a + 1, b - 1);
        assert(name@ =~= header_name(t));
        reset_section_exec(secs, &name);
        *current = Some(name);
        return;
    }
    match current {
        None => {},
        Some(sec) => {
            match find_char_in(s, a, b, '=') {
                None => {},
                Some(e) => {
                    let (k, v) = key_value_at(s, a, e, b);
                    set_value_exec(secs, sec, k, v);
                },
            }
        },
    }
}

//----------------------------------------------------------------------------------------------
// ProcessConfig

/// Name, file paths and configuration sections of a daemon process
pub struct ProcessConfig {
    name: &'static str,
    pid_fpath: &'static str,
    cwd: &'static str,
    stdio: &'static str,
    sections: Sections,
}

impl ProcessConfig {
    pub closed spec fn name_view(&self) -> Seq<char> {
        self.name@
    }

    pub closed spec fn pid_fpath_view(&self) -> Seq<char> {
        self.pid_fpath@
    }

    pub closed spec fn cwd_view(&self) -> Seq<char> {
        self.cwd@
    }

    pub closed spec fn stdio_view(&self) -> Seq<char> {
        self.stdio@
    }

    pub closed spec fn sections_view(&self) -> SectionsView {
        self.sections@
    }

    /// A process configuration with the sections of a configuration text
    pub fn new(
        name: &'static str,
        pid_fpath: &'static str,
        cfg_content: &str,
        cwd: &'static str,
        stdio: &'static str,
    ) -> (c: ProcessConfig)
        ensures
            c.name_view() == name@,
            c.pid_fpath_view() == pid_fpath@,
            c.cwd_view() == cwd@,
            c.stdio_view() == stdio@,
            c.sections_view() == sections_parse(cfg_content@),
    {
        let sections = Sections::from_text(cfg_content);
        ProcessConfig { name, pid_fpath, cwd, stdio, sections }
    }

    pub fn name(&self) -> (r: &'static str)
        ensures
            r@ == self.name_view(),
    {
        self.name
    }

    pub fn pid_fpath(&self) -> (r: &'static str)
        ensures
            r@ == self.pid_fpath_view(),
    {
        self.pid_fpath
    }

    pub fn cwd(&self) -> (r: &'static str)
        ensures
            r@ == self.cwd_view(),
    {
        self.cwd
    }

    pub fn stdio(&self) -> (r: &'static str)
        ensures
            r@ == self.stdio_view(),
    {
        self.stdio
    }

    pub fn sections(&self) -> (r: &Sections)
        ensures
            r@ == self.sections_view(),
    {
        &self.sections
    }
}

impl Default for ProcessConfig {
    fn default() -> (c: ProcessConfig)
        ensures
            c.name_view() == "xcpd"@,
            c.cwd_view() == "/"@,
            c.stdio_view() == "/dev/null"@,
            c.pid_fpath_view() == "/var/run/xcpd.pid"@,
            c.sections_view() == Seq::<(Seq<char>, Seq<(Seq<char>, Seq<char>)>)>::empty(),
    {
        ProcessConfig {
            name: "xcpd",
            cwd: "/",
            stdio: "/dev/null",
            pid_fpath: "/var/run/xcpd.pid",
            sections: Sections::default(),
        }
    }
}

/// A process that a daemon runs: set up, run, and shut down
pub trait Process {
    type Error;

    fn init(&mut self) -> Result<(), Self::Error>;

    fn run(&mut self) -> Result<(), Self::Error>;

    fn deinit(&mut self) -> Result<(), Self::Error>;

    fn config(&self) -> &ProcessConfig;
}

} // verus!
