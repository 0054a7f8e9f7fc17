//! The languages of a project, from the files that mark one and the lines of code.
use vstd::prelude::*;
use crate::collect::loc;
use crate::collect::loc::Scan;
use crate::strings;
use crate::strings::{ends_with, same, starts_with};

verus! {

#[derive(Clone, Copy, Debug, PartialEq, Eq, PartialOrd, Ord, Structural)]
pub enum Language {
    Rust,
    Python,
    TypeScript,
    JavaScript,
    Go,
}

pub open spec fn language_name(language: Language) -> Seq<char> {
    match language {
        Language::Rust => "Rust"@,
        Language::Python => "Python"@,
        Language::TypeScript => "TypeScript"@,
        Language::JavaScript => "JavaScript"@,
        Language::Go => "Go"@,
    }
}

impl Language {
    pub fn name(self) -> (name: &'static str)
        ensures
            name@ == language_name(self),
    {
        match self {
            Language::Rust => "Rust",
            Language::Python => "Python",
            Language::TypeScript => "TypeScript",
            Language::JavaScript => "JavaScript",
            Language::Go => "Go",
        }
    }
}

#[derive(Clone, Debug)]
pub struct Detection {
    pub primary: Option<Language>,
    pub detected: Vec<Language>,
    pub bun: bool,
}

/// The files of a directory that may mark a project, by their names.
#[derive(Clone, Debug)]
pub struct Level {
    pub files: Vec<String>,
}

/// A file of this name marks a project of the language.
pub open spec fn marks(name: Seq<char>, language: Language) -> bool {
    match language {
        Language::Rust => name == "Cargo.toml"@,
        Language::Python => name == "pyproject.toml"@ || name == "uv.lock"@ || name == "Pipfile"@
            || (strings::begins_with(name, "requirements"@) && strings::finishes_with(
            name,
            ".txt"@,
        )),
        Language::TypeScript => name == "tsconfig.json"@,
        Language::JavaScript => name == "package.json"@ || name == "package-lock.json"@ || name
            == "yarn.lock"@ || name == "pnpm-lock.yaml"@,
        Language::Go => name == "go.mod"@,
    }
}

/// A file of this name marks a project that runs on Bun.
pub open spec fn marks_bun(name: Seq<char>) -> bool {
    name == "bun.lock"@ || name == "bun.lockb"@ || name == "bunfig.toml"@
}

/// What a marker is looked for: a language, or Bun.
#[derive(Clone, Copy, Debug, PartialEq, Eq, Structural)]
pub enum Marked {
    Language(Language),
    Bun,
}

pub open spec fn marked(name: Seq<char>, what: Marked) -> bool {
    match what {
        Marked::Language(language) => marks(name, language),
        Marked::Bun => marks_bun(name),
    }
}

/// Whether a file of this name is a marker.
pub fn is_marker(name: &str, what: Marked) -> (yes: bool)
    ensures
        yes == marked(name@, what),
{
    match what {
        Marked::Language(Language::Rust) => same(name, "Cargo.toml"),
        Marked::Language(Language::Python) => same(name, "pyproject.toml") || same(name, "uv.lock")
            || same(name, "Pipfile") || (starts_with(name, "requirements") && ends_with(
            name,
            ".txt",
        )),
        Marked::Language(Language::TypeScript) => same(name, "tsconfig.json"),
        Marked::Language(Language::JavaScript) => same(name, "package.json") || same(
            name,
            "package-lock.json",
        ) || same(name, "yarn.lock") || same(name, "pnpm-lock.yaml"),
        Marked::Language(Language::Go) => same(name, "go.mod"),
        Marked::Bun => same(name, "bun.lock") || same(name, "bun.lockb") || same(
            name,
            "bunfig.toml",
        ),
    }
}

/// The names that are looked for in every directory; a listing finds the others.
pub fn fixed_markers() -> (names: Vec<&'static str>)
    ensures
        names@.len() == 13,
        forall|i: int|
            0 <= i < names@.len() ==> marks_bun((#[trigger] names@[i])@) || exists|
                language: Language,
            | #[trigger] marks(names@[i]@, language),
        forall|name: Seq<char>, language: Language| #[trigger]
            marks(name, language) && !strings::begins_with(name, "requirements"@) ==> exists|i: int|
                0 <= i < names@.len() && #[trigger] names@[i]@ == name,
        forall|name: Seq<char>| #[trigger]
            marks_bun(name) ==> exists|i: int| 0 <= i < names@.len() && #[trigger] names@[i]@ == name,
{
    let mut names: Vec<&'static str> = Vec::new();
    names.push("Cargo.toml");
    names.push("pyproject.toml");
    names.push("uv.lock");
    names.push("Pipfile");
    names.push("tsconfig.json");
    names.push("package.json");
    names.push("package-lock.json");
    names.push("yarn.lock");
    names.push("pnpm-lock.yaml");
    names.push("go.mod");
    names.push("bun.lock");
    names.push("bun.lockb");
    names.push("bunfig.toml");
    proof {
        let n = names@;
        assert(marks(n[0]@, Language::Rust));
        assert(marks(n[1]@, Language::Python));
        assert(marks(n[2]@, Language::Python));
        assert(marks(n[3]@, Language::Python));
        assert(marks(n[4]@, Language::TypeScript));
        assert(marks(n[5]@, Language::JavaScript));
        assert(marks(n[6]@, Language::JavaScript));
        assert(marks(n[7]@, Language::JavaScript));
        assert(marks(n[8]@, Language::JavaScript));
        assert(marks(n[9]@, Language::Go));
        assert(marks_bun(n[10]@));
        assert(marks_bun(n[11]@));
        assert(marks_bun(n[12]@));
    }
    names
}

pub open spec fn level_marked(level: Level, what: Marked) -> bool {
    exists|i: int| 0 <= i < level.files@.len() && marked(#[trigger] level.files@[i]@, what)
}

fn has_marker(level: &Level, what: Marked) -> (yes: bool)
    ensures
        yes == level_marked(*level, what),
{
    let mut at: usize = 0;
    while at < level.files.len()
        invariant
            at <= level.files@.len(),
            forall|i: int| 0 <= i < at ==> !marked(#[trigger] level.files@[i]@, what),
        decreases level.files@.len() - at,
    {
        if is_marker(level.files[at].as_str(), what) {
            assert(marked(level.files@[at as int]@, what));
            return true;
        }
        at = at + 1;
    }
    false
}

/// How far up the nearest marker stands, from one directory on.
pub open spec fn distance_from(levels: Seq<Level>, what: Marked, from: nat) -> Option<nat>
    decreases levels.len() - from,
{
    if from >= levels.len() {
        None
    } else if level_marked(levels[from as int], what) {
        Some(from)
    } else {
        distance_from(levels, what, from + 1)
    }
}

/// How far up the nearest marker stands: the working directory is no distance away.
pub open spec fn distance(levels: Seq<Level>, what: Marked) -> Option<nat> {
    distance_from(levels, what, 0)
}

pub open spec fn distance_view(found: Option<usize>) -> Option<nat> {
    match found {
        Some(distance) => Some(distance as nat),
        None => None,
    }
}

/// How far up the nearest marker stands, in the directories from the working directory up to
/// the project's.
pub fn manifest_distance(levels: &Vec<Level>, what: Marked) -> (found: Option<usize>)
    ensures
        distance_view(found) == distance(levels@, what),
{
    let mut at: usize = 0;
    while at < levels.len()
        invariant
            at <= levels@.len(),
            distance(levels@, what) == distance_from(levels@, what, at as nat),
        decreases levels@.len() - at,
    {
        if has_marker(&levels[at], what) {
            return Some(at);
        }
        at = at + 1;
    }
    None
}

/// What tells the languages of a project: the distances of the markers, and the lines.
pub struct Evidence {
    pub rust: Option<nat>,
    pub python: Option<nat>,
    pub tsconfig: Option<nat>,
    pub javascript: Option<nat>,
    pub go: Option<nat>,
    pub bun: Option<nat>,
    pub lines: spec_fn(Language) -> nat,
}

pub open spec fn evidence(levels: Seq<Level>, scan: Scan) -> Evidence {
    Evidence {
        rust: distance(levels, Marked::Language(Language::Rust)),
        python: distance(levels, Marked::Language(Language::Python)),
        tsconfig: distance(levels, Marked::Language(Language::TypeScript)),
        javascript: distance(levels, Marked::Language(Language::JavaScript)),
        go: distance(levels, Marked::Language(Language::Go)),
        bun: distance(levels, Marked::Bun),
        lines: |language: Language| loc::lines_of(scan.lines@, language_name(language)),
    }
}

impl Evidence {
    /// More TypeScript than JavaScript.
    pub open spec fn more_typescript(self) -> bool {
        (self.lines)(Language::TypeScript) > (self.lines)(Language::JavaScript)
    }

    /// A package is a TypeScript one: it says so, or has more of it than of JavaScript.
    pub open spec fn typescript_project(self) -> bool {
        self.tsconfig is Some || (self.javascript is Some && self.more_typescript())
    }

    /// The distance of the nearest marker of a language. A package marks one of the two
    /// that it can be of.
    pub open spec fn marker(self, language: Language) -> Option<nat> {
        match language {
            Language::Rust => self.rust,
            Language::Python => self.python,
            Language::TypeScript => if self.tsconfig is Some {
                self.tsconfig
            } else if self.more_typescript() {
                self.javascript
            } else {
                None
            },
            Language::JavaScript => if self.typescript_project() {
                None
            } else {
                self.javascript
            },
            Language::Go => self.go,
        }
    }

    /// A language is there where a marker or a line of it is.
    pub open spec fn present(self, language: Language) -> bool {
        self.marker(language) is Some || (self.lines)(language) > 0
    }

    /// One language goes before another: its marker is nearer, or as near and it has more
    /// lines. Any marker is nearer than none.
    pub open spec fn goes_before(self, first: Language, second: Language) -> bool {
        let near = far_or(self.marker(first));
        let far = far_or(self.marker(second));
        near < far || (near == far && (self.lines)(first) > (self.lines)(second))
    }
}

/// A distance that is none is farther than any.
pub open spec fn far_or(distance: Option<nat>) -> int {
    match distance {
        Some(distance) => distance as int,
        None => usize::MAX as int,
    }
}

/// The languages in their fixed order.
pub open spec fn languages() -> Seq<Language> {
    seq![Language::Rust].push(Language::Python).push(Language::TypeScript).push(
        Language::JavaScript,
    ).push(Language::Go)
}

/// Those of some languages that are there.
pub open spec fn present_of(evidence: Evidence, languages: Seq<Language>) -> Seq<Language>
    decreases languages.len(),
{
    if languages.len() == 0 {
        Seq::empty()
    } else {
        let before = present_of(evidence, languages.drop_last());
        if evidence.present(languages.last()) {
            before.push(languages.last())
        } else {
            before
        }
    }
}

/// The language that goes before all others, and of equals the first one.
pub open spec fn first_of(evidence: Evidence, found: Seq<Language>) -> Option<Language>
    decreases found.len(),
{
    if found.len() == 0 {
        None
    } else {
        match first_of(evidence, found.drop_last()) {
            None => Some(found.last()),
            Some(best) => if evidence.goes_before(found.last(), best) {
                Some(found.last())
            } else {
                Some(best)
            },
        }
    }
}

pub open spec fn detected(levels: Seq<Level>, scan: Scan, detection: Detection) -> bool {
    let evidence = evidence(levels, scan);
    let found = present_of(evidence, languages());
    &&& detection.detected@ == found
    &&& detection.primary == first_of(evidence, found)
    &&& detection.bun == (evidence.bun is Some && (evidence.present(Language::TypeScript)
        || evidence.present(Language::JavaScript)))
}

/// The distance and the lines of one language.
struct Weight {
    language: Language,
    distance: Option<usize>,
    lines: u64,
}

fn push_present(found: &mut Vec<Weight>, weight: Weight)
    ensures
        weight.distance is Some || weight.lines > 0 ==> final(found)@ == old(found)@.push(weight),
        !(weight.distance is Some || weight.lines > 0) ==> final(found)@ == old(found)@,
{
    if weight.distance.is_some() || weight.lines > 0 {
        found.push(weight);
    }
}

/// The weights are those of the languages.
spec fn weighed(evidence: Evidence, found: Seq<Weight>) -> bool {
    forall|i: int|
        0 <= i < found.len() ==> {
            &&& distance_view((#[trigger] found[i]).distance) == evidence.marker(found[i].language)
            &&& found[i].lines == (evidence.lines)(found[i].language)
        }
}

spec fn weight_languages(found: Seq<Weight>) -> Seq<Language> {
    Seq::new(found.len(), |i: int| found[i].language)
}

fn nearest(found: &Vec<Weight>, Ghost(evidence): Ghost<Evidence>) -> (primary: Option<Language>)
    requires
        weighed(evidence, found@),
    ensures
        primary == first_of(evidence, weight_languages(found@)),
{
    let ghost all = weight_languages(found@);
    let mut best: Option<usize> = None;
    let mut at: usize = 0;
    while at < found.len()
        invariant
            at <= found@.len(),
            all == weight_languages(found@),
            weighed(evidence, found@),
            best is Some ==> best->0 < found@.len(),
            first_of(evidence, all.take(at as int)) == match best {
                Some(index) => Some(found@[index as int].language),
                None => None,
            },
        decreases found@.len() - at,
    {
        assert(all.take(at + 1).drop_last() =~= all.take(at as int));
        let candidate = &found[at];
        best = match best {
            None => Some(at),
            Some(index) => {
                let held = &found[index];
                let near: usize = match candidate.distance {
                    Some(distance) => distance,
                    None => usize::MAX,
                };
                let far: usize = match held.distance {
                    Some(distance) => distance,
                    None => usize::MAX,
                };
                if near < far || (near == far && candidate.lines > held.lines) {
                    Some(at)
                } else {
                    Some(index)
                }
            },
        };
        at = at + 1;
    }
    assert(all.take(at as int) =~= all);
    match best {
        Some(index) => Some(found[index].language),
        None => None,
    }
}

fn languages_of(found: &Vec<Weight>) -> (languages: Vec<Language>)
    ensures
        languages@ == weight_languages(found@),
{
    let mut languages: Vec<Language> = Vec::new();
    let mut at: usize = 0;
    while at < found.len()
        invariant
            at <= found@.len(),
            languages@ == weight_languages(found@).take(at as int),
        decreases found@.len() - at,
    {
        languages.push(found[at].language);
        at = at + 1;
        assert(languages@ =~= weight_languages(found@).take(at as int));
    }
    assert(weight_languages(found@).take(at as int) =~= weight_languages(found@));
    languages
}

/// The languages of a project: those that a marker, in one of the directories from the
/// working directory up to the project's, or a line of code tells of. The primary one has
/// the nearest marker, then the most lines, then goes first.
pub fn detect(levels: &Vec<Level>, scan: &Scan) -> (detection: Detection)
    ensures
        detected(levels@, *scan, detection),
{
    let rust = manifest_distance(levels, Marked::Language(Language::Rust));
    let python = manifest_distance(levels, Marked::Language(Language::Python));
    let tsconfig = manifest_distance(levels, Marked::Language(Language::TypeScript));
    let javascript = manifest_distance(levels, Marked::Language(Language::JavaScript));
    let go = manifest_distance(levels, Marked::Language(Language::Go));
    let bun = manifest_distance(levels, Marked::Bun);
    let typescript_lines = scan.count("TypeScript");
    let javascript_lines = scan.count("JavaScript");
    let more_typescript = typescript_lines > javascript_lines;
    let typescript_project = tsconfig.is_some() || (javascript.is_some() && more_typescript);
    let typescript_distance = match tsconfig {
        Some(distance) => Some(distance),
        None => if more_typescript {
            javascript
        } else {
            None
        },
    };
    let javascript_distance = if typescript_project {
        None
    } else {
        javascript
    };
    let ghost facts = evidence(levels@, *scan);
    let mut found: Vec<Weight> = Vec::new();
    let rust_weight = Weight {
        language: Language::Rust,
        distance: rust,
        lines: scan.count("Rust"),
    };
    let python_weight = Weight {
        language: Language::Python,
        distance: python,
        lines: scan.count("Python"),
    };
    let typescript_weight = Weight {
        language: Language::TypeScript,
        distance: typescript_distance,
        lines: typescript_lines,
    };
    let javascript_weight = Weight {
        language: Language::JavaScript,
        distance: javascript_distance,
        lines: javascript_lines,
    };
    let go_weight = Weight { language: Language::Go, distance: go, lines: scan.count("Go") };
    let has_typescript = typescript_distance.is_some() || typescript_lines > 0;
    let has_javascript = javascript_distance.is_some() || javascript_lines > 0;
    let ghost all = languages();
    assert(weight_languages(found@) =~= present_of(facts, all.take(0)));
    push_present(&mut found, rust_weight);
    assert(all.take(1).drop_last() =~= all.take(0));
    assert(weight_languages(found@) =~= present_of(facts, all.take(1)));
    push_present(&mut found, python_weight);
    assert(all.take(2).drop_last() =~= all.take(1));
    assert(weight_languages(found@) =~= present_of(facts, all.take(2)));
    push_present(&mut found, typescript_weight);
    assert(all.take(3).drop_last() =~= all.take(2));
    assert(weight_languages(found@) =~= present_of(facts, all.take(3)));
    push_present(&mut found, javascript_weight);
    assert(all.take(4).drop_last() =~= all.take(3));
    assert(weight_languages(found@) =~= present_of(facts, all.take(4)));
    push_present(&mut found, go_weight);
    assert(all.take(5).drop_last() =~= all.take(4));
    assert(weight_languages(found@) =~= present_of(facts, all.take(5)));
    assert(all.take(5) =~= all);
    let primary = nearest(&found, Ghost(facts));
    Detection {
        primary,
        detected: languages_of(&found),
        bun: bun.is_some() && (has_typescript || has_javascript),
    }
}

/// The primary language is one of those found, there is one wherever one is found, and no
/// other goes before it.
pub proof fn law_primary_language_goes_first(levels: Seq<Level>, scan: Scan)
    ensures
        ({
            let evidence = evidence(levels, scan);
            let found = present_of(evidence, languages());
            let primary = first_of(evidence, found);
            &&& primary is Some == (found.len() > 0)
            &&& primary is Some ==> found.contains(primary->0) && forall|i: int|
                0 <= i < found.len() ==> !evidence.goes_before(#[trigger] found[i], primary->0)
        }),
{
    lemma_first_of(evidence(levels, scan), present_of(evidence(levels, scan), languages()));
}

proof fn lemma_first_of(evidence: Evidence, found: Seq<Language>)
    ensures
        first_of(evidence, found) is Some == (found.len() > 0),
        found.len() > 0 ==> found.contains(first_of(evidence, found)->0) && forall|i: int|
            0 <= i < found.len() ==> !evidence.goes_before(
                #[trigger] found[i],
                first_of(evidence, found)->0,
            ),
    decreases found.len(),
{
    if found.len() > 0 {
        let front = found.drop_last();
        lemma_first_of(evidence, front);
        let best = first_of(evidence, found)->0;
        if best == found.last() {
            assert(found[found.len() - 1] == best);
        } else {
            let i = choose|i: int| 0 <= i < front.len() && front[i] == best;
            assert(found[i] == best);
        }
        assert forall|i: int| 0 <= i < found.len() implies !evidence.goes_before(
            #[trigger] found[i],
            best,
        ) by {
            if i < front.len() {
                assert(front[i] == found[i]);
            }
        }
    }
}

} // verus!
