//! The lines of code of a worktree, counted within budgets.
use vstd::prelude::*;
use crate::collect::system;
use crate::collect::system::diagnostic;
use crate::limits::Limits;
use crate::model;
use crate::model::{push_diagnostic, CountUnit, Diagnostic, LanguageLoc, Loc};
use crate::strings;
use crate::strings::{join, same};

verus! {

/// The lines of every language, by its name.
#[derive(Clone, Debug)]
pub struct Scan {
    pub lines: Vec<(String, u64)>,
    pub truncated: bool,
    /// When the newest file was modified, in nanoseconds.
    pub newest_source: Option<i128>,
}

/// The lines under a name, and none where it is not there.
pub open spec fn lines_of(lines: Seq<(String, u64)>, name: Seq<char>) -> nat
    decreases lines.len(),
{
    if lines.len() == 0 {
        0
    } else if lines[0].0@ == name {
        lines[0].1 as nat
    } else {
        lines_of(lines.skip(1), name)
    }
}

/// The lines of all languages.
pub open spec fn all_lines(lines: Seq<(String, u64)>) -> nat
    decreases lines.len(),
{
    if lines.len() == 0 {
        0
    } else {
        all_lines(lines.drop_last()) + lines.last().1 as nat
    }
}

/// The names stand in order, each once.
pub open spec fn ascending(lines: Seq<(Seq<char>, u64)>) -> bool {
    forall|i: int, j: int|
        0 <= i < j < lines.len() ==> strings::precedes(
            (#[trigger] lines[i]).0,
            (#[trigger] lines[j]).0,
        )
}

/// The entries by their names and lines.
pub open spec fn entry_views(entries: Seq<LanguageLoc>) -> Seq<(Seq<char>, u64)> {
    Seq::new(entries.len(), |i: int| (entries[i].language@, entries[i].lines))
}

/// The lines under a name, entry by entry.
pub open spec fn lines_named(lines: Seq<(String, u64)>, name: Seq<char>) -> Seq<(String, u64)>
    decreases lines.len(),
{
    if lines.len() == 0 {
        Seq::empty()
    } else if lines.last().0@ == name {
        lines_named(lines.drop_last(), name).push(lines.last())
    } else {
        lines_named(lines.drop_last(), name)
    }
}

/// The lines that a card is about: of all languages in full, else of the primary one.
pub open spec fn shown_lines(
    lines: Seq<(String, u64)>,
    full: bool,
    primary: Option<Seq<char>>,
) -> Seq<(String, u64)> {
    if full {
        lines
    } else {
        match primary {
            Some(name) => lines_named(lines, name),
            None => Seq::empty(),
        }
    }
}

impl Scan {
    /// Each name stands once, and all stand in order.
    pub open spec fn sound(self) -> bool {
        ascending(line_views(self.lines@))
    }

    /// The lines of one language.
    pub fn count(&self, language: &str) -> (lines: u64)
        ensures
            lines == lines_of(self.lines@, language@),
    {
        let mut at: usize = 0;
        assert(self.lines@.skip(0) =~= self.lines@);
        while at < self.lines.len()
            invariant
                at <= self.lines@.len(),
                lines_of(self.lines@, language@) == lines_of(
                    self.lines@.skip(at as int),
                    language@,
                ),
            decreases self.lines@.len() - at,
        {
            assert(self.lines@.skip(at as int)[0] == self.lines@[at as int]);
            assert(self.lines@.skip(at as int).skip(1) =~= self.lines@.skip(at + 1));
            if same(self.lines[at].0.as_str(), language) {
                return self.lines[at].1;
            }
            at = at + 1;
        }
        0
    }

    /// The lines as the card shows them: every language in order, and all together.
    pub fn into_model(self) -> (loc: Loc)
        requires
            all_lines(self.lines@) <= u64::MAX,
        ensures
            loc.total == all_lines(self.lines@),
            loc.unit == CountUnit::Lines,
            loc.truncated == self.truncated,
            loc.by_language@.len() == self.lines@.len(),
            forall|i: int|
                0 <= i < loc.by_language@.len() ==> {
                    &&& (#[trigger] loc.by_language@[i]).language@ == self.lines@[i].0@
                    &&& loc.by_language@[i].lines == self.lines@[i].1
                    &&& loc.by_language@[i].unit == CountUnit::Lines
                },
            model::lines_sum(loc.by_language@) == loc.total,
            entry_views(loc.by_language@) == line_views(self.lines@),
            self.sound() ==> ascending(entry_views(loc.by_language@)),
            self.sound() ==> forall|i: int|
                0 <= i < loc.by_language@.len() ==> (#[trigger] loc.by_language@[i]).lines
                    == lines_of(self.lines@, loc.by_language@[i].language@),
    {
        let mut total: u64 = 0;
        let mut by_language: Vec<LanguageLoc> = Vec::new();
        let mut at: usize = 0;
        while at < self.lines.len()
            invariant
                at <= self.lines@.len(),
                all_lines(self.lines@) <= u64::MAX,
                total == all_lines(self.lines@.take(at as int)),
                total == model::lines_sum(by_language@),
                by_language@.len() == at,
                forall|i: int|
                    0 <= i < at ==> {
                        &&& (#[trigger] by_language@[i]).language@ == self.lines@[i].0@
                        &&& by_language@[i].lines == self.lines@[i].1
                        &&& by_language@[i].unit == CountUnit::Lines
                    },
            decreases self.lines@.len() - at,
        {
            proof {
                assert(self.lines@.take(at + 1).drop_last() =~= self.lines@.take(at as int));
                lemma_all_lines_prefix(self.lines@, at + 1);
            }
            let ghost held = by_language@;
            by_language.push(
                LanguageLoc {
                    language: self.lines[at].0.as_str().to_owned(),
                    lines: self.lines[at].1,
                    unit: CountUnit::Lines,
                },
            );
            assert(by_language@.drop_last() =~= held);
            total = total + self.lines[at].1;
            at = at + 1;
        }
        proof {
            assert(self.lines@.take(at as int) =~= self.lines@);
            assert(entry_views(by_language@) =~= line_views(self.lines@));
            if self.sound() {
                assert forall|i: int| 0 <= i < by_language@.len() implies (
                #[trigger] by_language@[i]).lines == lines_of(
                    self.lines@,
                    by_language@[i].language@,
                ) by {
                    lemma_lines_of_entry(self.lines@, i);
                }
            }
        }
        Loc { total, unit: CountUnit::Lines, truncated: self.truncated, by_language }
    }

    /// What a card is about: all languages in full, else the primary one alone.
    pub fn shown(self, full: bool, primary: Option<&str>) -> (shown: Scan)
        ensures
            line_views(shown.lines@) == line_views(
                shown_lines(self.lines@, full, strings::optional_str(primary)),
            ),
            all_lines(shown.lines@) == all_lines(
                shown_lines(self.lines@, full, strings::optional_str(primary)),
            ),
            all_lines(shown.lines@) <= all_lines(self.lines@),
            self.sound() ==> shown.sound(),
            shown.truncated == self.truncated,
            shown.newest_source == self.newest_source,
    {
        if full {
            return self;
        }
        let mut lines: Vec<(String, u64)> = Vec::new();
        if let Some(name) = primary {
            let mut at: usize = 0;
            assert(line_views(lines@) =~= line_views(lines_named(self.lines@.take(0), name@)));
            while at < self.lines.len()
                invariant
                    at <= self.lines@.len(),
                    line_views(lines@) == line_views(
                        lines_named(self.lines@.take(at as int), name@),
                    ),
                    all_lines(lines@) == all_lines(
                        lines_named(self.lines@.take(at as int), name@),
                    ),
                decreases self.lines@.len() - at,
            {
                let ghost held = lines@;
                let ghost found = lines_named(self.lines@.take(at as int), name@);
                assert(self.lines@.take(at + 1).drop_last() =~= self.lines@.take(at as int));
                if same(self.lines[at].0.as_str(), name) {
                    lines.push((self.lines[at].0.as_str().to_owned(), self.lines[at].1));
                    proof {
                        let more = found.push(self.lines@[at as int]);
                        assert(lines@.drop_last() =~= held);
                        assert(more.drop_last() =~= found);
                        assert(line_views(held).len() == line_views(found).len());
                        assert forall|i: int| 0 <= i < lines@.len() implies line_views(
                            lines@,
                        )[i] == line_views(more)[i] by {
                            if i < held.len() {
                                assert(line_views(held)[i] == line_views(found)[i]);
                            }
                        }
                        assert(line_views(lines@) =~= line_views(more));
                    }
                }
                at = at + 1;
            }
            proof {
                assert(self.lines@.take(at as int) =~= self.lines@);
                lemma_lines_named(self.lines@, name@);
                let shown = lines_named(self.lines@, name@);
                assert(line_views(lines@).len() == line_views(shown).len());
            }
        } else {
            assert(line_views(lines@) =~= line_views(Seq::empty()));
        }
        Scan { lines, truncated: self.truncated, newest_source: self.newest_source }
    }
}

proof fn lemma_ascending_part(lines: Seq<(String, u64)>, from: int, to: int)
    requires
        ascending(line_views(lines)),
        0 <= from <= to <= lines.len(),
    ensures
        ascending(line_views(lines.subrange(from, to))),
{
    let all = line_views(lines);
    let part = line_views(lines.subrange(from, to));
    assert forall|i: int, j: int| 0 <= i < j < part.len() implies strings::precedes(
        (#[trigger] part[i]).0,
        (#[trigger] part[j]).0,
    ) by {
        assert(part[i] == all[from + i] && part[j] == all[from + j]);
    }
}

proof fn lemma_names_differ(lines: Seq<(String, u64)>, i: int, j: int)
    requires
        ascending(line_views(lines)),
        0 <= i < j < lines.len(),
    ensures
        lines[i].0@ != lines[j].0@,
{
    assert(line_views(lines)[i] == (lines[i].0@, lines[i].1));
    assert(line_views(lines)[j] == (lines[j].0@, lines[j].1));
    strings::lemma_precedes_is_strict(lines[i].0@);
}

/// Where each name stands once, the lines under it are those of its entry.
proof fn lemma_lines_of_entry(lines: Seq<(String, u64)>, at: int)
    requires
        ascending(line_views(lines)),
        0 <= at < lines.len(),
    ensures
        lines_of(lines, lines[at].0@) == lines[at].1,
    decreases lines.len(),
{
    if at > 0 {
        lemma_names_differ(lines, 0, at);
        lemma_ascending_part(lines, 1, lines.len() as int);
        assert(lines.skip(1) =~= lines.subrange(1, lines.len() as int));
        assert(lines.skip(1)[at - 1] == lines[at]);
        lemma_lines_of_entry(lines.skip(1), at - 1);
    }
}

proof fn lemma_lines_of_absent(lines: Seq<(String, u64)>, name: Seq<char>)
    requires
        forall|i: int| 0 <= i < lines.len() ==> (#[trigger] lines[i]).0@ != name,
    ensures
        lines_of(lines, name) == 0,
    decreases lines.len(),
{
    if lines.len() > 0 {
        assert forall|i: int| 0 <= i < lines.skip(1).len() implies (
        #[trigger] lines.skip(1)[i]).0@ != name by {
            assert(lines.skip(1)[i] == lines[i + 1]);
        }
        lemma_lines_of_absent(lines.skip(1), name);
    }
}

/// The entries of a name are some of all, and one at most where each name stands once.
proof fn lemma_lines_named(lines: Seq<(String, u64)>, name: Seq<char>)
    ensures
        all_lines(lines_named(lines, name)) <= all_lines(lines),
        forall|i: int|
            0 <= i < lines_named(lines, name).len() ==> (#[trigger] lines_named(
                lines,
                name,
            )[i]).0@ == name,
        lines_named(lines, name).len() == 0 ==> forall|i: int|
            0 <= i < lines.len() ==> (#[trigger] lines[i]).0@ != name,
        ascending(line_views(lines)) ==> lines_named(lines, name).len() <= 1,
        ascending(line_views(lines)) ==> all_lines(lines_named(lines, name)) == lines_of(
            lines,
            name,
        ),
    decreases lines.len(),
{
    if lines.len() > 0 {
        let front = lines.drop_last();
        let before = lines_named(front, name);
        let last = lines.len() - 1;
        lemma_lines_named(front, name);
        if lines.last().0@ == name {
            assert(lines_named(lines, name).drop_last() =~= before);
        }
        if ascending(line_views(lines)) {
            assert(front =~= lines.subrange(0, last));
            lemma_ascending_part(lines, 0, last);
            if lines.last().0@ == name {
                assert forall|i: int| 0 <= i < front.len() implies (#[trigger] front[i]).0@
                    != name by {
                    lemma_names_differ(lines, i, last);
                }
                lemma_lines_named_absent(front, name);
                lemma_lines_of_entry(lines, last);
            } else if before.len() == 0 {
                lemma_lines_of_absent(front, name);
                assert forall|i: int| 0 <= i < lines.len() implies (#[trigger] lines[i]).0@
                    != name by {
                    if i < last {
                        assert(front[i] == lines[i]);
                    }
                }
                lemma_lines_of_absent(lines, name);
            } else {
                let at = choose|i: int| 0 <= i < front.len() && (#[trigger] front[i]).0@ == name;
                assert(exists|i: int| 0 <= i < front.len() && (#[trigger] front[i]).0@ == name)
                    by {
                    lemma_lines_named_present(front, name);
                }
                lemma_lines_of_entry(front, at);
                assert(lines[at] == front[at]);
                lemma_lines_of_entry(lines, at);
            }
        }
        assert forall|i: int| 0 <= i < lines.len() && lines_named(lines, name).len()
            == 0 implies (#[trigger] lines[i]).0@ != name by {
            if i < last {
                assert(front[i] == lines[i]);
            }
        }
    }
}

proof fn lemma_lines_named_absent(lines: Seq<(String, u64)>, name: Seq<char>)
    requires
        forall|i: int| 0 <= i < lines.len() ==> (#[trigger] lines[i]).0@ != name,
    ensures
        lines_named(lines, name).len() == 0,
    decreases lines.len(),
{
    if lines.len() > 0 {
        assert(lines[lines.len() - 1].0@ != name);
        assert forall|i: int| 0 <= i < lines.drop_last().len() implies (
        #[trigger] lines.drop_last()[i]).0@ != name by {
            assert(lines.drop_last()[i] == lines[i]);
        }
        lemma_lines_named_absent(lines.drop_last(), name);
    }
}

proof fn lemma_lines_named_present(lines: Seq<(String, u64)>, name: Seq<char>)
    requires
        lines_named(lines, name).len() > 0,
    ensures
        exists|i: int| 0 <= i < lines.len() && (#[trigger] lines[i]).0@ == name,
{
    if forall|i: int| 0 <= i < lines.len() ==> (#[trigger] lines[i]).0@ != name {
        lemma_lines_named_absent(lines, name);
    }
}

/// A card that is not full is about the primary language alone: it has one entry at most,
/// which holds all that was counted of that language.
pub proof fn law_normal_cards_count_the_primary_language(scan: Scan, name: Seq<char>)
    requires
        scan.sound(),
    ensures
        shown_lines(scan.lines@, false, Some(name)).len() <= 1,
        all_lines(shown_lines(scan.lines@, false, Some(name))) == lines_of(scan.lines@, name),
        forall|i: int|
            0 <= i < shown_lines(scan.lines@, false, Some(name)).len() ==> (
            #[trigger] shown_lines(scan.lines@, false, Some(name))[i]).0@ == name,
        shown_lines(scan.lines@, false, None).len() == 0,
        shown_lines(scan.lines@, true, Some(name)) == scan.lines@,
{
    lemma_lines_named(scan.lines@, name);
}

/// All names begin with a character below this one.
spec fn begin_below(lines: Seq<(Seq<char>, u64)>, bound: char) -> bool {
    forall|i: int|
        0 <= i < lines.len() ==> (#[trigger] lines[i]).0.len() > 0 && lines[i].0[0] < bound
}

proof fn lemma_with_count_ascends(
    lines: Seq<(Seq<char>, u64)>,
    name: Seq<char>,
    count: Option<u64>,
    bound: char,
)
    requires
        ascending(lines),
        name.len() > 0,
        begin_below(lines, name[0]),
        name[0] < bound,
    ensures
        ascending(with_count(lines, name, count)),
        begin_below(with_count(lines, name, count), bound),
{
    let more = with_count(lines, name, count);
    assert forall|i: int, j: int| 0 <= i < j < more.len() implies strings::precedes(
        (#[trigger] more[i]).0,
        (#[trigger] more[j]).0,
    ) by {
        assert(more[i] == lines[i]);
        if j < lines.len() {
            assert(more[j] == lines[j]);
        }
    }
    assert forall|i: int| 0 <= i < more.len() implies (#[trigger] more[i]).0.len() > 0
        && more[i].0[0] < bound by {
        if i < lines.len() {
            assert(more[i] == lines[i]);
        }
    }
}

proof fn lemma_lines_ascend(run: ScanRun)
    ensures
        ascending(run.lines()),
{
    reveal_strlit("Go");
    reveal_strlit("JavaScript");
    reveal_strlit("Other");
    reveal_strlit("Python");
    reveal_strlit("Rust");
    reveal_strlit("TypeScript");
    let none = Seq::<(Seq<char>, u64)>::empty();
    let counts = run.counts;
    lemma_with_count_ascends(none, "Go"@, counts.go, 'J');
    let first = with_count(none, "Go"@, counts.go);
    lemma_with_count_ascends(first, "JavaScript"@, counts.javascript, 'O');
    let second = with_count(first, "JavaScript"@, counts.javascript);
    lemma_with_count_ascends(second, "Other"@, counts.other, 'P');
    let third = with_count(second, "Other"@, counts.other);
    lemma_with_count_ascends(third, "Python"@, counts.python, 'R');
    let fourth = with_count(third, "Python"@, counts.python);
    lemma_with_count_ascends(fourth, "Rust"@, counts.rust, 'T');
    let fifth = with_count(fourth, "Rust"@, counts.rust);
    lemma_with_count_ascends(fifth, "TypeScript"@, counts.typescript, 'U');
}

proof fn lemma_all_lines_prefix(lines: Seq<(String, u64)>, count: int)
    requires
        0 <= count <= lines.len(),
    ensures
        all_lines(lines.take(count)) <= all_lines(lines),
    decreases lines.len() - count,
{
    if count < lines.len() {
        lemma_all_lines_prefix(lines, count + 1);
        assert(lines.take(count + 1).drop_last() =~= lines.take(count));
    } else {
        assert(lines.take(count) =~= lines);
    }
}

/// The languages that are told apart, in the order of their names.
#[derive(Clone, Copy, Debug, PartialEq, Eq, Structural)]
pub enum SourceLanguage {
    Go,
    JavaScript,
    Other,
    Python,
    Rust,
    TypeScript,
}

/// The language that a file's extension tells.
pub open spec fn language_of(extension: Option<Seq<char>>) -> SourceLanguage {
    match extension {
        None => SourceLanguage::Other,
        Some(name) => if name == "rs"@ {
            SourceLanguage::Rust
        } else if name == "py"@ {
            SourceLanguage::Python
        } else if name == "ts"@ || name == "tsx"@ {
            SourceLanguage::TypeScript
        } else if name == "js"@ || name == "jsx"@ || name == "mjs"@ || name == "cjs"@ {
            SourceLanguage::JavaScript
        } else if name == "go"@ {
            SourceLanguage::Go
        } else {
            SourceLanguage::Other
        },
    }
}

pub fn language(extension: &Option<String>) -> (found: SourceLanguage)
    ensures
        found == language_of(strings::optional_text(*extension)),
{
    match extension {
        None => SourceLanguage::Other,
        Some(name) => {
            let name = name.as_str();
            if same(name, "rs") {
                SourceLanguage::Rust
            } else if same(name, "py") {
                SourceLanguage::Python
            } else if same(name, "ts") || same(name, "tsx") {
                SourceLanguage::TypeScript
            } else if same(name, "js") || same(name, "jsx") || same(name, "mjs") || same(
                name,
                "cjs",
            ) {
                SourceLanguage::JavaScript
            } else if same(name, "go") {
                SourceLanguage::Go
            } else {
                SourceLanguage::Other
            }
        },
    }
}

/// The directories that are not walked into.
pub open spec fn pruned(name: Seq<char>) -> bool {
    ||| name == ".git"@
    ||| name == ".hg"@
    ||| name == ".svn"@
    ||| name == "target"@
    ||| name == "build"@
    ||| name == "dist"@
    ||| name == "node_modules"@
    ||| name == "vendor"@
    ||| name == ".venv"@
    ||| name == "venv"@
}

/// Whether the walk takes an entry: no link, and no directory that is not walked into. A
/// name that is no text names none of those.
pub fn keep_entry(symlink: bool, directory: bool, name: &Option<String>) -> (keep: bool)
    ensures
        keep == (!symlink && !(directory && name is Some && pruned(name->0@))),
{
    if symlink {
        return false;
    }
    if !directory {
        return true;
    }
    match name {
        None => true,
        Some(name) => {
            let name = name.as_str();
            !(same(name, ".git") || same(name, ".hg") || same(name, ".svn") || same(name, "target")
                || same(name, "build") || same(name, "dist") || same(name, "node_modules") || same(
                name,
                "vendor",
            ) || same(name, ".venv") || same(name, "venv"))
        },
    }
}

/// How many bytes of some are a line's end.
pub open spec fn newlines(bytes: Seq<u8>) -> nat
    decreases bytes.len(),
{
    if bytes.len() == 0 {
        0
    } else {
        newlines(bytes.drop_last()) + (if bytes.last() == 10 {
            1nat
        } else {
            0nat
        })
    }
}

/// The lines of a file: one for every end of a line, and one for a last line without an end.
pub open spec fn lines_in(bytes: Seq<u8>) -> nat {
    newlines(bytes) + (if bytes.len() > 0 && bytes.last() != 10 {
        1nat
    } else {
        0nat
    })
}

/// A file that is no text: it holds a zero byte.
pub open spec fn binary(bytes: Seq<u8>) -> bool {
    exists|i: int| 0 <= i < bytes.len() && #[trigger] bytes[i] == 0
}

/// What is known of a file, read so far.
#[derive(Clone, Copy, Debug, PartialEq, Eq, Structural)]
pub struct SourceCounter {
    pub bytes: u64,
    pub newlines: u64,
    pub zero: bool,
    pub ended: bool,
}

impl SourceCounter {
    /// What is known of these bytes.
    pub open spec fn knows(self, bytes: Seq<u8>) -> bool {
        &&& self.bytes == bytes.len()
        &&& self.newlines == newlines(bytes)
        &&& self.zero == binary(bytes)
        &&& self.ended == (bytes.len() > 0 && bytes.last() == 10)
    }

    /// Nothing is read yet.
    pub fn new() -> (counter: Self)
        ensures
            counter.knows(Seq::empty()),
            counter == (SourceCounter { bytes: 0, newlines: 0, zero: false, ended: false }),
    {
        SourceCounter { bytes: 0, newlines: 0, zero: false, ended: false }
    }

    /// Takes the next bytes of the file: what is known of all bytes does not depend on how
    /// they were cut.
    pub fn take(&mut self, chunk: &Vec<u8>)
        requires
            old(self).bytes + chunk@.len() <= u64::MAX,
            old(self).newlines <= old(self).bytes,
        ensures
            final(self).bytes == old(self).bytes + chunk@.len(),
            final(self).newlines == old(self).newlines + newlines(chunk@),
            final(self).zero == (old(self).zero || binary(chunk@)),
            final(self).ended == if chunk@.len() > 0 {
                chunk@.last() == 10
            } else {
                old(self).ended
            },
            final(self).newlines <= final(self).bytes,
            forall|before: Seq<u8>|
                old(self).knows(before) ==> final(self).knows(#[trigger] (before + chunk@)),
    {
        let ghost start = *self;
        let mut at: usize = 0;
        assert(chunk@.take(0) =~= Seq::empty());
        while at < chunk.len()
            invariant
                at <= chunk@.len(),
                start.bytes + chunk@.len() <= u64::MAX,
                start.newlines <= start.bytes,
                self.bytes == start.bytes + at,
                self.newlines == start.newlines + newlines(chunk@.take(at as int)),
                self.newlines <= self.bytes,
                self.zero == (start.zero || binary(chunk@.take(at as int))),
                self.ended == if at > 0 {
                    chunk@[at - 1] == 10
                } else {
                    start.ended
                },
            decreases chunk@.len() - at,
        {
            let byte: u8 = chunk[at];
            proof {
                let now = chunk@.take(at as int);
                let more = chunk@.take(at + 1);
                assert(more.drop_last() =~= now);
                if binary(now) {
                    let i = choose|i: int| 0 <= i < now.len() && #[trigger] now[i] == 0;
                    assert(more[i] == 0);
                }
                if byte == 0 {
                    assert(more[at as int] == 0);
                }
                if binary(more) && byte != 0 {
                    let i = choose|i: int| 0 <= i < more.len() && #[trigger] more[i] == 0;
                    assert(now[i] == 0);
                }
            }
            self.bytes = self.bytes + 1;
            if byte == 10 {
                self.newlines = self.newlines + 1;
            }
            if byte == 0 {
                self.zero = true;
            }
            self.ended = byte == 10;
            at = at + 1;
        }
        proof {
            assert(chunk@.take(at as int) =~= chunk@);
            assert forall|before: Seq<u8>| start.knows(before) implies self.knows(
                #[trigger] (before + chunk@),
            ) by {
                lemma_newlines_add(before, chunk@);
                lemma_binary_add(before, chunk@);
                if chunk@.len() == 0 {
                    assert(before + chunk@ =~= before);
                }
            }
        }
    }

    /// The lines of the file.
    pub fn lines(&self) -> (count: u64)
        requires
            self.newlines < u64::MAX,
        ensures
            count == self.newlines + (if self.bytes > 0 && !self.ended {
                1int
            } else {
                0int
            }),
            forall|bytes: Seq<u8>| #[trigger] self.knows(bytes) ==> count == lines_in(bytes),
    {
        if self.bytes > 0 && !self.ended {
            self.newlines + 1
        } else {
            self.newlines
        }
    }
}

proof fn lemma_newlines_add(first: Seq<u8>, second: Seq<u8>)
    ensures
        newlines(first + second) == newlines(first) + newlines(second),
    decreases second.len(),
{
    if second.len() == 0 {
        assert(first + second =~= first);
    } else {
        assert((first + second).drop_last() =~= first + second.drop_last());
        lemma_newlines_add(first, second.drop_last());
    }
}

proof fn lemma_binary_add(first: Seq<u8>, second: Seq<u8>)
    ensures
        binary(first + second) == (binary(first) || binary(second)),
{
    let all = first + second;
    if binary(first) {
        let i = choose|i: int| 0 <= i < first.len() && #[trigger] first[i] == 0;
        assert(all[i] == 0);
    }
    if binary(second) {
        let i = choose|i: int| 0 <= i < second.len() && #[trigger] second[i] == 0;
        assert(all[first.len() + i] == 0);
    }
    if binary(all) {
        let i = choose|i: int| 0 <= i < all.len() && #[trigger] all[i] == 0;
        if i < first.len() {
            assert(first[i] == 0);
        } else {
            assert(second[i - first.len()] == 0);
        }
    }
}

/// The lines of a file are one more than the ends between its lines: a file without a byte
/// has none, and however it is cut into pieces, the count is the same.
pub proof fn law_lines_do_not_depend_on_the_pieces(first: Seq<u8>, second: Seq<u8>)
    ensures
        newlines(first + second) == newlines(first) + newlines(second),
        binary(first + second) == (binary(first) || binary(second)),
        second.len() > 0 ==> lines_in(first + second) == newlines(first) + lines_in(second),
        lines_in(Seq::<u8>::empty()) == 0,
{
    lemma_newlines_add(first, second);
    lemma_binary_add(first, second);
}

/// The lines of each language, where a file of it was counted.
#[derive(Clone, Copy, Debug, PartialEq, Eq, Structural)]
pub struct LanguageCounts {
    pub go: Option<u64>,
    pub javascript: Option<u64>,
    pub other: Option<u64>,
    pub python: Option<u64>,
    pub rust: Option<u64>,
    pub typescript: Option<u64>,
}

pub open spec fn known(count: Option<u64>) -> int {
    match count {
        Some(lines) => lines as int,
        None => 0,
    }
}

impl LanguageCounts {
    pub open spec fn total(self) -> int {
        known(self.go) + known(self.javascript) + known(self.other) + known(self.python) + known(
            self.rust,
        ) + known(self.typescript)
    }

    /// The lines with those of one more file.
    pub open spec fn plus(self, language: SourceLanguage, lines: int) -> LanguageCounts {
        match language {
            SourceLanguage::Go => LanguageCounts {
                go: Some((known(self.go) + lines) as u64),
                ..self
            },
            SourceLanguage::JavaScript => LanguageCounts {
                javascript: Some((known(self.javascript) + lines) as u64),
                ..self
            },
            SourceLanguage::Other => LanguageCounts {
                other: Some((known(self.other) + lines) as u64),
                ..self
            },
            SourceLanguage::Python => LanguageCounts {
                python: Some((known(self.python) + lines) as u64),
                ..self
            },
            SourceLanguage::Rust => LanguageCounts {
                rust: Some((known(self.rust) + lines) as u64),
                ..self
            },
            SourceLanguage::TypeScript => LanguageCounts {
                typescript: Some((known(self.typescript) + lines) as u64),
                ..self
            },
        }
    }

    fn add(&mut self, language: SourceLanguage, lines: u64)
        requires
            old(self).total() + lines <= u64::MAX,
        ensures
            *final(self) == old(self).plus(language, lines as int),
            final(self).total() == old(self).total() + lines,
    {
        match language {
            SourceLanguage::Go => {
                self.go = Some(count_or_none(self.go) + lines);
            },
            SourceLanguage::JavaScript => {
                self.javascript = Some(count_or_none(self.javascript) + lines);
            },
            SourceLanguage::Other => {
                self.other = Some(count_or_none(self.other) + lines);
            },
            SourceLanguage::Python => {
                self.python = Some(count_or_none(self.python) + lines);
            },
            SourceLanguage::Rust => {
                self.rust = Some(count_or_none(self.rust) + lines);
            },
            SourceLanguage::TypeScript => {
                self.typescript = Some(count_or_none(self.typescript) + lines);
            },
        }
    }
}

/// No more than so many bytes.
fn cut(bytes: Vec<u8>, size: usize) -> (chunk: Vec<u8>)
    ensures
        chunk@ == if bytes@.len() > size {
            bytes@.take(size as int)
        } else {
            bytes@
        },
{
    let mut chunk = bytes;
    if chunk.len() > size {
        chunk.truncate(size);
        assert(chunk@ =~= bytes@.take(size as int));
    }
    chunk
}

fn extended(counter: SourceCounter, chunk: &Vec<u8>) -> (more: SourceCounter)
    requires
        counter.bytes + chunk@.len() <= u64::MAX,
        counter.newlines <= counter.bytes,
    ensures
        more == counter_with(counter, chunk@),
        more.bytes == counter.bytes + chunk@.len(),
        more.newlines <= more.bytes,
{
    let mut more = counter;
    more.take(chunk);
    more
}

fn count_or_none(count: Option<u64>) -> (lines: u64)
    ensures
        lines == known(count),
{
    match count {
        Some(lines) => lines,
        None => 0,
    }
}

/// What the walk is about.
#[derive(Clone, Copy, Debug, PartialEq, Eq, Structural)]
pub enum ScanStage {
    NextEntry,
    Stat { language: SourceLanguage },
    Open { language: SourceLanguage, remaining: u64 },
    Reading {
        language: SourceLanguage,
        expected: u64,
        modified: Option<i128>,
        counter: SourceCounter,
    },
    Done,
}

/// What the walk needs next: another entry, what is known of its file, the file opened, or
/// so many of its bytes.
#[derive(Clone, Copy, Debug, PartialEq, Eq, Structural)]
pub enum ScanQuestion {
    NextEntry,
    Metadata,
    Open,
    Read { size: u64 },
    Nothing,
}

/// An entry of the walk.
#[derive(Clone, Debug)]
pub enum ScanEntry {
    Failed,
    /// A link, or no file.
    Skipped,
    File { extension: Option<String> },
}

/// What came of what was needed. Time may be over whenever the clock is read.
#[derive(Clone, Debug)]
pub enum ScanAnswer {
    NoMoreEntries,
    Entry { expired: bool, entry: ScanEntry },
    /// The bytes of a regular file.
    Metadata(Option<u64>),
    /// The bytes of a regular file, once it is open, and when it was modified.
    Opened(Option<(u64, Option<i128>)>),
    Chunk { expired_before: bool, bytes: Vec<u8>, expired_after: bool },
}

/// A walk through a worktree between its beginning and its end.
#[derive(Clone, Copy, Debug, PartialEq, Eq, Structural)]
pub struct ScanRun {
    pub full: bool,
    pub max_files: u64,
    pub max_file_bytes: u64,
    pub max_read_bytes: u64,
    pub files: u64,
    pub read_bytes: u64,
    pub counts: LanguageCounts,
    pub newest: Option<i128>,
    /// What the walk was cut short by, or left files out for.
    pub elapsed: bool,
    pub file_count: bool,
    pub file_size: bool,
    pub read_limit: bool,
    pub stage: ScanStage,
}

/// The bytes that are read at once.
pub const CHUNK_BYTES: u64 = 8192;

pub open spec fn chunk_size(expected: u64, read: u64) -> int {
    if expected - read < CHUNK_BYTES {
        expected - read
    } else {
        CHUNK_BYTES as int
    }
}

pub open spec fn later(left: Option<i128>, right: Option<i128>) -> Option<i128> {
    match (left, right) {
        (Some(left), Some(right)) => if left >= right {
            Some(left)
        } else {
            Some(right)
        },
        (Some(left), None) => Some(left),
        (None, right) => right,
    }
}

/// What is known of a file after so many more bytes of it.
pub open spec fn counter_with(counter: SourceCounter, bytes: Seq<u8>) -> SourceCounter {
    SourceCounter {
        bytes: (counter.bytes + bytes.len()) as u64,
        newlines: (counter.newlines + newlines(bytes)) as u64,
        zero: counter.zero || binary(bytes),
        ended: if bytes.len() > 0 {
            bytes.last() == 10
        } else {
            counter.ended
        },
    }
}

/// The lines of a file that is known.
pub open spec fn counter_lines(counter: SourceCounter) -> int {
    counter.newlines + (if counter.bytes > 0 && !counter.ended {
        1int
    } else {
        0int
    })
}

impl ScanRun {
    pub open spec fn to(self, stage: ScanStage) -> ScanRun {
        ScanRun { stage, ..self }
    }

    /// A file was read to its end: text is counted.
    pub open spec fn counted(
        self,
        language: SourceLanguage,
        modified: Option<i128>,
        counter: SourceCounter,
    ) -> ScanRun {
        let read = ScanRun {
            read_bytes: (self.read_bytes + counter.bytes) as u64,
            stage: ScanStage::NextEntry,
            ..self
        };
        if counter.zero {
            read
        } else {
            ScanRun {
                counts: self.counts.plus(language, counter_lines(counter)),
                newest: later(self.newest, modified),
                ..read
            }
        }
    }

    /// A file was not read to its end: its bytes are spent, its lines do not count.
    pub open spec fn abandoned(self, counter: SourceCounter, expired: bool) -> ScanRun {
        ScanRun {
            read_bytes: (self.read_bytes + counter.bytes) as u64,
            elapsed: self.elapsed || expired,
            stage: if expired {
                ScanStage::Done
            } else {
                ScanStage::NextEntry
            },
            ..self
        }
    }

    /// A size is over the budget of one file, or of what is left to read.
    pub open spec fn refused(self, bytes: u64, remaining: int) -> Option<ScanRun> {
        if bytes > self.max_file_bytes {
            Some(ScanRun { file_size: true, stage: ScanStage::NextEntry, ..self })
        } else if bytes > remaining {
            Some(ScanRun { read_limit: true, stage: ScanStage::NextEntry, ..self })
        } else {
            None
        }
    }

    /// The walk came to an entry.
    pub open spec fn with_entry(self, expired: bool, entry: ScanEntry) -> ScanRun {
        if expired {
            ScanRun { elapsed: true, stage: ScanStage::Done, ..self }
        } else {
            match entry {
                ScanEntry::File { extension } => {
                    let language = language_of(strings::optional_text(extension));
                    if !self.full && language == SourceLanguage::Other {
                        self
                    } else if self.files >= self.max_files {
                        ScanRun { file_count: true, stage: ScanStage::Done, ..self }
                    } else {
                        self.to(ScanStage::Stat { language })
                    }
                },
                _ => self,
            }
        }
    }

    /// A file was found, or none.
    pub open spec fn with_metadata(self, language: SourceLanguage, found: Option<u64>) -> ScanRun {
        match found {
            None => self.to(ScanStage::NextEntry),
            Some(bytes) => {
                let taken = ScanRun { files: (self.files + 1) as u64, ..self };
                let remaining = self.max_read_bytes - self.read_bytes;
                match taken.refused(bytes, remaining) {
                    Some(state) => state,
                    None => taken.to(ScanStage::Open { language, remaining: remaining as u64 }),
                }
            },
        }
    }

    /// A file was opened, or not.
    pub open spec fn with_file(
        self,
        language: SourceLanguage,
        remaining: u64,
        found: Option<(u64, Option<i128>)>,
    ) -> ScanRun {
        match found {
            None => self.to(ScanStage::NextEntry),
            Some((bytes, modified)) => {
                let counter = SourceCounter { bytes: 0, newlines: 0, zero: false, ended: false };
                match self.refused(bytes, remaining as int) {
                    Some(state) => state,
                    None => if bytes == 0 {
                        self.counted(language, modified, counter)
                    } else {
                        self.to(
                            ScanStage::Reading { language, expected: bytes, modified, counter },
                        )
                    },
                }
            },
        }
    }

    /// More of a file was read, or nothing. No more of it counts than was needed.
    pub open spec fn with_chunk(
        self,
        language: SourceLanguage,
        expected: u64,
        modified: Option<i128>,
        counter: SourceCounter,
        expired_before: bool,
        bytes: Seq<u8>,
        expired_after: bool,
    ) -> ScanRun {
        let size = chunk_size(expected, counter.bytes);
        let chunk = if bytes.len() > size {
            bytes.take(size)
        } else {
            bytes
        };
        let more = counter_with(counter, chunk);
        if expired_before {
            self.abandoned(counter, true)
        } else if chunk.len() == 0 {
            self.abandoned(counter, false)
        } else if expired_after {
            self.abandoned(more, true)
        } else if more.bytes >= expected {
            self.counted(language, modified, more)
        } else {
            self.to(ScanStage::Reading { language, expected, modified, counter: more })
        }
    }

    /// How the walk goes on. What does not answer what was needed changes nothing.
    pub open spec fn next(self, answer: ScanAnswer) -> ScanRun {
        match (self.stage, answer) {
            (ScanStage::NextEntry, ScanAnswer::NoMoreEntries) => self.to(ScanStage::Done),
            (ScanStage::NextEntry, ScanAnswer::Entry { expired, entry }) => self.with_entry(
                expired,
                entry,
            ),
            (ScanStage::Stat { language }, ScanAnswer::Metadata(found)) => self.with_metadata(
                language,
                found,
            ),
            (ScanStage::Open { language, remaining }, ScanAnswer::Opened(found)) => self.with_file(
                language,
                remaining,
                found,
            ),
            (
                ScanStage::Reading { language, expected, modified, counter },
                ScanAnswer::Chunk { expired_before, bytes, expired_after },
            ) => self.with_chunk(
                language,
                expected,
                modified,
                counter,
                expired_before,
                bytes@,
                expired_after,
            ),
            _ => self,
        }
    }

    /// What every walk keeps: the budgets of files and of bytes, and lines that can be
    /// added up.
    pub open spec fn sound(self) -> bool {
        &&& self.max_read_bytes + self.max_files <= u64::MAX
        &&& self.files <= self.max_files
        &&& self.read_bytes <= self.max_read_bytes
        &&& self.counts.total() <= self.read_bytes + self.files
        &&& match self.stage {
            ScanStage::Stat { language } => self.files < self.max_files,
            ScanStage::Open { language, remaining } => {
                &&& remaining == self.max_read_bytes - self.read_bytes
                &&& self.counts.total() < self.read_bytes + self.files
            },
            ScanStage::Reading { language, expected, modified, counter } => {
                &&& counter.bytes < expected
                &&& expected <= self.max_read_bytes - self.read_bytes
                &&& expected <= self.max_file_bytes
                &&& counter.newlines <= counter.bytes
                &&& self.counts.total() < self.read_bytes + self.files
            },
            _ => true,
        }
        &&& !self.full ==> self.counts.other is None
        &&& !self.full ==> match self.stage {
            ScanStage::Stat { language } => language != SourceLanguage::Other,
            ScanStage::Open { language, .. } => language != SourceLanguage::Other,
            ScanStage::Reading { language, .. } => language != SourceLanguage::Other,
            _ => true,
        }
    }

    /// A walk that begins.
    pub fn new(full: bool, limits: &Limits) -> (run: Self)
        requires
            limits.scan_max_read_bytes + limits.scan_max_files <= u64::MAX,
        ensures
            run.sound(),
            run == (ScanRun {
                full,
                max_files: limits.scan_max_files,
                max_file_bytes: limits.scan_max_file_bytes,
                max_read_bytes: limits.scan_max_read_bytes,
                files: 0,
                read_bytes: 0,
                counts: LanguageCounts {
                    go: None,
                    javascript: None,
                    other: None,
                    python: None,
                    rust: None,
                    typescript: None,
                },
                newest: None,
                elapsed: false,
                file_count: false,
                file_size: false,
                read_limit: false,
                stage: ScanStage::NextEntry,
            }),
    {
        ScanRun {
            full,
            max_files: limits.scan_max_files,
            max_file_bytes: limits.scan_max_file_bytes,
            max_read_bytes: limits.scan_max_read_bytes,
            files: 0,
            read_bytes: 0,
            counts: LanguageCounts {
                go: None,
                javascript: None,
                other: None,
                python: None,
                rust: None,
                typescript: None,
            },
            newest: None,
            elapsed: false,
            file_count: false,
            file_size: false,
            read_limit: false,
            stage: ScanStage::NextEntry,
        }
    }

    /// What the walk needs next.
    pub fn question(&self) -> (question: ScanQuestion)
        requires
            self.sound(),
        ensures
            question == match self.stage {
                ScanStage::NextEntry => ScanQuestion::NextEntry,
                ScanStage::Stat { .. } => ScanQuestion::Metadata,
                ScanStage::Open { .. } => ScanQuestion::Open,
                ScanStage::Reading { expected, counter, .. } => ScanQuestion::Read {
                    size: chunk_size(expected, counter.bytes) as u64,
                },
                ScanStage::Done => ScanQuestion::Nothing,
            },
    {
        match self.stage {
            ScanStage::NextEntry => ScanQuestion::NextEntry,
            ScanStage::Stat { .. } => ScanQuestion::Metadata,
            ScanStage::Open { .. } => ScanQuestion::Open,
            ScanStage::Reading { expected, counter, .. } => {
                let left: u64 = expected - counter.bytes;
                ScanQuestion::Read {
                    size: if left < CHUNK_BYTES {
                        left
                    } else {
                        CHUNK_BYTES
                    },
                }
            },
            ScanStage::Done => ScanQuestion::Nothing,
        }
    }

    fn refuse(&mut self, bytes: u64, remaining: u64) -> (refused: bool)
        ensures
            match old(self).refused(bytes, remaining as int) {
                Some(state) => refused && *final(self) == state,
                None => !refused && *final(self) == *old(self),
            },
    {
        if bytes > self.max_file_bytes {
            self.file_size = true;
            self.stage = ScanStage::NextEntry;
            true
        } else if bytes > remaining {
            self.read_limit = true;
            self.stage = ScanStage::NextEntry;
            true
        } else {
            false
        }
    }

    fn keep(&mut self, language: SourceLanguage, modified: Option<i128>, counter: SourceCounter)
        requires
            old(self).max_read_bytes + old(self).max_files <= u64::MAX,
            old(self).files <= old(self).max_files,
            old(self).read_bytes + counter.bytes <= old(self).max_read_bytes,
            counter.newlines <= counter.bytes,
            old(self).counts.total() < old(self).read_bytes + old(self).files,
            !old(self).full ==> old(self).counts.other is None && language != SourceLanguage::Other,
        ensures
            *final(self) == old(self).counted(language, modified, counter),
            final(self).sound(),
    {
        self.read_bytes = self.read_bytes + counter.bytes;
        if !counter.zero {
            self.counts.add(language, counter.lines());
            self.newest = match (self.newest, modified) {
                (Some(newest), Some(modified)) => if newest >= modified {
                    Some(newest)
                } else {
                    Some(modified)
                },
                (Some(newest), None) => Some(newest),
                (None, modified) => modified,
            };
        }
        self.stage = ScanStage::NextEntry;
    }

    fn abandon(&mut self, counter: SourceCounter, expired: bool)
        requires
            old(self).sound(),
            old(self).read_bytes + counter.bytes <= old(self).max_read_bytes,
        ensures
            *final(self) == old(self).abandoned(counter, expired),
            final(self).sound(),
    {
        self.read_bytes = self.read_bytes + counter.bytes;
        if expired {
            self.elapsed = true;
            self.stage = ScanStage::Done;
        } else {
            self.stage = ScanStage::NextEntry;
        }
    }

    fn take_entry(&mut self, expired: bool, entry: ScanEntry)
        requires
            old(self).sound(),
            old(self).stage is NextEntry,
        ensures
            *final(self) == old(self).with_entry(expired, entry),
            final(self).sound(),
    {
        if expired {
            self.elapsed = true;
            self.stage = ScanStage::Done;
            return;
        }
        if let ScanEntry::File { extension } = entry {
            let language = language(&extension);
            let other = match language {
                SourceLanguage::Other => true,
                _ => false,
            };
            if !self.full && other {
                return;
            }
            if self.files >= self.max_files {
                self.file_count = true;
                self.stage = ScanStage::Done;
            } else {
                self.stage = ScanStage::Stat { language };
            }
        }
    }

    fn take_metadata(&mut self, language: SourceLanguage, found: Option<u64>)
        requires
            old(self).sound(),
            old(self).stage == (ScanStage::Stat { language }),
        ensures
            *final(self) == old(self).with_metadata(language, found),
            final(self).sound(),
    {
        match found {
            None => {
                self.stage = ScanStage::NextEntry;
            },
            Some(bytes) => {
                self.files = self.files + 1;
                let remaining: u64 = self.max_read_bytes - self.read_bytes;
                if !self.refuse(bytes, remaining) {
                    self.stage = ScanStage::Open { language, remaining };
                }
            },
        }
    }

    fn take_file(
        &mut self,
        language: SourceLanguage,
        remaining: u64,
        found: Option<(u64, Option<i128>)>,
    )
        requires
            old(self).sound(),
            old(self).stage == (ScanStage::Open { language, remaining }),
        ensures
            *final(self) == old(self).with_file(language, remaining, found),
            final(self).sound(),
    {
        match found {
            None => {
                self.stage = ScanStage::NextEntry;
            },
            Some((bytes, modified)) => {
                if !self.refuse(bytes, remaining) {
                    let counter = SourceCounter::new();
                    if bytes == 0 {
                        self.keep(language, modified, counter);
                    } else {
                        self.stage = ScanStage::Reading {
                            language,
                            expected: bytes,
                            modified,
                            counter,
                        };
                    }
                }
            },
        }
    }

    fn take_chunk(
        &mut self,
        language: SourceLanguage,
        expected: u64,
        modified: Option<i128>,
        counter: SourceCounter,
        expired_before: bool,
        bytes: Vec<u8>,
        expired_after: bool,
    )
        requires
            old(self).sound(),
            old(self).stage == (ScanStage::Reading { language, expected, modified, counter }),
        ensures
            *final(self) == old(self).with_chunk(
                language,
                expected,
                modified,
                counter,
                expired_before,
                bytes@,
                expired_after,
            ),
            final(self).sound(),
    {
        if expired_before {
            self.abandon(counter, true);
            return;
        }
        let left: u64 = expected - counter.bytes;
        let size: usize = if left < CHUNK_BYTES {
            left as usize
        } else {
            CHUNK_BYTES as usize
        };
        let chunk = cut(bytes, size);
        if chunk.len() == 0 {
            self.abandon(counter, false);
            return;
        }
        let more = extended(counter, &chunk);
        if expired_after {
            self.abandon(more, true);
        } else if more.bytes >= expected {
            self.keep(language, modified, more);
        } else {
            self.stage = ScanStage::Reading { language, expected, modified, counter: more };
        }
    }

    /// Takes what came of what was needed.
    pub fn answer(&mut self, answer: ScanAnswer)
        requires
            old(self).sound(),
        ensures
            *final(self) == old(self).next(answer),
            final(self).sound(),
    {
        match (self.stage, answer) {
            (ScanStage::NextEntry, ScanAnswer::NoMoreEntries) => {
                self.stage = ScanStage::Done;
            },
            (ScanStage::NextEntry, ScanAnswer::Entry { expired, entry }) => {
                self.take_entry(expired, entry);
            },
            (ScanStage::Stat { language }, ScanAnswer::Metadata(found)) => {
                self.take_metadata(language, found);
            },
            (ScanStage::Open { language, remaining }, ScanAnswer::Opened(found)) => {
                self.take_file(language, remaining, found);
            },
            (
                ScanStage::Reading { language, expected, modified, counter },
                ScanAnswer::Chunk { expired_before, bytes, expired_after },
            ) => {
                self.take_chunk(
                    language,
                    expected,
                    modified,
                    counter,
                    expired_before,
                    bytes,
                    expired_after,
                );
            },
            _ => {},
        }
    }

    /// The reasons why the walk left something out, by their names in order.
    pub open spec fn reasons(self) -> Seq<Seq<char>> {
        let none = Seq::<Seq<char>>::empty();
        let first = if self.elapsed {
            none.push("elapsed"@)
        } else {
            none
        };
        let second = if self.file_count {
            first.push("file-count"@)
        } else {
            first
        };
        let third = if self.file_size {
            second.push("file-size"@)
        } else {
            second
        };
        if self.read_limit {
            third.push("read-bytes"@)
        } else {
            third
        }
    }

    pub open spec fn truncated(self) -> bool {
        self.elapsed || self.file_count || self.file_size || self.read_limit
    }

    /// The languages that were counted, in the order of their names, with their lines.
    pub open spec fn lines(self) -> Seq<(Seq<char>, u64)> {
        let none = Seq::<(Seq<char>, u64)>::empty();
        with_count(
            with_count(
                with_count(
                    with_count(
                        with_count(
                            with_count(none, "Go"@, self.counts.go),
                            "JavaScript"@,
                            self.counts.javascript,
                        ),
                        "Other"@,
                        self.counts.other,
                    ),
                    "Python"@,
                    self.counts.python,
                ),
                "Rust"@,
                self.counts.rust,
            ),
            "TypeScript"@,
            self.counts.typescript,
        )
    }

    /// What the walk found, and a warning where it left something out.
    pub fn finish(self, diagnostics: &mut Vec<Diagnostic>) -> (scan: Scan)
        requires
            self.sound(),
        ensures
            scan.sound(),
            line_views(scan.lines@) == self.lines(),
            all_lines(scan.lines@) == self.counts.total(),
            all_lines(scan.lines@) <= u64::MAX,
            scan.truncated == self.truncated(),
            scan.newest_source == self.newest,
            model::diagnostic_views(final(diagnostics)@) == if self.truncated() {
                model::diagnostic_views(old(diagnostics)@).push(
                    system::warning(
                        "scan-truncated"@,
                        "LOC scan truncated by "@ + strings::joined(self.reasons(), ", "@)
                            + " budget(s)"@,
                    ),
                )
            } else {
                model::diagnostic_views(old(diagnostics)@)
            },
    {
        let truncated = self.elapsed || self.file_count || self.file_size || self.read_limit;
        if truncated {
            let mut reasons: Vec<String> = Vec::new();
            assert(strings::texts(reasons@) =~= Seq::<Seq<char>>::empty());
            push_reason(&mut reasons, self.elapsed, "elapsed");
            push_reason(&mut reasons, self.file_count, "file-count");
            push_reason(&mut reasons, self.file_size, "file-size");
            push_reason(&mut reasons, self.read_limit, "read-bytes");
            let message = "LOC scan truncated by ".to_owned().concat(
                join(&reasons, ", ").as_str(),
            ).concat(" budget(s)");
            push_diagnostic(diagnostics, diagnostic("scan-truncated", message.as_str()));
        }
        let mut lines: Vec<(String, u64)> = Vec::new();
        assert(line_views(lines@) =~= Seq::<(Seq<char>, u64)>::empty());
        push_count(&mut lines, "Go", self.counts.go);
        push_count(&mut lines, "JavaScript", self.counts.javascript);
        push_count(&mut lines, "Other", self.counts.other);
        push_count(&mut lines, "Python", self.counts.python);
        push_count(&mut lines, "Rust", self.counts.rust);
        push_count(&mut lines, "TypeScript", self.counts.typescript);
        proof {
            lemma_lines_ascend(self);
        }
        Scan { lines, truncated, newest_source: self.newest }
    }
}

pub open spec fn line_views(lines: Seq<(String, u64)>) -> Seq<(Seq<char>, u64)> {
    Seq::new(lines.len(), |i: int| (lines[i].0@, lines[i].1))
}

pub open spec fn with_count(lines: Seq<(Seq<char>, u64)>, name: Seq<char>, count: Option<u64>) -> Seq<
    (Seq<char>, u64),
> {
    match count {
        Some(count) => lines.push((name, count)),
        None => lines,
    }
}

fn push_count(lines: &mut Vec<(String, u64)>, name: &str, count: Option<u64>)
    ensures
        line_views(final(lines)@) == with_count(line_views(old(lines)@), name@, count),
        all_lines(final(lines)@) == all_lines(old(lines)@) + known(count),
{
    if let Some(count) = count {
        lines.push((name.to_owned(), count));
        assert(lines@.drop_last() =~= old(lines)@);
        assert(line_views(lines@) =~= line_views(old(lines)@).push((name@, count)));
    }
}

fn push_reason(reasons: &mut Vec<String>, holds: bool, name: &str)
    ensures
        strings::texts(final(reasons)@) == if holds {
            strings::texts(old(reasons)@).push(name@)
        } else {
            strings::texts(old(reasons)@)
        },
{
    if holds {
        reasons.push(name.to_owned());
        assert(strings::texts(reasons@) =~= strings::texts(old(reasons)@).push(name@));
    }
}

/// Whatever the walk meets, it keeps to its budgets: no more files, no more bytes, and no
/// file larger than one may be; and once it is done it stays so.
pub proof fn law_scan_keeps_to_its_budgets(run: ScanRun, answer: ScanAnswer)
    requires
        run.sound(),
    ensures
        run.next(answer).sound(),
        run.next(answer).files <= run.max_files,
        run.next(answer).read_bytes <= run.max_read_bytes,
        run.next(answer).max_files == run.max_files,
        run.next(answer).max_read_bytes == run.max_read_bytes,
        run.next(answer).max_file_bytes == run.max_file_bytes,
        run.next(answer).stage matches ScanStage::Reading { expected, .. } ==> expected
            <= run.max_file_bytes,
        run.stage is Done ==> run.next(answer) == run,
        run.truncated() ==> run.next(answer).truncated(),
{
    lemma_next_is_sound(run, answer);
}

proof fn lemma_plus_total(counts: LanguageCounts, language: SourceLanguage, lines: int)
    requires
        0 <= lines,
        counts.total() + lines <= u64::MAX,
    ensures
        counts.plus(language, lines).total() == counts.total() + lines,
{
}

pub proof fn lemma_newlines_bound(bytes: Seq<u8>)
    ensures
        newlines(bytes) <= bytes.len(),
    decreases bytes.len(),
{
    if bytes.len() > 0 {
        lemma_newlines_bound(bytes.drop_last());
    }
}

proof fn lemma_counted_is_sound(
    run: ScanRun,
    language: SourceLanguage,
    modified: Option<i128>,
    counter: SourceCounter,
)
    requires
        run.max_read_bytes + run.max_files <= u64::MAX,
        run.files <= run.max_files,
        run.read_bytes + counter.bytes <= run.max_read_bytes,
        counter.newlines <= counter.bytes,
        run.counts.total() < run.read_bytes + run.files,
        !run.full ==> run.counts.other is None && language != SourceLanguage::Other,
    ensures
        run.counted(language, modified, counter).sound(),
{
    lemma_plus_total(run.counts, language, counter_lines(counter));
}

proof fn lemma_next_is_sound(run: ScanRun, answer: ScanAnswer)
    requires
        run.sound(),
    ensures
        run.next(answer).sound(),
{
    match (run.stage, answer) {
        (ScanStage::Open { language, remaining }, ScanAnswer::Opened(found)) => {
            if found is Some && run.refused((found->0).0, remaining as int) is None && (found->0).0
                == 0 {
                let counter = SourceCounter { bytes: 0, newlines: 0, zero: false, ended: false };
                lemma_counted_is_sound(run, language, (found->0).1, counter);
            }
        },
        (
            ScanStage::Reading { language, expected, modified, counter },
            ScanAnswer::Chunk { expired_before, bytes, expired_after },
        ) => {
            let size = chunk_size(expected, counter.bytes);
            let chunk = if bytes@.len() > size {
                bytes@.take(size)
            } else {
                bytes@
            };
            let more = counter_with(counter, chunk);
            lemma_newlines_bound(chunk);
            if !expired_before && chunk.len() > 0 && !expired_after && more.bytes >= expected {
                lemma_counted_is_sound(run, language, modified, more);
            }
        },
        _ => {},
    }
}

/// A text adds exactly its lines to those of its language and anything else adds none,
/// once all of it is read; until then all that was read is known.
pub proof fn law_a_file_counts_by_what_it_holds(
    run: ScanRun,
    language: SourceLanguage,
    expected: u64,
    modified: Option<i128>,
    counter: SourceCounter,
    before: Seq<u8>,
    bytes: Seq<u8>,
)
    requires
        run.sound(),
        run.stage == (ScanStage::Reading { language, expected, modified, counter }),
        counter.knows(before),
        0 < bytes.len() <= chunk_size(expected, counter.bytes),
    ensures
        ({
            let next = run.with_chunk(language, expected, modified, counter, false, bytes, false);
            let all = before + bytes;
            &&& all.len() < expected ==> (next.stage matches ScanStage::Reading {
                counter: more,
                ..
            } && more.knows(all)) && next.counts == run.counts
            &&& all.len() == expected ==> next.stage is NextEntry && next.counts == if binary(all) {
                run.counts
            } else {
                run.counts.plus(language, lines_in(all) as int)
            }
        }),
{
    lemma_newlines_add(before, bytes);
    lemma_binary_add(before, bytes);
    lemma_newlines_bound(bytes);
    lemma_newlines_bound(before);
}

} // verus!
