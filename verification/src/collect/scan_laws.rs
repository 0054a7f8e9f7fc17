//! What the count of lines promises: which files it takes, what each of them adds, and what
//! it leaves out.
use vstd::prelude::*;
use crate::collect::loc;
use crate::collect::loc::{
    LanguageCounts, ScanAnswer, ScanEntry, ScanRun, ScanStage, SourceCounter,
    SourceLanguage,
};
use crate::strings;

verus! {

/// A line with its end adds one to the lines of what follows; a last line needs no end, and
/// without a byte there is no line.
pub proof fn law_every_end_of_a_line_counts(line: Seq<u8>, rest: Seq<u8>)
    requires
        forall|i: int| 0 <= i < line.len() ==> #[trigger] line[i] != 10,
    ensures
        loc::lines_in(line.push(10) + rest) == 1 + loc::lines_in(rest),
        line.len() > 0 ==> loc::lines_in(line) == 1,
        loc::lines_in(Seq::empty()) == 0,
{
    lemma_no_newline(line);
    let first = line.push(10);
    assert(first.drop_last() =~= line);
    loc::law_lines_do_not_depend_on_the_pieces(first, rest);
    if rest.len() == 0 {
        assert(first + rest =~= first);
    }
}

proof fn lemma_no_newline(line: Seq<u8>)
    requires
        forall|i: int| 0 <= i < line.len() ==> #[trigger] line[i] != 10,
    ensures
        loc::newlines(line) == 0,
    decreases line.len(),
{
    if line.len() > 0 {
        let front = line.drop_last();
        assert forall|i: int| 0 <= i < front.len() implies #[trigger] front[i] != 10 by {
            assert(front[i] == line[i]);
        }
        lemma_no_newline(front);
        assert(line[line.len() - 1] != 10);
    }
}

/// The extensions of the languages, and of nothing else.
pub proof fn law_extensions_tell_the_language(name: Seq<char>)
    ensures
        loc::language_of(Some(name)) == SourceLanguage::Rust <==> name == "rs"@,
        loc::language_of(Some(name)) == SourceLanguage::Python <==> name == "py"@,
        loc::language_of(Some(name)) == SourceLanguage::Go <==> name == "go"@,
        loc::language_of(Some(name)) == SourceLanguage::TypeScript <==> name == "ts"@ || name
            == "tsx"@,
        loc::language_of(Some(name)) == SourceLanguage::JavaScript <==> name == "js"@ || name
            == "jsx"@ || name == "mjs"@ || name == "cjs"@,
        loc::language_of(None) == SourceLanguage::Other,
{
    reveal_strlit("rs");
    reveal_strlit("py");
    reveal_strlit("go");
    reveal_strlit("ts");
    reveal_strlit("tsx");
    reveal_strlit("js");
    reveal_strlit("jsx");
    reveal_strlit("mjs");
    reveal_strlit("cjs");
    assert("rs"@[0] == 'r' && "py"@[0] == 'p' && "go"@[0] == 'g' && "ts"@[0] == 't' && "tsx"@[0]
        == 't' && "js"@[0] == 'j' && "jsx"@[0] == 'j' && "mjs"@[0] == 'm' && "cjs"@[0] == 'c');
}

/// The directories of version control, of builds and of packages are not walked into, and
/// no other is left out.
pub proof fn law_directories_that_are_not_walked(name: Seq<char>)
    ensures
        loc::pruned(name) <==> name == ".git"@ || name == ".hg"@ || name == ".svn"@ || name
            == "target"@ || name == "build"@ || name == "dist"@ || name == "node_modules"@ || name
            == "vendor"@ || name == ".venv"@ || name == "venv"@,
{
}

/// The lines that are counted of a language.
pub open spec fn lines_for(counts: LanguageCounts, language: SourceLanguage) -> Option<u64> {
    match language {
        SourceLanguage::Go => counts.go,
        SourceLanguage::JavaScript => counts.javascript,
        SourceLanguage::Other => counts.other,
        SourceLanguage::Python => counts.python,
        SourceLanguage::Rust => counts.rust,
        SourceLanguage::TypeScript => counts.typescript,
    }
}

/// The lines of one file more are added to its own language and to no other.
pub proof fn law_lines_are_added_to_their_language(
    counts: LanguageCounts,
    language: SourceLanguage,
    other: SourceLanguage,
    lines: nat,
)
    requires
        counts.total() + lines <= u64::MAX,
    ensures
        ({
            let after = counts.plus(language, lines as int);
            &&& lines_for(after, language) is Some
            &&& lines_for(counts, language) is None ==> lines_for(after, language)->0 == lines
            &&& lines_for(counts, language) is Some ==> lines_for(after, language)->0 == lines_for(
                counts,
                language,
            )->0 + lines
            &&& other != language ==> lines_for(after, other) == lines_for(counts, other)
        }),
{
}

/// A file that comes in one piece, told from its name to its last byte: within the budgets
/// a text adds its lines to its language, as many as it has, one file and its bytes to what
/// was read, and its time where that is the newest; a file with a zero byte is read and
/// adds no line.
#[verifier::spinoff_prover]
#[verifier::rlimit(40)]
pub proof fn law_a_file_is_counted_whole(
    run: ScanRun,
    extension: Option<String>,
    bytes: Vec<u8>,
    modified: Option<i128>,
)
    requires
        run.sound(),
        run.stage is NextEntry,
        run.files < run.max_files,
        0 < bytes@.len() <= 8192,
        bytes@.len() <= run.max_file_bytes,
        run.read_bytes + bytes@.len() <= run.max_read_bytes,
        run.full || loc::language_of(strings::optional_text(extension)) != SourceLanguage::Other,
    ensures
        ({
            let language = loc::language_of(strings::optional_text(extension));
            let size = bytes@.len() as u64;
            let after = run.next(
                ScanAnswer::Entry { expired: false, entry: ScanEntry::File { extension } },
            ).next(ScanAnswer::Metadata(Some(size))).next(
                ScanAnswer::Opened(Some((size, modified))),
            ).next(
                ScanAnswer::Chunk { expired_before: false, bytes, expired_after: false },
            );
            let text = forall|i: int| 0 <= i < bytes@.len() ==> #[trigger] bytes@[i] != 0;
            &&& after.stage is NextEntry
            &&& after.files == run.files + 1
            &&& after.read_bytes == run.read_bytes + bytes@.len()
            &&& after.truncated() == run.truncated()
            &&& text ==> after.counts == run.counts.plus(language, loc::lines_in(bytes@) as int)
            &&& text && modified is Some && (run.newest is None || run.newest->0 <= modified->0)
                ==> after.newest == modified
            &&& text && run.newest is Some && (modified is None || modified->0 < run.newest->0)
                ==> after.newest == run.newest
            &&& !text ==> after.counts == run.counts && after.newest == run.newest
        }),
{
    let language = loc::language_of(strings::optional_text(extension));
    let size = bytes@.len() as u64;
    let entered = run.next(
        ScanAnswer::Entry { expired: false, entry: ScanEntry::File { extension } },
    );
    assert(entered.stage == (ScanStage::Stat { language }));
    let sized = entered.next(ScanAnswer::Metadata(Some(size)));
    assert(sized.stage is Open);
    let opened = sized.next(ScanAnswer::Opened(Some((size, modified))));
    assert(opened.stage is Reading);
    loc::law_scan_keeps_to_its_budgets(
        run,
        ScanAnswer::Entry { expired: false, entry: ScanEntry::File { extension } },
    );
    loc::law_scan_keeps_to_its_budgets(entered, ScanAnswer::Metadata(Some(size)));
    loc::law_scan_keeps_to_its_budgets(sized, ScanAnswer::Opened(Some((size, modified))));
    let counter = opened.stage->counter;
    assert(counter.knows(Seq::<u8>::empty()));
    loc::law_a_file_counts_by_what_it_holds(
        opened,
        language,
        size,
        modified,
        counter,
        Seq::empty(),
        bytes@,
    );
    assert(Seq::<u8>::empty() + bytes@ =~= bytes@);
    assert(loc::binary(bytes@) == !(forall|i: int|
        0 <= i < bytes@.len() ==> #[trigger] bytes@[i] != 0));
}

/// A file that is larger than one may be, or than what is left to read, is left out, and
/// the count is said to be cut short for it; so is every file behind the last that may be.
pub proof fn law_files_over_the_budget_are_left_out(
    run: ScanRun,
    language: SourceLanguage,
    bytes: u64,
    extension: Option<String>,
)
    requires
        run.sound(),
    ensures
        run.stage == (ScanStage::Stat { language }) && bytes > run.max_file_bytes ==> ({
            let after = run.next(ScanAnswer::Metadata(Some(bytes)));
            after.file_size && after.stage is NextEntry && after.counts == run.counts
                && after.read_bytes == run.read_bytes
        }),
        run.stage == (ScanStage::Stat { language }) && bytes <= run.max_file_bytes && run.read_bytes
            + bytes > run.max_read_bytes ==> ({
            let after = run.next(ScanAnswer::Metadata(Some(bytes)));
            after.read_limit && after.stage is NextEntry && after.counts == run.counts
                && after.read_bytes == run.read_bytes
        }),
        run.stage is NextEntry && run.files >= run.max_files && run.full ==> ({
            let after = run.next(
                ScanAnswer::Entry { expired: false, entry: ScanEntry::File { extension } },
            );
            after.file_count && after.stage is Done && after.counts == run.counts
        }),
{
}

/// Time that has run out ends the count where it stands, and it is said to be cut short.
pub proof fn law_expired_counts_end(run: ScanRun, entry: ScanEntry, bytes: Vec<u8>)
    ensures
        run.stage is NextEntry ==> ({
            let after = run.next(ScanAnswer::Entry { expired: true, entry });
            after.elapsed && after.stage is Done && after.counts == run.counts
        }),
        run.stage is Reading ==> ({
            let after = run.next(
                ScanAnswer::Chunk { expired_before: true, bytes, expired_after: true },
            );
            after.elapsed && after.stage is Done && after.counts == run.counts
        }),
        run.stage is NextEntry ==> run.next(ScanAnswer::NoMoreEntries).stage is Done && run.next(
            ScanAnswer::NoMoreEntries,
        ).truncated() == run.truncated(),
{
}

/// What is no file, and what cannot be read, is passed over, and so is a file of no known
/// language where the count is not full.
pub proof fn law_what_is_no_source_is_passed_over(run: ScanRun, extension: Option<String>)
    requires
        run.stage is NextEntry,
    ensures
        run.next(ScanAnswer::Entry { expired: false, entry: ScanEntry::Failed }) == run,
        run.next(ScanAnswer::Entry { expired: false, entry: ScanEntry::Skipped }) == run,
        !run.full && loc::language_of(strings::optional_text(extension)) == SourceLanguage::Other
            ==> run.next(
            ScanAnswer::Entry { expired: false, entry: ScanEntry::File { extension } },
        ) == run,
{
}

/// The count is cut short exactly where there is a reason, and every reason has its name.
pub proof fn law_cut_short_for_a_reason(run: ScanRun)
    ensures
        run.truncated() <==> run.reasons().len() > 0,
        run.elapsed <==> run.reasons().contains("elapsed"@),
        run.file_count <==> run.reasons().contains("file-count"@),
        run.file_size <==> run.reasons().contains("file-size"@),
        run.read_limit <==> run.reasons().contains("read-bytes"@),
{
    reveal_strlit("elapsed");
    reveal_strlit("file-count");
    reveal_strlit("file-size");
    reveal_strlit("read-bytes");
    assert("elapsed"@[0] == 'e' && "read-bytes"@[0] == 'r' && "file-count"@[0] == 'f'
        && "file-size"@[0] == 'f');
    assert("file-count"@.len() == 10 && "file-size"@.len() == 9);
    let reasons = run.reasons();
    let elapsed = if run.elapsed {
        1int
    } else {
        0
    };
    let counted = elapsed + if run.file_count {
        1int
    } else {
        0
    };
    let sized = counted + if run.file_size {
        1int
    } else {
        0
    };
    if run.elapsed {
        assert(reasons[0] == "elapsed"@);
    }
    if run.file_count {
        assert(reasons[elapsed] == "file-count"@);
    }
    if run.file_size {
        assert(reasons[counted] == "file-size"@);
    }
    if run.read_limit {
        assert(reasons[sized] == "read-bytes"@);
    }
}

/// The newest time is as late as every time that was met, and one of them.
pub proof fn law_the_newest_time_is_the_latest(first: Option<i128>, second: Option<i128>)
    ensures
        ({
            let newest = loc::later(first, second);
            &&& newest == first || newest == second
            &&& first is Some ==> newest is Some && newest->0 >= first->0
            &&& second is Some ==> newest is Some && newest->0 >= second->0
            &&& first is None && second is None ==> newest is None
        }),
{
}

/// What was counted is listed by the names of the languages, in their order, each with its
/// own lines; a language of which no file was met is not listed.
pub proof fn law_counts_are_listed_by_name(run: ScanRun)
    ensures
        ({
            let lines = run.lines();
            let javascript = if run.counts.go is Some {
                1int
            } else {
                0
            };
            let other = javascript + if run.counts.javascript is Some {
                1int
            } else {
                0
            };
            let python = other + if run.counts.other is Some {
                1int
            } else {
                0
            };
            let rust = python + if run.counts.python is Some {
                1int
            } else {
                0
            };
            let typescript = rust + if run.counts.rust is Some {
                1int
            } else {
                0
            };
            &&& lines.len() == typescript + if run.counts.typescript is Some {
                1int
            } else {
                0
            }
            &&& run.counts.go is Some ==> lines[0] == ("Go"@, run.counts.go->0)
            &&& run.counts.javascript is Some ==> lines[javascript] == (
                "JavaScript"@,
                run.counts.javascript->0,
            )
            &&& run.counts.other is Some ==> lines[other] == ("Other"@, run.counts.other->0)
            &&& run.counts.python is Some ==> lines[python] == ("Python"@, run.counts.python->0)
            &&& run.counts.rust is Some ==> lines[rust] == ("Rust"@, run.counts.rust->0)
            &&& run.counts.typescript is Some ==> lines[typescript] == (
                "TypeScript"@,
                run.counts.typescript->0,
            )
        }),
{
}

/// The lines of all languages are the sum of theirs.
pub proof fn law_all_lines_are_added_up(lines: Seq<(String, u64)>, last: (String, u64))
    ensures
        loc::all_lines(lines.push(last)) == loc::all_lines(lines) + last.1,
        loc::all_lines(Seq::empty()) == 0,
{
    assert(lines.push(last).drop_last() =~= lines);
}

/// The lines under a name are those of the entry of that name, and none where there is no
/// such entry.
pub proof fn law_lines_under_a_name(lines: Seq<(String, u64)>, name: Seq<char>, at: int)
    requires
        0 <= at <= lines.len(),
        forall|i: int| 0 <= i < at ==> (#[trigger] lines[i]).0@ != name,
        at < lines.len() ==> lines[at].0@ == name,
    ensures
        at < lines.len() ==> loc::lines_of(lines, name) == lines[at].1,
        at == lines.len() ==> loc::lines_of(lines, name) == 0,
    decreases lines.len(),
{
    if at > 0 {
        let rest = lines.skip(1);
        assert(lines[0].0@ != name);
        assert forall|i: int| 0 <= i < at - 1 implies (#[trigger] rest[i]).0@ != name by {
            assert(rest[i] == lines[i + 1]);
        }
        law_lines_under_a_name(rest, name, at - 1);
    }
}

/// A file that ends before its size, or before time does, has its bytes spent and adds no
/// line; where time has run out the count ends.
pub proof fn law_files_that_are_not_read_to_their_end(
    run: ScanRun,
    language: SourceLanguage,
    expected: u64,
    modified: Option<i128>,
    counter: SourceCounter,
    bytes: Vec<u8>,
)
    requires
        run.sound(),
        run.stage == (ScanStage::Reading { language, expected, modified, counter }),
        0 < bytes@.len() <= 8192,
        bytes@.len() <= expected - counter.bytes,
    ensures
        ({
            let ended = run.with_chunk(
                language,
                expected,
                modified,
                counter,
                false,
                Seq::empty(),
                false,
            );
            let late = run.with_chunk(
                language,
                expected,
                modified,
                counter,
                false,
                bytes@,
                true,
            );
            let before = run.with_chunk(language, expected, modified, counter, true, bytes@, true);
            &&& ended.stage is NextEntry && ended.read_bytes == run.read_bytes + counter.bytes
            &&& ended.counts == run.counts && ended.newest == run.newest
            &&& ended.elapsed == run.elapsed
            &&& late.stage is Done && late.elapsed && late.counts == run.counts
            &&& late.read_bytes == run.read_bytes + counter.bytes + bytes@.len()
            &&& before.stage is Done && before.elapsed && before.counts == run.counts
            &&& before.read_bytes == run.read_bytes + counter.bytes
        }),
{
}

/// A file that is read in parts is counted as its parts together: the bytes and the line
/// feeds add up, a zero byte in either part is one in the file, and the last part tells how
/// the file ends.
pub proof fn law_parts_of_a_file_add_up(counter: SourceCounter, bytes: Seq<u8>)
    requires
        counter.bytes + bytes.len() <= u64::MAX,
        counter.newlines <= counter.bytes,
        bytes.len() > 0,
    ensures
        ({
            let more = loc::counter_with(counter, bytes);
            &&& more.bytes == counter.bytes + bytes.len()
            &&& more.newlines == counter.newlines + loc::newlines(bytes)
            &&& more.zero <==> counter.zero || exists|i: int|
                0 <= i < bytes.len() && #[trigger] bytes[i] == 0
            &&& more.ended <==> bytes[bytes.len() - 1] == 10
            &&& !more.ended ==> loc::counter_lines(more) == more.newlines + 1
            &&& more.ended ==> loc::counter_lines(more) == more.newlines
        }),
{
    loc::lemma_newlines_bound(bytes);
}

} // verus!
