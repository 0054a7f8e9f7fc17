//! What asking for toolchains promises: which programs are asked, which answer is taken,
//! and what is told of those that gave none.
use vstd::prelude::*;
use crate::collect::project::{Detection, Language};
use crate::collect::toolchain;
use crate::collect::toolchain::{Answers, Ended, ProbeView, Runtime};
use crate::strings;

verus! {

/// The programs that a language runs on: Rust on its compiler, Python on `python3` and
/// else on `python`, Go on `go`, and the two languages of the web on Bun where the project
/// is one of Bun, and else on Node.
pub proof fn law_languages_run_on_their_programs(bun: bool)
    ensures
        toolchain::runtimes_of(Language::Rust, bun) =~= seq![Runtime::Rustc],
        toolchain::runtimes_of(Language::Python, bun) =~= seq![Runtime::Python3, Runtime::Python],
        toolchain::runtimes_of(Language::Go, bun) =~= seq![Runtime::Go],
        toolchain::runtimes_of(Language::TypeScript, true) =~= seq![Runtime::Bun],
        toolchain::runtimes_of(Language::JavaScript, true) =~= seq![Runtime::Bun],
        toolchain::runtimes_of(Language::TypeScript, false) =~= seq![Runtime::Node],
        toolchain::runtimes_of(Language::JavaScript, false) =~= seq![Runtime::Node],
        toolchain::binary_name(Runtime::Rustc) == "rustc"@,
        toolchain::binary_name(Runtime::Python3) == "python3"@,
        toolchain::binary_name(Runtime::Python) == "python"@,
        toolchain::binary_name(Runtime::Node) == "node"@,
        toolchain::binary_name(Runtime::Bun) == "bun"@,
        toolchain::binary_name(Runtime::Go) == "go"@,
{
}

/// The first of some programs that tells its version is the one that is taken, and its
/// version with it, whatever the programs behind it say.
pub proof fn law_the_first_version_is_taken(
    candidates: Seq<Runtime>,
    answers: Answers,
    failures: Seq<Seq<char>>,
    at: int,
)
    requires
        0 <= at < candidates.len(),
        answers[candidates[at]] is Ok,
        forall|i: int| 0 <= i < at ==> answers[#[trigger] candidates[i]] is Err,
    ensures
        toolchain::probed_from(candidates, answers, failures) == (ProbeView::Found {
            runtime: toolchain::binary_name(candidates[at]),
            version: answers[candidates[at]]->Ok_0,
        }),
    decreases candidates.len(),
{
    if at > 0 {
        let rest = candidates.skip(1);
        assert(answers[candidates[0]] is Err);
        assert forall|i: int| 0 <= i < at - 1 implies answers[#[trigger] rest[i]] is Err by {
            assert(rest[i] == candidates[i + 1]);
        }
        law_the_first_version_is_taken(
            rest,
            answers,
            failures.push(
                toolchain::binary_name(candidates[0]) + ": "@ + answers[candidates[0]]->Err_0,
            ),
            at - 1,
        );
    }
}

/// Where no program tells its version, the failure of each of them is told, in their order,
/// by the name of the program and its own words.
pub proof fn law_every_failure_is_told(
    candidates: Seq<Runtime>,
    answers: Answers,
    failures: Seq<Seq<char>>,
)
    requires
        forall|i: int| 0 <= i < candidates.len() ==> answers[#[trigger] candidates[i]] is Err,
    ensures
        toolchain::probed_from(candidates, answers, failures) is Failed,
        ({
            let told = toolchain::probed_from(candidates, answers, failures)->Failed_0;
            &&& told.len() == failures.len() + candidates.len()
            &&& forall|i: int| 0 <= i < failures.len() ==> #[trigger] told[i] == failures[i]
            &&& forall|i: int|
                0 <= i < candidates.len() ==> #[trigger] told[failures.len() + i]
                    == toolchain::binary_name(candidates[i]) + ": "@
                    + answers[candidates[i]]->Err_0
        }),
    decreases candidates.len(),
{
    if candidates.len() > 0 {
        let rest = candidates.skip(1);
        assert(answers[candidates[0]] is Err);
        assert forall|i: int| 0 <= i < rest.len() implies answers[#[trigger] rest[i]] is Err by {
            assert(rest[i] == candidates[i + 1]);
        }
        let more = failures.push(
            toolchain::binary_name(candidates[0]) + ": "@ + answers[candidates[0]]->Err_0,
        );
        law_every_failure_is_told(rest, answers, more);
        let told = toolchain::probed_from(candidates, answers, failures)->Failed_0;
        assert forall|i: int| 0 <= i < candidates.len() implies #[trigger] told[failures.len() + i]
            == toolchain::binary_name(candidates[i]) + ": "@ + answers[candidates[i]]->Err_0 by {
            if i == 0 {
                assert(told[failures.len() as int] == more[failures.len() as int]);
            } else {
                assert(told[more.len() + (i - 1)] == toolchain::binary_name(rest[i - 1]) + ": "@
                    + answers[rest[i - 1]]->Err_0);
            }
        }
        assert forall|i: int| 0 <= i < failures.len() implies #[trigger] told[i] == failures[i] by {
            assert(told[i] == more[i]);
        }
    }
}

/// The toolchain of a language has the version that its program told, and none where no
/// program told one; the second program of Python counts only where the first failed.
pub proof fn law_toolchains_have_the_version_that_was_told(
    language: Language,
    bun: bool,
    answers: Answers,
)
    ensures
        ({
            let tool = toolchain::toolchain_of(language, bun, answers);
            let first = toolchain::runtimes_of(language, bun)[0];
            &&& answers[first] is Ok ==> tool.version == Some(answers[first]->Ok_0) && tool.runtime
                == toolchain::binary_name(first)
            &&& language == Language::Python && answers[Runtime::Python3] is Err
                && answers[Runtime::Python] is Ok ==> tool.version == Some(
                answers[Runtime::Python]->Ok_0,
            ) && tool.runtime == "python"@
            &&& language == Language::Python && answers[Runtime::Python3] is Err
                && answers[Runtime::Python] is Err ==> tool.version is None && tool.runtime
                == "python3"@
            &&& language != Language::Python && answers[first] is Err ==> tool.version is None
                && tool.runtime == toolchain::binary_name(first)
        }),
        toolchain::toolchain_of(Language::Rust, bun, answers).language == "Rust"@,
        toolchain::toolchain_of(Language::Python, bun, answers).language == "Python"@,
        toolchain::toolchain_of(Language::TypeScript, bun, answers).language == "TypeScript"@,
        toolchain::toolchain_of(Language::JavaScript, bun, answers).language == "JavaScript"@,
        toolchain::toolchain_of(Language::Go, bun, answers).language == "Go"@,
{
    let candidates = toolchain::runtimes_of(language, bun);
    if answers[candidates[0]] is Ok {
        law_the_first_version_is_taken(candidates, answers, Seq::empty(), 0);
    } else if language == Language::Python && answers[Runtime::Python] is Ok {
        law_the_first_version_is_taken(candidates, answers, Seq::empty(), 1);
    } else {
        law_every_failure_is_told(candidates, answers, Seq::empty());
    }
}

/// The toolchains that are asked for are those of every language that was found, in full,
/// and else that of the primary language alone.
pub proof fn law_languages_that_are_asked_for(detection: Detection)
    ensures
        toolchain::wanted(detection, true) == detection.detected@,
        detection.primary is Some ==> toolchain::wanted(detection, false) =~= seq![
            detection.primary->0,
        ],
        detection.primary is None ==> toolchain::wanted(detection, false).len() == 0,
{
}

/// A warning comes for exactly those languages of which no program told its version: one
/// for each of them.
pub proof fn law_silent_languages_are_warned_of(
    languages: Seq<Language>,
    last: Language,
    bun: bool,
    answers: Answers,
)
    ensures
        ({
            let before = toolchain::warnings_of(languages, bun, answers);
            let after = toolchain::warnings_of(languages.push(last), bun, answers);
            let tool = toolchain::toolchain_of(last, bun, answers);
            &&& tool.version is Some ==> after == before
            &&& tool.version is None ==> after.len() == before.len() + 1 && after.last().code
                == "toolchain"@ && after.last().subject == Some(tool.runtime)
        }),
        toolchain::warnings_of(Seq::empty(), bun, answers).len() == 0,
{
    assert(languages.push(last).drop_last() =~= languages);
    assert(languages.push(last).last() == last);
}

/// Where nothing is left to ask, everything is known: for every language a program told
/// its version, or all of its programs have answered.
pub proof fn law_nothing_is_left_to_ask(
    languages: Seq<Language>,
    bun: bool,
    answers: Answers,
    at: int,
)
    requires
        toolchain::next_asked(languages, bun, answers) is None,
        0 <= at < languages.len(),
    ensures
        ({
            let first = toolchain::runtimes_of(languages[at], bun)[0];
            &&& answers.dom().contains(first)
            &&& languages[at] == Language::Python && answers[Runtime::Python3] is Err
                ==> answers.dom().contains(Runtime::Python)
        }),
    decreases languages.len(),
{
    let candidates = toolchain::runtimes_of(languages[0], bun);
    assert(toolchain::pending(candidates, answers) is None);
    if at > 0 {
        law_nothing_is_left_to_ask(languages.skip(1), bun, answers, at - 1);
        assert(languages.skip(1)[at - 1] == languages[at]);
    } else if languages[0] == Language::Python && answers[Runtime::Python3] is Err {
        assert(candidates[0] == Runtime::Python3);
        assert(candidates.skip(1)[0] == Runtime::Python);
        reveal_with_fuel(toolchain::pending, 3);
    }
}

/// The version that a program tells is what it wrote, without the white space around it:
/// to stdout, or to stderr where that is blank. It tells none where it wrote too much, no
/// text, or failed.
pub proof fn law_versions_are_what_was_written(ended: Ended, limit: u64)
    ensures
        ({
            let told = toolchain::version_of(ended, limit);
            let sound = !ended.truncated && ended.stdout is Some && ended.stderr is Some
                && ended.success;
            &&& told is Ok <==> sound
            &&& sound && strings::trimmed(ended.stdout->0@).len() > 0 ==> told->Ok_0
                == strings::trimmed(ended.stdout->0@)
            &&& sound && strings::trimmed(ended.stdout->0@).len() == 0 ==> told->Ok_0
                == strings::trimmed(ended.stderr->0@)
            &&& ended.truncated ==> told->Err_0 == "output truncated at "@ + strings::decimal_text(
                limit as nat,
            ) + " bytes"@
            &&& !ended.truncated && ended.stdout is Some && ended.stderr is Some && !ended.success
                ==> told->Err_0 == "exited "@ + ended.status@ + ": "@ + strings::trimmed(
                ended.stderr->0@,
            )
        }),
{
}

} // verus!
