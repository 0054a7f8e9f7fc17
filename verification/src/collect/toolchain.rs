//! The toolchains of a project's languages, asked for their versions.
use vstd::prelude::*;
use crate::collect::project;
use crate::collect::project::{Detection, Language};
use crate::model;
use crate::model::{push_diagnostic, Diagnostic, DiagnosticSeverity, DiagnosticView, Toolchain};
use crate::strings;
use crate::strings::{chars_of, decimal, join, trim};

verus! {

/// A program that tells its version.
#[derive(Clone, Copy, Debug, PartialEq, Eq, Structural)]
pub enum Runtime {
    Rustc,
    Python3,
    Python,
    Node,
    Bun,
    Go,
}

pub open spec fn binary_name(runtime: Runtime) -> Seq<char> {
    match runtime {
        Runtime::Rustc => "rustc"@,
        Runtime::Python3 => "python3"@,
        Runtime::Python => "python"@,
        Runtime::Node => "node"@,
        Runtime::Bun => "bun"@,
        Runtime::Go => "go"@,
    }
}

impl Runtime {
    /// The program's name.
    pub fn bin(self) -> (name: &'static str)
        ensures
            name@ == binary_name(self),
    {
        match self {
            Runtime::Rustc => "rustc",
            Runtime::Python3 => "python3",
            Runtime::Python => "python",
            Runtime::Node => "node",
            Runtime::Bun => "bun",
            Runtime::Go => "go",
        }
    }

    /// The one argument that asks for its version.
    pub fn argument(self) -> (argument: &'static str)
        ensures
            argument@ == if self == Runtime::Go {
                "version"@
            } else {
                "--version"@
            },
    {
        match self {
            Runtime::Go => "version",
            _ => "--version",
        }
    }
}

/// The programs that a language may run on, the first one first.
pub open spec fn runtimes_of(language: Language, bun: bool) -> Seq<Runtime> {
    match language {
        Language::Rust => seq![Runtime::Rustc],
        Language::Python => seq![Runtime::Python3].push(Runtime::Python),
        Language::TypeScript | Language::JavaScript => if bun {
            seq![Runtime::Bun]
        } else {
            seq![Runtime::Node]
        },
        Language::Go => seq![Runtime::Go],
    }
}

pub fn runtimes(language: Language, bun: bool) -> (candidates: Vec<Runtime>)
    ensures
        candidates@ == runtimes_of(language, bun),
{
    let mut candidates: Vec<Runtime> = Vec::new();
    match language {
        Language::Rust => {
            candidates.push(Runtime::Rustc);
        },
        Language::Python => {
            candidates.push(Runtime::Python3);
            candidates.push(Runtime::Python);
        },
        Language::TypeScript | Language::JavaScript => {
            candidates.push(
                if bun {
                    Runtime::Bun
                } else {
                    Runtime::Node
                },
            );
        },
        Language::Go => {
            candidates.push(Runtime::Go);
        },
    }
    assert(candidates@ =~= runtimes_of(language, bun));
    candidates
}

/// What the programs answered: a version each, or words of failure.
pub type Answers = Map<Runtime, Result<Seq<char>, Seq<char>>>;

/// What asking for a version gave: which program has it and which it is, or the failures.
pub enum ProbeView {
    Found { runtime: Seq<char>, version: Seq<char> },
    Failed(Seq<Seq<char>>),
}

/// The first of some programs that tells its version, after some that did not.
pub open spec fn probed_from(candidates: Seq<Runtime>, answers: Answers, failures: Seq<Seq<char>>) -> ProbeView
    decreases candidates.len(),
{
    if candidates.len() == 0 {
        ProbeView::Failed(failures)
    } else {
        match answers[candidates[0]] {
            Ok(version) => ProbeView::Found { runtime: binary_name(candidates[0]), version },
            Err(message) => probed_from(
                candidates.skip(1),
                answers,
                failures.push(binary_name(candidates[0]) + ": "@ + message),
            ),
        }
    }
}

pub open spec fn probed(candidates: Seq<Runtime>, answers: Answers) -> ProbeView {
    probed_from(candidates, answers, Seq::empty())
}

pub enum Probe {
    Found { runtime: String, version: String },
    Failed(Vec<String>),
}

impl View for Probe {
    type V = ProbeView;

    open spec fn view(&self) -> ProbeView {
        match *self {
            Probe::Found { runtime, version } => ProbeView::Found {
                runtime: runtime@,
                version: version@,
            },
            Probe::Failed(failures) => ProbeView::Failed(strings::texts(failures@)),
        }
    }
}

pub open spec fn answer_words(answer: Result<String, String>) -> Result<Seq<char>, Seq<char>> {
    match answer {
        Ok(version) => Ok(version@),
        Err(message) => Err(message@),
    }
}

/// What was asked, in order, and what it answered.
pub open spec fn heard_answers(heard: Seq<(Runtime, Result<String, String>)>) -> Answers
    decreases heard.len(),
{
    if heard.len() == 0 {
        Map::empty()
    } else {
        heard_answers(heard.drop_last()).insert(heard.last().0, answer_words(heard.last().1))
    }
}

/// Nothing was asked twice.
pub open spec fn once(heard: Seq<(Runtime, Result<String, String>)>) -> bool {
    forall|i: int, j: int|
        0 <= i < j < heard.len() ==> (#[trigger] heard[i]).0 != (#[trigger] heard[j]).0
}

/// The first of some programs that was not asked yet, up to one that told its version.
pub open spec fn pending(candidates: Seq<Runtime>, answers: Answers) -> Option<Runtime>
    decreases candidates.len(),
{
    if candidates.len() == 0 {
        None
    } else if !answers.dom().contains(candidates[0]) {
        Some(candidates[0])
    } else if answers[candidates[0]] is Ok {
        None
    } else {
        pending(candidates.skip(1), answers)
    }
}

/// The program to ask next, for the languages in order: none where all is known.
pub open spec fn next_asked(languages: Seq<Language>, bun: bool, answers: Answers) -> Option<Runtime>
    decreases languages.len(),
{
    if languages.len() == 0 {
        None
    } else {
        match pending(runtimes_of(languages[0], bun), answers) {
            Some(runtime) => Some(runtime),
            None => next_asked(languages.skip(1), bun, answers),
        }
    }
}

/// Each program was asked when it was the next to ask.
pub open spec fn in_turn(
    languages: Seq<Language>,
    bun: bool,
    heard: Seq<(Runtime, Result<String, String>)>,
) -> bool {
    forall|k: int|
        0 <= k < heard.len() ==> next_asked(languages, bun, heard_answers(heard.take(k))) == Some(
            (#[trigger] heard[k]).0,
        )
}

proof fn lemma_pending(candidates: Seq<Runtime>, answers: Answers)
    ensures
        pending(candidates, answers) matches Some(runtime) ==> !answers.dom().contains(runtime)
            && candidates.contains(runtime),
    decreases candidates.len(),
{
    if candidates.len() > 0 && answers.dom().contains(candidates[0]) && answers[candidates[0]] is Err {
        lemma_pending(candidates.skip(1), answers);
        if let Some(runtime) = pending(candidates, answers) {
            let rest = candidates.skip(1);
            let i = choose|i: int| 0 <= i < rest.len() && rest[i] == runtime;
            assert(candidates[i + 1] == runtime);
        }
    } else if candidates.len() > 0 {
        assert(candidates.contains(candidates[0]));
    }
}

/// No program is asked that has answered already, and Python only where Python 3 failed.
pub proof fn law_no_answer_is_asked_for_again(languages: Seq<Language>, bun: bool, answers: Answers)
    ensures
        next_asked(languages, bun, answers) matches Some(runtime) ==> !answers.dom().contains(
            runtime,
        ),
        next_asked(languages, bun, answers) == Some(Runtime::Python) ==> answers.dom().contains(
            Runtime::Python3,
        ) && answers[Runtime::Python3] is Err,
    decreases languages.len(),
{
    if languages.len() > 0 {
        let candidates = runtimes_of(languages[0], bun);
        lemma_pending(candidates, answers);
        law_no_answer_is_asked_for_again(languages.skip(1), bun, answers);
        if pending(candidates, answers) == Some(Runtime::Python) {
            assert(languages[0] == Language::Python);
            assert(candidates[0] == Runtime::Python3);
        }
    }
}

proof fn lemma_heard_holds(heard: Seq<(Runtime, Result<String, String>)>, i: int)
    requires
        0 <= i < heard.len(),
    ensures
        heard_answers(heard).dom().contains(heard[i].0),
    decreases heard.len(),
{
    if i < heard.len() - 1 {
        lemma_heard_holds(heard.drop_last(), i);
        assert(heard.drop_last()[i] == heard[i]);
    }
}

/// Programs that are asked in turn are asked once each.
pub proof fn law_no_program_is_asked_twice(
    languages: Seq<Language>,
    bun: bool,
    heard: Seq<(Runtime, Result<String, String>)>,
)
    requires
        in_turn(languages, bun, heard),
    ensures
        once(heard),
{
    assert forall|i: int, j: int| 0 <= i < j < heard.len() implies (#[trigger] heard[i]).0 != (
    #[trigger] heard[j]).0 by {
        let before = heard.take(j);
        assert(before[i] == heard[i]);
        lemma_heard_holds(before, i);
        law_no_answer_is_asked_for_again(languages, bun, heard_answers(before));
    }
}

proof fn lemma_heard(heard: Seq<(Runtime, Result<String, String>)>, runtime: Runtime)
    requires
        once(heard),
    ensures
        heard_answers(heard).dom().contains(runtime) == exists|i: int|
            0 <= i < heard.len() && (#[trigger] heard[i]).0 == runtime,
        forall|i: int|
            0 <= i < heard.len() && (#[trigger] heard[i]).0 == runtime ==> heard_answers(
                heard,
            )[runtime] == answer_words(heard[i].1),
    decreases heard.len(),
{
    if heard.len() > 0 {
        let front = heard.drop_last();
        assert(once(front)) by {
            assert forall|i: int, j: int| 0 <= i < j < front.len() implies (#[trigger] front[i]).0
                != (#[trigger] front[j]).0 by {
                assert(heard[i] == front[i] && heard[j] == front[j]);
            }
        }
        lemma_heard(front, runtime);
        let last = heard.len() - 1;
        if heard[last].0 == runtime {
            assert forall|i: int| 0 <= i < heard.len() && (#[trigger] heard[i]).0
                == runtime implies i == last by {}
        } else {
            if exists|i: int| 0 <= i < front.len() && (#[trigger] front[i]).0 == runtime {
                let i = choose|i: int| 0 <= i < front.len() && (#[trigger] front[i]).0 == runtime;
                assert(heard[i] == front[i]);
            }
            assert forall|i: int| 0 <= i < heard.len() && (#[trigger] heard[i]).0
                == runtime implies heard_answers(heard)[runtime] == answer_words(heard[i].1) by {
                assert(front[i] == heard[i]);
            }
            assert forall|i: int| 0 <= i < heard.len() && (#[trigger] heard[i]).0
                == runtime implies heard_answers(front).dom().contains(runtime) by {
                assert(front[i] == heard[i]);
            }
        }
    }
}

fn copy_answer(answer: &Result<String, String>) -> (copied: Result<String, String>)
    ensures
        answer_words(copied) == answer_words(*answer),
{
    match answer {
        Ok(version) => Ok(version.as_str().to_owned()),
        Err(message) => Err(message.as_str().to_owned()),
    }
}

/// What a program answered, where it was asked.
fn recall(heard: &Vec<(Runtime, Result<String, String>)>, runtime: Runtime) -> (answer: Option<
    Result<String, String>,
>)
    requires
        once(heard@),
    ensures
        match answer {
            Some(answer) => heard_answers(heard@).dom().contains(runtime) && heard_answers(
                heard@,
            )[runtime] == answer_words(answer),
            None => !heard_answers(heard@).dom().contains(runtime),
        },
{
    let mut at: usize = 0;
    proof {
        lemma_heard(heard@, runtime);
    }
    while at < heard.len()
        invariant
            at <= heard@.len(),
            forall|i: int| 0 <= i < at ==> (#[trigger] heard@[i]).0 != runtime,
            heard_answers(heard@).dom().contains(runtime) == exists|i: int|
                0 <= i < heard@.len() && (#[trigger] heard@[i]).0 == runtime,
            forall|i: int|
                0 <= i < heard@.len() && (#[trigger] heard@[i]).0 == runtime ==> heard_answers(
                    heard@,
                )[runtime] == answer_words(heard@[i].1),
        decreases heard@.len() - at,
    {
        if heard[at].0 == runtime {
            return Some(copy_answer(&heard[at].1));
        }
        at = at + 1;
    }
    None
}

/// What the answers say of some programs, the first that told its version first.
fn probe(candidates: &Vec<Runtime>, heard: &Vec<(Runtime, Result<String, String>)>) -> (found:
    Probe)
    requires
        once(heard@),
        pending(candidates@, heard_answers(heard@)) is None,
    ensures
        found@ == probed(candidates@, heard_answers(heard@)),
{
    let ghost answers = heard_answers(heard@);
    let mut failures: Vec<String> = Vec::new();
    let mut at: usize = 0;
    proof {
        assert(candidates@.skip(0) =~= candidates@);
        assert(strings::texts(failures@) =~= Seq::empty());
    }
    while at < candidates.len()
        invariant
            at <= candidates@.len(),
            once(heard@),
            answers == heard_answers(heard@),
            pending(candidates@.skip(at as int), answers) is None,
            probed(candidates@, answers) == probed_from(
                candidates@.skip(at as int),
                answers,
                strings::texts(failures@),
            ),
        decreases candidates@.len() - at,
    {
        let runtime = candidates[at];
        proof {
            assert(candidates@.skip(at as int)[0] == runtime);
            assert(candidates@.skip(at as int).skip(1) =~= candidates@.skip(at + 1));
        }
        let answer = recall(heard, runtime);
        match answer {
            Some(Ok(version)) => {
                return Probe::Found { runtime: runtime.bin().to_owned(), version };
            },
            Some(Err(message)) => {
                let ghost held = failures@;
                failures.push(runtime.bin().to_owned().concat(": ").concat(message.as_str()));
                assert(strings::texts(failures@) =~= strings::texts(held).push(
                    failures@.last()@,
                ));
            },
            None => {},
        }
        at = at + 1;
    }
    Probe::Failed(failures)
}

pub struct ToolchainView {
    pub language: Seq<char>,
    pub runtime: Seq<char>,
    pub version: Option<Seq<char>>,
}

impl View for Toolchain {
    type V = ToolchainView;

    open spec fn view(&self) -> ToolchainView {
        ToolchainView {
            language: self.language@,
            runtime: self.runtime@,
            version: strings::optional_text(self.version),
        }
    }
}

pub open spec fn toolchain_views(toolchains: Seq<Toolchain>) -> Seq<ToolchainView> {
    Seq::new(toolchains.len(), |i: int| toolchains[i]@)
}

/// The languages whose toolchains are asked for: all that were found, or the primary one.
pub open spec fn wanted(detection: Detection, full: bool) -> Seq<Language> {
    if full {
        detection.detected@
    } else {
        match detection.primary {
            Some(language) => seq![language],
            None => Seq::empty(),
        }
    }
}

/// The toolchain of a language: the program that told its version, or the one that was to.
pub open spec fn toolchain_of(language: Language, bun: bool, answers: Answers) -> ToolchainView {
    let candidates = runtimes_of(language, bun);
    match probed(candidates, answers) {
        ProbeView::Found { runtime, version } => ToolchainView {
            language: project::language_name(language),
            runtime,
            version: Some(version),
        },
        ProbeView::Failed(failures) => ToolchainView {
            language: project::language_name(language),
            runtime: binary_name(candidates[0]),
            version: None,
        },
    }
}

/// The toolchains of some languages in order.
pub open spec fn toolchains_of(languages: Seq<Language>, bun: bool, answers: Answers) -> Seq<
    ToolchainView,
> {
    Seq::new(languages.len(), |i: int| toolchain_of(languages[i], bun, answers))
}

/// A warning for every language of which no program told its version.
pub open spec fn warnings_of(languages: Seq<Language>, bun: bool, answers: Answers) -> Seq<
    DiagnosticView,
>
    decreases languages.len(),
{
    if languages.len() == 0 {
        Seq::empty()
    } else {
        let before = warnings_of(languages.drop_last(), bun, answers);
        let candidates = runtimes_of(languages.last(), bun);
        match probed(candidates, answers) {
            ProbeView::Found { .. } => before,
            ProbeView::Failed(failures) => before.push(
                DiagnosticView {
                    severity: DiagnosticSeverity::Warning,
                    code: "toolchain"@,
                    message: strings::joined(failures, "; "@),
                    subject: Some(binary_name(candidates[0])),
                },
            ),
        }
    }
}

fn wanted_languages(detection: &Detection, full: bool) -> (languages: Vec<Language>)
    ensures
        languages@ == wanted(*detection, full),
{
    let mut languages: Vec<Language> = Vec::new();
    if full {
        let mut at: usize = 0;
        while at < detection.detected.len()
            invariant
                at <= detection.detected@.len(),
                languages@ == detection.detected@.take(at as int),
            decreases detection.detected@.len() - at,
        {
            languages.push(detection.detected[at]);
            at = at + 1;
            assert(languages@ =~= detection.detected@.take(at as int));
        }
        assert(detection.detected@.take(at as int) =~= detection.detected@);
    } else if let Some(language) = detection.primary {
        languages.push(language);
        assert(languages@ =~= seq![language]);
    }
    languages
}

/// The questions to the programs of some languages. Each program is asked once at most, and
/// no more of them than it takes to know a version of each language.
pub struct Inquiry {
    pub languages: Vec<Language>,
    pub bun: bool,
    pub heard: Vec<(Runtime, Result<String, String>)>,
}

impl Inquiry {
    /// Each program was asked in its turn.
    pub open spec fn sound(self) -> bool {
        in_turn(self.languages@, self.bun, self.heard@)
    }

    pub open spec fn answers(self) -> Answers {
        heard_answers(self.heard@)
    }

    /// The program to ask next.
    pub open spec fn next(self) -> Option<Runtime> {
        next_asked(self.languages@, self.bun, self.answers())
    }

    /// The inquiry for a project, before anything is asked.
    pub fn new(detection: &Detection, full: bool) -> (inquiry: Self)
        ensures
            inquiry.sound(),
            inquiry.languages@ == wanted(*detection, full),
            inquiry.bun == detection.bun,
            inquiry.heard@.len() == 0,
    {
        Inquiry {
            languages: wanted_languages(detection, full),
            bun: detection.bun,
            heard: Vec::new(),
        }
    }

    /// The program to ask next, where one is left: one that has not answered yet, and Python
    /// only after Python 3 failed.
    pub fn question(&self) -> (question: Option<Runtime>)
        requires
            self.sound(),
        ensures
            question == self.next(),
            question is Some ==> !self.answers().dom().contains(question->0),
            question == Some(Runtime::Python) ==> self.answers().dom().contains(Runtime::Python3)
                && self.answers()[Runtime::Python3] is Err,
    {
        let ghost answers = self.answers();
        proof {
            law_no_program_is_asked_twice(self.languages@, self.bun, self.heard@);
            assert(self.languages@.skip(0) =~= self.languages@);
        }
        let mut at: usize = 0;
        while at < self.languages.len()
            invariant
                at <= self.languages@.len(),
                once(self.heard@),
                answers == self.answers(),
                self.next() == next_asked(self.languages@.skip(at as int), self.bun, answers),
            decreases self.languages@.len() - at,
        {
            proof {
                assert(self.languages@.skip(at as int)[0] == self.languages@[at as int]);
                assert(self.languages@.skip(at as int).skip(1) =~= self.languages@.skip(at + 1));
            }
            let candidates = runtimes(self.languages[at], self.bun);
            let found = first_pending(&candidates, &self.heard);
            if found.is_some() {
                proof {
                    law_no_answer_is_asked_for_again(self.languages@, self.bun, answers);
                }
                return found;
            }
            at = at + 1;
        }
        None
    }

    /// Takes the answer of the program that was to be asked.
    pub fn answer(&mut self, answer: Result<String, String>)
        requires
            old(self).sound(),
        ensures
            final(self).sound(),
            final(self).languages == old(self).languages,
            final(self).bun == old(self).bun,
            final(self).heard@ == match old(self).next() {
                Some(runtime) => old(self).heard@.push((runtime, answer)),
                None => old(self).heard@,
            },
            final(self).answers() == match old(self).next() {
                Some(runtime) => old(self).answers().insert(runtime, answer_words(answer)),
                None => old(self).answers(),
            },
    {
        if let Some(runtime) = self.question() {
            let ghost before = self.heard@;
            self.heard.push((runtime, answer));
            proof {
                let now = self.heard@;
                assert(now.drop_last() =~= before);
                assert forall|k: int| 0 <= k < now.len() implies next_asked(
                    self.languages@,
                    self.bun,
                    heard_answers(now.take(k)),
                ) == Some((#[trigger] now[k]).0) by {
                    if k < before.len() {
                        assert(now[k] == before[k]);
                        assert(now.take(k) =~= before.take(k));
                    } else {
                        assert(now.take(k) =~= before);
                    }
                }
            }
        }
    }

    /// The toolchains, once all is known; a language whose programs all failed leaves a warning.
    pub fn conclude(self, diagnostics: &mut Vec<Diagnostic>) -> (toolchains: Vec<Toolchain>)
        requires
            self.sound(),
            self.next() is None,
        ensures
            toolchain_views(toolchains@) == toolchains_of(
                self.languages@,
                self.bun,
                self.answers(),
            ),
            model::diagnostic_views(final(diagnostics)@) == model::diagnostic_views(
                old(diagnostics)@,
            ) + warnings_of(self.languages@, self.bun, self.answers()),
    {
        let bun = self.bun;
        let ghost languages = self.languages@;
        let ghost answers = self.answers();
        let ghost before = model::diagnostic_views(diagnostics@);
        let mut toolchains: Vec<Toolchain> = Vec::new();
        let mut at: usize = 0;
        proof {
            law_no_program_is_asked_twice(languages, bun, self.heard@);
            assert(languages.skip(0) =~= languages);
            assert(toolchain_views(toolchains@) =~= toolchains_of(
                languages.take(0),
                bun,
                answers,
            ));
            assert(before =~= before + warnings_of(languages.take(0), bun, answers));
        }
        while at < self.languages.len()
            invariant
                at <= self.languages@.len(),
                languages == self.languages@,
                bun == self.bun,
                answers == heard_answers(self.heard@),
                once(self.heard@),
                next_asked(languages.skip(at as int), bun, answers) is None,
                toolchain_views(toolchains@) == toolchains_of(
                    languages.take(at as int),
                    bun,
                    answers,
                ),
                model::diagnostic_views(diagnostics@) == before + warnings_of(
                    languages.take(at as int),
                    bun,
                    answers,
                ),
            decreases self.languages@.len() - at,
        {
            let language = self.languages[at];
            let candidates = runtimes(language, bun);
            let ghost past = languages.take(at as int);
            let ghost all = languages.take(at + 1);
            proof {
                assert(languages.skip(at as int)[0] == language);
                assert(languages.skip(at as int).skip(1) =~= languages.skip(at + 1));
                assert(all.drop_last() =~= past);
                assert(all.last() == language);
            }
            let found = probe(&candidates, &self.heard);
            let ghost held = toolchains@;
            match found {
                Probe::Found { runtime, version } => {
                    toolchains.push(
                        Toolchain {
                            language: language.name().to_owned(),
                            runtime,
                            version: Some(version),
                        },
                    );
                },
                Probe::Failed(failures) => {
                    push_diagnostic(
                        diagnostics,
                        Diagnostic {
                            severity: DiagnosticSeverity::Warning,
                            code: "toolchain".to_owned(),
                            message: join(&failures, "; "),
                            subject: Some(candidates[0].bin().to_owned()),
                        },
                    );
                    toolchains.push(
                        Toolchain {
                            language: language.name().to_owned(),
                            runtime: candidates[0].bin().to_owned(),
                            version: None,
                        },
                    );
                },
            }
            proof {
                assert(toolchain_views(toolchains@) =~= toolchain_views(held).push(
                    toolchains@.last()@,
                ));
                assert(toolchains_of(all, bun, answers) =~= toolchains_of(
                    past,
                    bun,
                    answers,
                ).push(toolchain_of(language, bun, answers)));
                assert(model::diagnostic_views(diagnostics@) =~= before + warnings_of(
                    all,
                    bun,
                    answers,
                ));
            }
            at = at + 1;
        }
        assert(languages.take(at as int) =~= languages);
        toolchains
    }
}

fn first_pending(
    candidates: &Vec<Runtime>,
    heard: &Vec<(Runtime, Result<String, String>)>,
) -> (found: Option<Runtime>)
    requires
        once(heard@),
    ensures
        found == pending(candidates@, heard_answers(heard@)),
{
    let mut at: usize = 0;
    assert(candidates@.skip(0) =~= candidates@);
    while at < candidates.len()
        invariant
            at <= candidates@.len(),
            once(heard@),
            pending(candidates@, heard_answers(heard@)) == pending(
                candidates@.skip(at as int),
                heard_answers(heard@),
            ),
        decreases candidates@.len() - at,
    {
        let runtime = candidates[at];
        proof {
            assert(candidates@.skip(at as int)[0] == runtime);
            assert(candidates@.skip(at as int).skip(1) =~= candidates@.skip(at + 1));
        }
        match recall(heard, runtime) {
            None => {
                return Some(runtime);
            },
            Some(Ok(_)) => {
                return None;
            },
            Some(Err(_)) => {},
        }
        at = at + 1;
    }
    None
}

/// How many programs have not answered.
spec fn unheard(answers: Answers) -> nat {
    let missing = |runtime: Runtime| -> nat {
        if answers.dom().contains(runtime) {
            0
        } else {
            1
        }
    };
    missing(Runtime::Rustc) + missing(Runtime::Python3) + missing(Runtime::Python) + missing(
        Runtime::Node,
    ) + missing(Runtime::Bun) + missing(Runtime::Go)
}

/// Every answer is one that the runner gives.
pub open spec fn answered<F: Fn(Runtime) -> Result<String, String>>(
    runner: &F,
    heard: Seq<(Runtime, Result<String, String>)>,
) -> bool {
    forall|k: int|
        0 <= k < heard.len() ==> call_ensures(
            *runner,
            ((#[trigger] heard[k]).0,),
            heard[k].1,
        )
}

/// Asks for the toolchains of a project, by `runner`: what it is asked, and in which order, is
/// what an inquiry asks. One language whose programs all fail leaves a warning.
pub fn collect_with_runner<F: Fn(Runtime) -> Result<String, String>>(
    detection: &Detection,
    full: bool,
    diagnostics: &mut Vec<Diagnostic>,
    runner: &F,
) -> (toolchains: Vec<Toolchain>)
    requires
        forall|runtime: Runtime| call_requires(*runner, (runtime,)),
    ensures
        exists|heard: Seq<(Runtime, Result<String, String>)>| #[trigger]
            answered(runner, heard) && in_turn(wanted(*detection, full), detection.bun, heard)
                && once(heard) && next_asked(
                wanted(*detection, full),
                detection.bun,
                heard_answers(heard),
            ) is None && toolchain_views(toolchains@) == toolchains_of(
                wanted(*detection, full),
                detection.bun,
                heard_answers(heard),
            ) && model::diagnostic_views(final(diagnostics)@) == model::diagnostic_views(
                old(diagnostics)@,
            ) + warnings_of(wanted(*detection, full), detection.bun, heard_answers(heard)),
{
    let mut inquiry = Inquiry::new(detection, full);
    let mut question = inquiry.question();
    while question.is_some()
        invariant
            forall|runtime: Runtime| call_requires(*runner, (runtime,)),
            inquiry.sound(),
            inquiry.languages@ == wanted(*detection, full),
            inquiry.bun == detection.bun,
            question == inquiry.next(),
            question is Some ==> !inquiry.answers().dom().contains(question->0),
            answered(runner, inquiry.heard@),
        decreases unheard(inquiry.answers()),
    {
        let runtime = question.unwrap();
        let answer = runner(runtime);
        let ghost before = inquiry.heard@;
        inquiry.answer(answer);
        proof {
            assert forall|k: int| 0 <= k < inquiry.heard@.len() implies call_ensures(
                *runner,
                ((#[trigger] inquiry.heard@[k]).0,),
                inquiry.heard@[k].1,
            ) by {
                if k < before.len() {
                    assert(inquiry.heard@[k] == before[k]);
                }
            }
        }
        question = inquiry.question();
    }
    let ghost heard = inquiry.heard@;
    proof {
        law_no_program_is_asked_twice(inquiry.languages@, inquiry.bun, heard);
        assert(answered(runner, heard));
    }
    inquiry.conclude(diagnostics)
}

/// What to do with a program that still runs: to look again in so many milliseconds, or to
/// end it.
#[derive(Clone, Copy, Debug, PartialEq, Eq, Structural)]
pub enum Patience {
    Wait { milliseconds: u64 },
    End,
}

/// Whether a program that has run for so many nanoseconds is waited for.
pub fn patience(elapsed_nanoseconds: u128, timeout_milliseconds: u64) -> (patience: Patience)
    ensures
        patience == if elapsed_nanoseconds < timeout_milliseconds * 1_000_000 {
            Patience::Wait { milliseconds: 5 }
        } else {
            Patience::End
        },
{
    if elapsed_nanoseconds < timeout_milliseconds as u128 * 1_000_000 {
        Patience::Wait { milliseconds: 5 }
    } else {
        Patience::End
    }
}

/// The output of a program, read so far and no further than so many bytes.
pub struct BoundedOutput {
    pub bytes: Vec<u8>,
    pub truncated: bool,
    pub limit: usize,
}

impl BoundedOutput {
    pub open spec fn sound(self) -> bool {
        self.bytes@.len() <= self.limit
    }

    /// Nothing is read yet.
    pub fn new(limit: usize) -> (output: Self)
        ensures
            output.sound(),
            output.bytes@.len() == 0,
            !output.truncated,
            output.limit == limit,
    {
        BoundedOutput { bytes: Vec::new(), truncated: false, limit }
    }

    /// How many bytes to read next: one more than there is room for, so that more shows, and
    /// no more than 8192 at once.
    pub fn wanted(&self) -> (size: usize)
        requires
            self.sound(),
        ensures
            size >= 1,
            size == if self.limit - self.bytes@.len() >= 8192 {
                8192
            } else {
                self.limit - self.bytes@.len() + 1
            },
    {
        let room: usize = self.limit - self.bytes.len();
        if room >= 8192 {
            8192
        } else {
            room + 1
        }
    }

    /// Takes what was read, as far as there is room; tells whether it is over: nothing more
    /// came, or more than there is room for.
    pub fn take(&mut self, chunk: &Vec<u8>) -> (over: bool)
        requires
            old(self).sound(),
        ensures
            final(self).sound(),
            final(self).limit == old(self).limit,
            ({
                let room = old(self).limit - old(self).bytes@.len();
                &&& over == (chunk@.len() == 0 || chunk@.len() > room)
                &&& final(self).truncated == (old(self).truncated || chunk@.len() > room)
                &&& final(self).bytes@ == old(self).bytes@ + (if chunk@.len() > room {
                    chunk@.take(room)
                } else {
                    chunk@
                })
            }),
    {
        let room: usize = self.limit - self.bytes.len();
        let count: usize = if chunk.len() > room {
            room
        } else {
            chunk.len()
        };
        let ghost before = self.bytes@;
        let mut at: usize = 0;
        assert(self.bytes@ =~= before + chunk@.take(0));
        while at < count
            invariant
                at <= count <= chunk@.len(),
                self.bytes@ == before + chunk@.take(at as int),
                self.limit == old(self).limit,
                self.truncated == old(self).truncated,
            decreases count - at,
        {
            self.bytes.push(chunk[at]);
            at = at + 1;
            assert(self.bytes@ =~= before + chunk@.take(at as int));
        }
        assert(chunk@.take(chunk@.len() as int) =~= chunk@);
        if chunk.len() > room {
            self.truncated = true;
        }
        chunk.len() == 0 || chunk.len() > room
    }
}

/// How a program ended, and what it wrote, as far as that is text.
#[derive(Clone, Debug)]
pub struct Ended {
    pub truncated: bool,
    pub stdout: Option<String>,
    pub stderr: Option<String>,
    pub success: bool,
    /// The exit status in words.
    pub status: String,
}

/// The version that a program told: what it wrote to stdout, or else to stderr, without the
/// blanks around it. Too much output, output that is no text and a failure are errors.
pub open spec fn version_of(ended: Ended, limit: u64) -> Result<Seq<char>, Seq<char>> {
    if ended.truncated {
        Err("output truncated at "@ + strings::decimal_text(limit as nat) + " bytes"@)
    } else if ended.stdout is None {
        Err("non UTF-8 stdout"@)
    } else if ended.stderr is None {
        Err("non UTF-8 stderr"@)
    } else if !ended.success {
        Err("exited "@ + ended.status@ + ": "@ + strings::trimmed(ended.stderr->0@))
    } else if strings::trimmed(ended.stdout->0@).len() == 0 {
        Ok(strings::trimmed(ended.stderr->0@))
    } else {
        Ok(strings::trimmed(ended.stdout->0@))
    }
}

pub fn told_version(ended: &Ended, limit: u64) -> (version: Result<String, String>)
    ensures
        answer_words(version) == version_of(*ended, limit),
{
    if ended.truncated {
        return Err(
            "output truncated at ".to_owned().concat(decimal(limit).as_str()).concat(" bytes"),
        );
    }
    let stdout = match &ended.stdout {
        Some(text) => trim(text.as_str()),
        None => {
            return Err("non UTF-8 stdout".to_owned());
        },
    };
    let stderr = match &ended.stderr {
        Some(text) => trim(text.as_str()),
        None => {
            return Err("non UTF-8 stderr".to_owned());
        },
    };
    if !ended.success {
        return Err(
            "exited ".to_owned().concat(ended.status.as_str()).concat(": ").concat(
                stderr.as_str(),
            ),
        );
    }
    if chars_of(stdout.as_str()).len() == 0 {
        Ok(stderr)
    } else {
        Ok(stdout)
    }
}

} // verus!
