//! The facts of a project, of the system and of the time, put together.
use vstd::prelude::*;
use crate::collect::loc;
use crate::collect::loc::Scan;
use crate::collect::project;
use crate::collect::project::Detection;
use crate::collect::system::SystemFacts;
use crate::collect::time::TimeFacts;
use crate::model;
use crate::model::{
    Context, CountUnit, Coverage, Diagnostic, Git, Project, Snapshot, SnapshotMode, Toolchain,
    SCHEMA_VERSION,
};
use crate::strings;

verus! {

pub struct ProjectFacts {
    pub context: Context,
    pub git: Option<Git>,
    pub project: Option<Project>,
    pub diagnostics: Vec<Diagnostic>,
}

/// The facts outside of a worktree: where it is, and what went wrong.
pub fn outside(directory: String, diagnostics: Vec<Diagnostic>) -> (facts: ProjectFacts)
    ensures
        facts.context.worktree is None,
        facts.context.directory == Some(directory),
        facts.git is None,
        facts.project is None,
        facts.diagnostics == diagnostics,
{
    ProjectFacts {
        context: Context { worktree: None, directory: Some(directory) },
        git: None,
        project: None,
        diagnostics,
    }
}

/// The name of the primary language.
pub open spec fn primary_name(detection: Detection) -> Option<Seq<char>> {
    match detection.primary {
        Some(language) => Some(project::language_name(language)),
        None => None,
    }
}

/// The facts inside of a worktree. Its lines of code are those of all languages in full,
/// else those of the primary language alone.
pub fn inside(
    worktree: String,
    directory: String,
    git: Git,
    scan: Scan,
    full: bool,
    detection: &Detection,
    toolchains: Vec<Toolchain>,
    coverage: Option<Coverage>,
    diagnostics: Vec<Diagnostic>,
) -> (facts: ProjectFacts)
    requires
        loc::all_lines(scan.lines@) <= u64::MAX,
    ensures
        facts.context.worktree == Some(worktree),
        facts.context.directory == Some(directory),
        facts.git == Some(git),
        facts.diagnostics == diagnostics,
        facts.project is Some,
        strings::optional_text(facts.project->0.primary_language) == primary_name(*detection),
        facts.project->0.toolchains == toolchains,
        facts.project->0.coverage == coverage,
        facts.project->0.loc is Some,
        facts.project->0.loc->0.total == loc::all_lines(
            loc::shown_lines(scan.lines@, full, primary_name(*detection)),
        ),
        facts.project->0.loc->0.unit == CountUnit::Lines,
        facts.project->0.loc->0.truncated == scan.truncated,
        loc::entry_views(facts.project->0.loc->0.by_language@) == loc::line_views(
            loc::shown_lines(scan.lines@, full, primary_name(*detection)),
        ),
        forall|i: int|
            0 <= i < facts.project->0.loc->0.by_language@.len() ==> (
            #[trigger] facts.project->0.loc->0.by_language@[i]).unit == CountUnit::Lines,
        scan.sound() ==> loc::ascending(
            loc::entry_views(facts.project->0.loc->0.by_language@),
        ),
        model::lines_sum(facts.project->0.loc->0.by_language@) == facts.project->0.loc->0.total,
{
    let primary = match detection.primary {
        Some(language) => Some(language.name()),
        None => None,
    };
    let primary_language = match primary {
        Some(name) => Some(name.to_owned()),
        None => None,
    };
    let shown = scan.shown(full, primary);
    ProjectFacts {
        context: Context { worktree: Some(worktree), directory: Some(directory) },
        git: Some(git),
        project: Some(
            Project { primary_language, toolchains, loc: Some(shown.into_model()), coverage },
        ),
        diagnostics,
    }
}

/// All facts as one snapshot, with what went wrong: of the project, the system, the time.
pub fn snapshot(
    mode: SnapshotMode,
    project: ProjectFacts,
    system: SystemFacts,
    time: TimeFacts,
) -> (snapshot: Snapshot)
    ensures
        snapshot.schema_version == SCHEMA_VERSION,
        snapshot.mode == mode,
        snapshot.context == project.context,
        snapshot.project == project.project,
        snapshot.git == project.git,
        snapshot.system == system.system,
        snapshot.time == time.time,
        snapshot.diagnostics@ == project.diagnostics@ + system.diagnostics@ + time.diagnostics@,
{
    let mut diagnostics = project.diagnostics;
    let mut of_system = system.diagnostics;
    let mut of_time = time.diagnostics;
    diagnostics.append(&mut of_system);
    diagnostics.append(&mut of_time);
    Snapshot {
        schema_version: SCHEMA_VERSION,
        mode,
        context: project.context,
        project: project.project,
        git: project.git,
        system: system.system,
        time: time.time,
        diagnostics,
    }
}

} // verus!
