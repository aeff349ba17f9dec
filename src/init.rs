//! The decisions of `init`: guard against an existing target, ask for an
//! identifier, materialize the template, rewrite its placeholder, record the
//! identifier, and fix the wrapper script's mode. The caller performs each
//! awaited action and hands back what came of it.
use vstd::prelude::*;
use crate::app_id::{is_app_id, is_valid_appid};
use crate::assets::{joined, join_path};
use crate::platform::{
    exec_script_of, placeholder_file_of, placeholder_of, platform_key, target_dir_of, Platform,
    EXEC_MODE,
};

verus! {

/// Where an `init` run stands.
#[derive(Clone, Copy, Debug, PartialEq, Eq, Structural)]
pub enum Stage {
    CheckTarget,
    Prompt,
    Materialize,
    Rewrite,
    Persist,
    FixPermission,
    Finished,
}

/// One `init` run.
#[derive(Debug)]
pub struct InitFlow {
    pub platform: Platform,
    pub stage: Stage,
    /// The accepted identifier; empty until one is entered.
    pub app_id: String,
    /// Whether the run still counts as a success.
    pub ok: bool,
}

/// What came of the action that the run awaited.
#[derive(Debug)]
pub enum InitEvent {
    /// Whether the target directory exists.
    TargetExists(bool),
    /// The identifier that the user entered.
    AppIdEntered(String),
    /// The prompt ended without an identifier; holds why.
    PromptFailed(String),
    /// The awaited file work succeeded.
    StepDone,
    /// The awaited file work failed; holds why.
    StepFailed(String),
}

/// What the run asks its caller to do next.
#[derive(Debug)]
pub enum InitAction {
    /// Tell whether `dir` exists.
    CheckTarget { dir: String },
    /// Ask the user for an application identifier.
    PromptAppId,
    /// Write every asset of the platform's template under `dir`.
    Materialize { dir: String },
    /// Replace every `search` in `file` by `replacement`.
    Rewrite { file: String, search: String, replacement: String },
    /// Record `app_id` for `platform` in the config document.
    WriteAppId { platform: String, app_id: String },
    /// Give `file` the mode `mode`.
    FixPermission { file: String, mode: u32 },
    /// Stop, with success or failure.
    Exit { ok: bool },
}

/// A message for the user.
#[derive(Debug)]
pub enum Report {
    /// For the standard output.
    Notice(String),
    /// For the error stream.
    Error(String),
}

/// The message of a report, with whether it is an error.
pub open spec fn report_view(r: Option<Report>) -> Option<(bool, Seq<char>)> {
    match r {
        None => None,
        Some(Report::Notice(m)) => Some((false, m@)),
        Some(Report::Error(m)) => Some((true, m@)),
    }
}

/// Whether `a` writes to the file system.
pub open spec fn is_write(a: InitAction) -> bool {
    a is Materialize || a is Rewrite || a is WriteAppId || a is FixPermission
}

/// The action that a run awaits at its stage.
pub open spec fn awaits(f: InitFlow, a: InitAction) -> bool {
    let dir = target_dir_of(f.platform);
    match f.stage {
        Stage::CheckTarget => a matches InitAction::CheckTarget { dir: d } && d@ == dir,
        Stage::Prompt => a is PromptAppId,
        Stage::Materialize => a matches InitAction::Materialize { dir: d } && d@ == dir,
        Stage::Rewrite => a matches InitAction::Rewrite { file, search, replacement } && file@
            == joined(dir, placeholder_file_of(f.platform)) && search@ == placeholder_of(
            f.platform,
        ) && replacement@ == f.app_id@,
        Stage::Persist => a matches InitAction::WriteAppId { platform, app_id } && platform@
            == platform_key(f.platform) && app_id@ == f.app_id@,
        Stage::FixPermission => match exec_script_of(f.platform) {
            Some(s) => a matches InitAction::FixPermission { file, mode } && file@ == joined(dir, s)
                && mode == EXEC_MODE,
            None => a == (InitAction::Exit { ok: f.ok }),
        },
        Stage::Finished => a == (InitAction::Exit { ok: f.ok }),
    }
}

/// The stage that follows `e` at `f`. An event that the stage does not
/// await leaves the stage as it is.
pub open spec fn next_stage(f: InitFlow, e: InitEvent) -> Stage {
    match f.stage {
        Stage::CheckTarget => match e {
            InitEvent::TargetExists(true) => Stage::Finished,
            InitEvent::TargetExists(false) => Stage::Prompt,
            _ => f.stage,
        },
        Stage::Prompt => match e {
            InitEvent::AppIdEntered(id) => if is_app_id(id@) {
                Stage::Materialize
            } else {
                Stage::Prompt
            },
            InitEvent::PromptFailed(_) => Stage::Finished,
            _ => f.stage,
        },
        Stage::Materialize => match e {
            InitEvent::StepDone => Stage::Rewrite,
            InitEvent::StepFailed(_) => Stage::Finished,
            _ => f.stage,
        },
        Stage::Rewrite => match e {
            InitEvent::StepDone => Stage::Persist,
            InitEvent::StepFailed(_) => Stage::Finished,
            _ => f.stage,
        },
        Stage::Persist => match e {
            InitEvent::StepDone | InitEvent::StepFailed(_) => if exec_script_of(
                f.platform,
            ) is Some {
                Stage::FixPermission
            } else {
                Stage::Finished
            },
            _ => f.stage,
        },
        Stage::FixPermission => match e {
            InitEvent::StepDone | InitEvent::StepFailed(_) => Stage::Finished,
            _ => f.stage,
        },
        Stage::Finished => f.stage,
    }
}

/// Whether the run still succeeds after `e`: a failed prompt, or failed
/// materializing or rewriting, fails it; nothing else changes that.
pub open spec fn next_ok(f: InitFlow, e: InitEvent) -> bool {
    match (f.stage, e) {
        (Stage::Prompt, InitEvent::PromptFailed(_)) => false,
        (Stage::Materialize, InitEvent::StepFailed(_)) => false,
        (Stage::Rewrite, InitEvent::StepFailed(_)) => false,
        _ => f.ok,
    }
}

/// The identifier after `e`: a valid one entered at the prompt, else as before.
pub open spec fn next_app_id(f: InitFlow, e: InitEvent) -> Seq<char> {
    match (f.stage, e) {
        (Stage::Prompt, InitEvent::AppIdEntered(id)) => if is_app_id(id@) {
            id@
        } else {
            f.app_id@
        },
        _ => f.app_id@,
    }
}

/// What the user is told after `e`: that the target exists, or why a step
/// failed.
pub open spec fn report_of(f: InitFlow, e: InitEvent) -> Option<(bool, Seq<char>)> {
    match (f.stage, e) {
        (Stage::CheckTarget, InitEvent::TargetExists(true)) => Some(
            (false, target_dir_of(f.platform) + " already exists"@),
        ),
        (Stage::Prompt, InitEvent::PromptFailed(m)) => Some((true, m@)),
        (Stage::Materialize, InitEvent::StepFailed(m)) => Some((true, m@)),
        (Stage::Rewrite, InitEvent::StepFailed(m)) => Some((true, m@)),
        (Stage::Persist, InitEvent::StepFailed(m)) => Some((true, m@)),
        (Stage::FixPermission, InitEvent::StepFailed(m)) => Some((true, m@)),
        _ => None,
    }
}

/// `g` is the run `f` after the event `e`.
pub open spec fn steps_to(f: InitFlow, e: InitEvent, g: InitFlow) -> bool {
    &&& g.platform == f.platform
    &&& g.stage == next_stage(f, e)
    &&& g.ok == next_ok(f, e)
    &&& g.app_id@ == next_app_id(f, e)
}

/// Where the target directory already exists, a run awaits no write: it
/// checks the directory, tells the user, and exits with success.
pub proof fn lemma_existing_target_no_writes(f: InitFlow, a: InitAction, g: InitFlow, b: InitAction)
    requires
        f.stage == Stage::CheckTarget,
        f.ok,
        awaits(f, a),
        steps_to(f, InitEvent::TargetExists(true), g),
        awaits(g, b),
    ensures
        !is_write(a),
        !is_write(b),
        g.stage == Stage::Finished,
        b == (InitAction::Exit { ok: true }),
        report_of(f, InitEvent::TargetExists(true)) matches Some((is_error, _)) && !is_error,
{
}

/// A run only stops counting as a success on a failed prompt, or a failed
/// materializing or rewriting step.
pub proof fn lemma_success_kept(f: InitFlow, e: InitEvent, g: InitFlow)
    requires
        f.ok,
        steps_to(f, e, g),
        !(e is PromptFailed),
        !(e is StepFailed && (f.stage == Stage::Materialize || f.stage == Stage::Rewrite)),
    ensures
        g.ok,
{
}

/// A failure to record the identifier is reported as an error and is not
/// fatal: the run keeps its success and goes on.
pub proof fn lemma_config_failure_reported(f: InitFlow, m: String, g: InitFlow)
    requires
        f.stage == Stage::Persist,
        steps_to(f, InitEvent::StepFailed(m), g),
    ensures
        g.ok == f.ok,
        report_of(f, InitEvent::StepFailed(m)) == Some((true, m@)),
        g.stage == next_stage(f, InitEvent::StepDone),
{
}

impl InitFlow {
    /// A run for `platform` that starts by checking the target directory.
    pub fn new(platform: Platform) -> (r: InitFlow)
        ensures
            r.platform == platform,
            r.stage == Stage::CheckTarget,
            r.app_id@.len() == 0,
            r.ok,
    {
        proof {
            reveal_strlit("");
        }
        InitFlow { platform, stage: Stage::CheckTarget, app_id: String::from_str(""), ok: true }
    }

    /// The action that the run awaits.
    pub fn pending(&self) -> (a: InitAction)
        ensures
            awaits(*self, a),
    {
        let dir = self.platform.target_dir();
        match self.stage {
            Stage::CheckTarget => InitAction::CheckTarget { dir: String::from_str(dir) },
            Stage::Prompt => InitAction::PromptAppId,
            Stage::Materialize => InitAction::Materialize { dir: String::from_str(dir) },
            Stage::Rewrite => InitAction::Rewrite {
                file: join_path(dir, self.platform.placeholder_file()),
                search: String::from_str(self.platform.placeholder()),
                replacement: String::from_str(self.app_id.as_str()),
            },
            Stage::Persist => InitAction::WriteAppId {
                platform: String::from_str(self.platform.name()),
                app_id: String::from_str(self.app_id.as_str()),
            },
            Stage::FixPermission => match self.platform.exec_script() {
                Some(s) => InitAction::FixPermission { file: join_path(dir, s), mode: EXEC_MODE },
                None => InitAction::Exit { ok: self.ok },
            },
            Stage::Finished => InitAction::Exit { ok: self.ok },
        }
    }

    /// The run after `e`, and what to tell the user.
    pub fn on_event(self, e: InitEvent) -> (r: (InitFlow, Option<Report>))
        ensures
            steps_to(self, e, r.0),
            report_view(r.1) == report_of(self, e),
    {
        let InitFlow { platform, stage, app_id, ok } = self;
        let has_script = platform.exec_script().is_some();
        match stage {
            Stage::CheckTarget => match e {
                InitEvent::TargetExists(true) => {
                    let mut m = String::from_str(platform.target_dir());
                    proof {
                        reveal_strlit(" already exists");
                    }
                    m.append(" already exists");
                    (
                        InitFlow { platform, stage: Stage::Finished, app_id, ok },
                        Some(Report::Notice(m)),
                    )
                },
                InitEvent::TargetExists(false) => {
                    (InitFlow { platform, stage: Stage::Prompt, app_id, ok }, None)
                },
                _ => (InitFlow { platform, stage, app_id, ok }, None),
            },
            Stage::Prompt => match e {
                InitEvent::AppIdEntered(id) => {
                    if is_valid_appid(id.as_str()) {
                        (InitFlow { platform, stage: Stage::Materialize, app_id: id, ok }, None)
                    } else {
                        (InitFlow { platform, stage, app_id, ok }, None)
                    }
                },
                InitEvent::PromptFailed(m) => {
                    (
                        InitFlow { platform, stage: Stage::Finished, app_id, ok: false },
                        Some(Report::Error(m)),
                    )
                },
                _ => (InitFlow { platform, stage, app_id, ok }, None),
            },
            Stage::Materialize | Stage::Rewrite => {
                let next = if let Stage::Materialize = stage {
                    Stage::Rewrite
                } else {
                    Stage::Persist
                };
                match e {
                    InitEvent::StepDone => (InitFlow { platform, stage: next, app_id, ok }, None),
                    InitEvent::StepFailed(m) => {
                        (
                            InitFlow { platform, stage: Stage::Finished, app_id, ok: false },
                            Some(Report::Error(m)),
                        )
                    },
                    _ => (InitFlow { platform, stage, app_id, ok }, None),
                }
            },
            Stage::Persist | Stage::FixPermission => {
                let next = if let Stage::Persist = stage {
                    if has_script {
                        Stage::FixPermission
                    } else {
                        Stage::Finished
                    }
                } else {
                    Stage::Finished
                };
                match e {
                    InitEvent::StepDone => (InitFlow { platform, stage: next, app_id, ok }, None),
                    InitEvent::StepFailed(m) => {
                        (InitFlow { platform, stage: next, app_id, ok }, Some(Report::Error(m)))
                    },
                    _ => (InitFlow { platform, stage, app_id, ok }, None),
                }
            },
            Stage::Finished => (InitFlow { platform, stage, app_id, ok }, None),
        }
    }
}

} // verus!
