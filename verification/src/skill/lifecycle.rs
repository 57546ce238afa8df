//! The steps of a skill's `lifecycle.yaml` and the decisions taken while they run:
//! which step runs next, with what command, and whether it is shown and approved.

use vstd::prelude::*;

use crate::skill::vars::{expand, expand_spec, VarError, VarMap};
use crate::text::str_eq;

verus! {

/// One step of a lifecycle section.
#[derive(Debug)]
pub struct LifecycleStep {
    /// The shell command, with `${NAME}` placeholders.
    pub command: String,
    pub description: String,
    /// `all`, or the one platform the step runs on.
    pub platform: String,
    /// Whether the user must approve the command before it runs.
    pub requires_approval: bool,
}

/// The platform of a step that names none.
pub fn default_platform() -> (r: String)
    ensures
        r@ == "all"@,
{
    String::from_str("all")
}

/// Whether a step that does not say so requires approval.
pub fn default_approval() -> (r: bool)
    ensures
        r,
{
    true
}

/// A skill's `lifecycle.yaml`.
#[derive(Debug)]
pub struct LifecycleFile {
    /// Custom variables, in declaration order.
    pub variables: Vec<(String, String)>,
    pub install: Vec<LifecycleStep>,
    pub update: Vec<LifecycleStep>,
    pub uninstall: Vec<LifecycleStep>,
}

/// A step runs on `platform` when it names `all` or that platform.
pub open spec fn step_applies(step: LifecycleStep, platform: Seq<char>) -> bool {
    step.platform@ == "all"@ || step.platform@ == platform
}

/// The first step at or after `from` that runs on `platform`.
pub open spec fn next_step_index(steps: Seq<LifecycleStep>, platform: Seq<char>, from: int) -> Option<
    int,
>
    decreases steps.len() - from,
{
    if from < 0 || from >= steps.len() {
        None
    } else if step_applies(steps[from], platform) {
        Some(from)
    } else {
        next_step_index(steps, platform, from + 1)
    }
}

pub proof fn lemma_next_step_index(steps: Seq<LifecycleStep>, platform: Seq<char>, from: int)
    requires
        0 <= from,
    ensures
        match next_step_index(steps, platform, from) {
            Some(i) => from <= i < steps.len() && step_applies(steps[i], platform) && forall|j: int|
                from <= j < i ==> !step_applies(#[trigger] steps[j], platform),
            None => forall|j: int|
                from <= j < steps.len() ==> !step_applies(#[trigger] steps[j], platform),
        },
    decreases steps.len() - from,
{
    if from < steps.len() && !step_applies(steps[from], platform) {
        lemma_next_step_index(steps, platform, from + 1);
    }
}

/// What the runner of a lifecycle section does next.
#[derive(Debug)]
pub enum StepAction {
    /// Run step `index` with the expanded `command`; when `show` is set the
    /// description and command are printed first, and when `ask` is set the
    /// command runs only if the user approves it.
    Run { index: usize, command: String, description: String, show: bool, ask: bool },
    /// No step is left: the section has run.
    Done,
    /// The command of step `index` names an unbound variable.
    Failed { index: usize, error: VarError },
}

/// Decides what follows once the steps before `from` are done: the next step
/// that runs on `platform`, its command expanded against `vars`; it is shown
/// unless `quiet`, and asked about when shown and the step requires approval.
pub fn next_action(
    steps: &Vec<LifecycleStep>,
    vars: &VarMap,
    quiet: bool,
    platform: &str,
    from: usize,
) -> (r: StepAction)
    ensures
        match next_step_index(steps@, platform@, from as int) {
            None => r is Done,
            Some(i) => match expand_spec(steps@[i].command@, vars@) {
                Ok(c) => r matches StepAction::Run { index, command, description, show, ask }
                    && index == i && command@ == c && description@ == steps@[i].description@
                    && show == !quiet && ask == (!quiet && steps@[i].requires_approval),
                Err(n) => r matches StepAction::Failed { index, error: VarError::Undefined(m) } && index
                    == i && m@ == n,
            },
        },
{
    let mut i = from;
    proof {
        lemma_next_step_index(steps@, platform@, from as int);
    }
    while i < steps.len()
        invariant
            from <= i,
            next_step_index(steps@, platform@, from as int) == next_step_index(
                steps@,
                platform@,
                i as int,
            ),
        decreases steps.len() - i,
    {
        let s = &steps[i];
        if str_eq(s.platform.as_str(), "all") || str_eq(s.platform.as_str(), platform) {
            return match expand(s.command.as_str(), vars) {
                Ok(c) => StepAction::Run {
                    index: i,
                    command: c,
                    description: s.description.clone(),
                    show: !quiet,
                    ask: !quiet && s.requires_approval,
                },
                Err(e) => StepAction::Failed { index: i, error: e },
            };
        }
        i = i + 1;
    }
    StepAction::Done
}

/// How `skill update` runs a skill's lifecycle.
#[derive(Debug)]
pub enum UpdatePlan {
    /// Run the `update` section.
    RunUpdate,
    /// Run the `uninstall` section, then the `install` section.
    Reinstall,
}

/// Why a skill cannot be updated.
#[derive(Debug)]
pub enum UpdateRefusal {
    /// The lifecycle has no `update` section and no reinstall was asked for.
    NoUpdateSection,
}

/// Chooses how to update: the `update` section when there is one; without it,
/// a reinstall when `force` is set, and a refusal otherwise.
pub fn update_plan(lf: &LifecycleFile, force: bool) -> (r: Result<UpdatePlan, UpdateRefusal>)
    ensures
        lf.update@.len() > 0 ==> r matches Ok(UpdatePlan::RunUpdate),
        lf.update@.len() == 0 && force ==> r matches Ok(UpdatePlan::Reinstall),
        lf.update@.len() == 0 && !force ==> r matches Err(UpdateRefusal::NoUpdateSection),
{
    if lf.update.len() > 0 {
        Ok(UpdatePlan::RunUpdate)
    } else if force {
        Ok(UpdatePlan::Reinstall)
    } else {
        Err(UpdateRefusal::NoUpdateSection)
    }
}

} // verus!
