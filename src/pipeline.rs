use vstd::prelude::*;

verus! {

/// Where the installation of one package stands.
#[derive(Clone, Copy, Debug, PartialEq, Eq, Structural)]
pub enum Stage {
    /// The directories are laid out; the package directory is still to be created.
    Initialized,
    /// The package directory exists; no step has run yet.
    DirectoryCreated,
    /// The steps before this one succeeded; this one is running.
    Executing(usize),
    /// A step failed; the package directory is being removed.
    RollingBack,
    /// A step failed and the package directory was removed.
    RolledBack,
    /// The package directory could not be created; no step ran.
    Aborted,
    /// Every step succeeded, or the package was already installed.
    Completed,
}

/// What the caller does next.
#[derive(Clone, Copy, Debug, PartialEq, Eq, Structural)]
pub enum Action {
    CreateDirectory,
    /// Run the step at this index.
    Run(usize),
    RemoveDirectory,
    /// Nothing is left to do.
    Finish,
}

/// The stage that running `steps` steps reaches from `stage` when the current action
/// succeeded or failed.
pub open spec fn after(stage: Stage, steps: nat, succeeded: bool) -> Stage {
    match stage {
        Stage::Initialized => if succeeded {
            if steps == 0 {
                Stage::Completed
            } else {
                Stage::DirectoryCreated
            }
        } else {
            Stage::Aborted
        },
        Stage::DirectoryCreated => if succeeded {
            if steps <= 1 {
                Stage::Completed
            } else {
                Stage::Executing(1)
            }
        } else {
            Stage::RollingBack
        },
        Stage::Executing(i) => if succeeded {
            if i + 1 >= steps {
                Stage::Completed
            } else {
                Stage::Executing((i + 1) as usize)
            }
        } else {
            Stage::RollingBack
        },
        Stage::RollingBack => Stage::RolledBack,
        _ => stage,
    }
}

/// The action that `stage` calls for.
pub open spec fn action_of(stage: Stage) -> Action {
    match stage {
        Stage::Initialized => Action::CreateDirectory,
        Stage::DirectoryCreated => Action::Run(0),
        Stage::Executing(i) => Action::Run(i),
        Stage::RollingBack => Action::RemoveDirectory,
        _ => Action::Finish,
    }
}

/// The installation of one package with `steps` steps, driven one action at a time.
#[derive(Clone, Copy, Debug, PartialEq, Eq)]
pub struct Pipeline {
    pub stage: Stage,
    pub steps: usize,
}

impl Pipeline {
    /// Every index that the pipeline asks to run is a step.
    pub open spec fn wf(&self) -> bool {
        match self.stage {
            Stage::DirectoryCreated => self.steps > 0,
            Stage::Executing(i) => i < self.steps,
            _ => true,
        }
    }

    /// A pipeline for `steps` steps: done at once when the package is already installed.
    pub fn start(steps: usize, installed: bool) -> (r: Pipeline)
        ensures
            r.wf(),
            r.steps == steps,
            r.stage == if installed {
                Stage::Completed
            } else {
                Stage::Initialized
            },
    {
        let stage = if installed {
            Stage::Completed
        } else {
            Stage::Initialized
        };
        Pipeline { stage, steps }
    }

    /// The next thing to do.
    pub fn action(&self) -> (r: Action)
        requires
            self.wf(),
        ensures
            r == action_of(self.stage),
            r matches Action::Run(i) ==> i < self.steps,
    {
        match self.stage {
            Stage::Initialized => Action::CreateDirectory,
            Stage::DirectoryCreated => Action::Run(0),
            Stage::Executing(i) => Action::Run(i),
            Stage::RollingBack => Action::RemoveDirectory,
            _ => Action::Finish,
        }
    }

    /// Moves on after the current action succeeded or failed.
    pub fn report(&mut self, succeeded: bool)
        requires
            old(self).wf(),
        ensures
            final(self).wf(),
            final(self).steps == old(self).steps,
            final(self).stage == after(old(self).stage, old(self).steps as nat, succeeded),
    {
        let steps = self.steps;
        self.stage = match self.stage {
            Stage::Initialized => if succeeded {
                if steps == 0 {
                    Stage::Completed
                } else {
                    Stage::DirectoryCreated
                }
            } else {
                Stage::Aborted
            },
            Stage::DirectoryCreated => if succeeded {
                if steps <= 1 {
                    Stage::Completed
                } else {
                    Stage::Executing(1)
                }
            } else {
                Stage::RollingBack
            },
            Stage::Executing(i) => if succeeded {
                if i + 1 >= steps {
                    Stage::Completed
                } else {
                    Stage::Executing(i + 1)
                }
            } else {
                Stage::RollingBack
            },
            Stage::RollingBack => Stage::RolledBack,
            s => s,
        };
    }
}

/// The steps run in order: after step `i` succeeds, step `i + 1` runs if there is one,
/// else the installation is complete.
pub proof fn lemma_steps_run_in_order(i: usize, steps: nat)
    requires
        i < steps,
    ensures
        action_of(after(Stage::Executing(i), steps, true)) == if i + 1 < steps {
            Action::Run((i + 1) as usize)
        } else {
            Action::Finish
        },
{
}

/// A failed step is followed by the removal of the package directory and by nothing
/// else: no later step runs.
pub proof fn lemma_failure_rolls_back(stage: Stage, steps: nat, succeeded: bool)
    requires
        stage is Executing || stage is DirectoryCreated,
    ensures
        action_of(after(stage, steps, false)) == Action::RemoveDirectory,
        after(after(stage, steps, false), steps, succeeded) == Stage::RolledBack,
        action_of(Stage::RolledBack) == Action::Finish,
        after(Stage::RolledBack, steps, succeeded) == Stage::RolledBack,
{
}

} // verus!
