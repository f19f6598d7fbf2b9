use store::{Action, ExitCode, Pipeline, Stage};

fn run(steps: usize, installed: bool, outcomes: &[bool]) -> (Vec<Action>, Stage) {
    let mut pipeline = Pipeline::start(steps, installed);
    let mut actions = vec![];
    let mut outcomes = outcomes.iter();
    loop {
        let action = pipeline.action();
        actions.push(action);
        if action == Action::Finish {
            break;
        }
        pipeline.report(*outcomes.next().unwrap_or(&true));
    }
    (actions, pipeline.stage)
}

#[test]
fn installed_package_is_skipped() {
    assert_eq!(run(3, true, &[]), (vec![Action::Finish], Stage::Completed));
}

#[test]
fn steps_run_in_order_after_directory_creation() {
    assert_eq!(
        run(3, false, &[true, true, true, true]),
        (
            vec![Action::CreateDirectory, Action::Run(0), Action::Run(1), Action::Run(2), Action::Finish],
            Stage::Completed
        )
    );
}

#[test]
fn failed_step_rolls_back_and_stops() {
    assert_eq!(
        run(3, false, &[true, true, false, true]),
        (
            vec![Action::CreateDirectory, Action::Run(0), Action::Run(1), Action::RemoveDirectory, Action::Finish],
            Stage::RolledBack
        )
    );
}

#[test]
fn failed_directory_creation_aborts() {
    assert_eq!(run(2, false, &[false]), (vec![Action::CreateDirectory, Action::Finish], Stage::Aborted));
}

#[test]
fn package_without_steps_completes_after_directory() {
    assert_eq!(run(0, false, &[true]), (vec![Action::CreateDirectory, Action::Finish], Stage::Completed));
}

#[test]
fn exit_codes() {
    assert_eq!(ExitCode::Success.code(), 0);
    assert_eq!(ExitCode::ErrorOptions.code(), 2);
    assert_eq!(ExitCode::ErrorReadingDatabaseFile.code(), 3);
    assert_eq!(ExitCode::ErrorParse.code(), 4);
    assert_eq!(ExitCode::ErrorDependencies.code(), 4);
    assert_eq!(ExitCode::ErrorPackageNotDefined.code(), 5);
    assert_eq!(ExitCode::ErrorInstall.code(), 8);
    assert_eq!(ExitCode::ErrorInfo.code(), 9);
}
