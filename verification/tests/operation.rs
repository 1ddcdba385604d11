use mirror_store::app_id::AppId;
use mirror_store::app_info::AppInfo;
use mirror_store::command::CommandLine;
use mirror_store::operation::{
    operation_result, plan_operation, progress_of_line, Operation, OperationEnd, OperationKind,
    OperationPlan, ProgressStep,
};
use std::sync::Arc;

fn operation(kind: OperationKind, ids: &[&str], sources: &[&str]) -> Operation {
    Operation {
        kind,
        package_ids: ids.iter().map(|id| AppId::new(id)).collect(),
        infos: sources
            .iter()
            .map(|s| Arc::new(AppInfo { source_id: s.to_string(), ..AppInfo::default() }))
            .collect(),
    }
}

fn run(args: &[&str]) -> OperationPlan {
    OperationPlan::Run {
        command: CommandLine {
            program: "mirror-os".to_string(),
            args: args.iter().map(|a| a.to_string()).collect(),
        },
        variable: "MIRROR_OS_STREAM",
        value: "1",
    }
}

#[test]
fn plans() {
    assert_eq!(
        plan_operation(&operation(OperationKind::Install, &["hello", "b"], &["nixpkgs"])),
        Ok(run(&["install", "hello", "--nix", "--yes"]))
    );
    assert_eq!(
        plan_operation(&operation(OperationKind::Install, &["org.a.B"], &["flathub"])),
        Ok(run(&["install", "org.a.B", "--flatpak", "--yes"]))
    );
    assert_eq!(
        plan_operation(&operation(OperationKind::Uninstall, &["hello"], &["nixpkgs"])),
        Ok(run(&["uninstall", "hello", "--yes"]))
    );
    assert_eq!(
        plan_operation(&operation(OperationKind::Other("Update".to_string()), &["a"], &["b"])),
        Ok(OperationPlan::Nothing)
    );
}

#[test]
fn plans_that_fail() {
    assert_eq!(
        plan_operation(&operation(OperationKind::Install, &[], &[])),
        Err("operation: no app_id provided".to_string())
    );
    assert_eq!(
        plan_operation(&operation(OperationKind::Install, &["a"], &[])),
        Err("operation: no AppInfo provided".to_string())
    );
}

#[test]
fn progress_in_output() {
    for (line, step) in [
        ("these 3 derivations will be built:", Some(ProgressStep::At(5))),
        ("these derivations will be built", Some(ProgressStep::At(5))),
        ("building '/nix/store/x.drv'...", Some(ProgressStep::Toward(65, 15))),
        ("building \"x\"", Some(ProgressStep::Toward(65, 15))),
        ("copying path '/nix/store/y'", Some(ProgressStep::AtLeast(75))),
        ("copying 'x'", Some(ProgressStep::AtLeast(75))),
        ("now activating configuration...", Some(ProgressStep::AtLeast(85))),
        ("Activating onFilesChange", Some(ProgressStep::AtLeast(90))),
        (" Activating x", None),
        ("  Done. \r", Some(ProgressStep::At(97))),
        ("Done", None),
        ("", None),
    ] {
        assert_eq!(progress_of_line(line), step, "{:?}", line);
    }
}

#[test]
fn results() {
    let install = OperationKind::Install;
    let result = |end: OperationEnd| operation_result(&install, "a.b", end);
    assert_eq!(result(OperationEnd::Exited(true)), Ok(()));
    assert_eq!(
        result(OperationEnd::Exited(false)),
        Err("mirror-os install a.b failed".to_string())
    );
    assert_eq!(
        result(OperationEnd::NotStarted("gone".to_string())),
        Err("mirror-os spawn: gone".to_string())
    );
    assert_eq!(result(OperationEnd::NoOutput), Err("failed to capture stdout".to_string()));
    assert_eq!(
        result(OperationEnd::Lost("why".to_string())),
        Err("mirror-os wait: why".to_string())
    );
    assert_eq!(
        operation_result(&OperationKind::Uninstall, "x", OperationEnd::Exited(false)),
        Err("mirror-os uninstall x failed".to_string())
    );
    assert_eq!(
        operation_result(
            &OperationKind::Other("Update".to_string()),
            "x",
            OperationEnd::Exited(false)
        ),
        Err("mirror-os operation x failed".to_string())
    );
}
