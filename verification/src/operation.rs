//! Operations on applications: what to run, and what its output says of the progress.

use crate::app_id::AppId;
use crate::app_info::AppInfo;
use crate::command::{CommandLine, CommandView};
use crate::text::{
    contains, has_part, has_prefix, patterns_part_texts, same, starts_with, trim, trimmed,
};
use std::sync::Arc;
use vstd::prelude::*;
use vstd::string::*;

verus! {

/// What an operation does.
#[derive(Clone, Debug, PartialEq, Eq)]
pub enum OperationKind {
    Install,
    Uninstall,
    /// An operation that the catalog does not carry out, by name
    Other(String),
}

/// An operation on applications.
#[derive(Debug)]
pub struct Operation {
    pub kind: OperationKind,
    pub package_ids: Vec<AppId>,
    pub infos: Vec<Arc<AppInfo>>,
}

/// How an operation is carried out.
#[derive(Clone, Debug, PartialEq, Eq)]
pub enum OperationPlan {
    /// Run the command, with the environment variable set to the value.
    Run { command: CommandLine, variable: &'static str, value: &'static str },
    /// There is nothing to do.
    Nothing,
}

/// The mathematical content of an `OperationPlan`.
pub enum PlanView {
    Run { command: CommandView, variable: Seq<char>, value: Seq<char> },
    Nothing,
}

impl View for OperationPlan {
    type V = PlanView;

    open spec fn view(&self) -> PlanView {
        match *self {
            OperationPlan::Run { command, variable, value } => PlanView::Run {
                command: command@,
                variable: variable@,
                value: value@,
            },
            OperationPlan::Nothing => PlanView::Nothing,
        }
    }
}

/// The option that names the source of an application.
pub open spec fn source_flag(source_id: Seq<char>) -> Seq<char> {
    if source_id == "nixpkgs"@ {
        "--nix"@
    } else {
        "--flatpak"@
    }
}

/// The plan that runs the system's package tool with these arguments and has it stream its output.
pub open spec fn run_plan(args: Seq<Seq<char>>) -> PlanView {
    PlanView::Run {
        command: CommandView { program: "mirror-os"@, args },
        variable: "MIRROR_OS_STREAM"@,
        value: "1"@,
    }
}

/// How an operation is carried out, or why it cannot be.
pub open spec fn planned(op: Operation) -> Result<PlanView, Seq<char>> {
    if op.package_ids@.len() == 0 {
        Err("operation: no app_id provided"@)
    } else if op.infos@.len() == 0 {
        Err("operation: no AppInfo provided"@)
    } else {
        let id = op.package_ids@[0]@;
        match op.kind {
            OperationKind::Install => Ok(
                run_plan(seq!["install"@, id, source_flag(op.infos@[0]@.source_id), "--yes"@]),
            ),
            OperationKind::Uninstall => Ok(run_plan(seq!["uninstall"@, id, "--yes"@])),
            OperationKind::Other(_) => Ok(PlanView::Nothing),
        }
    }
}

/// How an operation is carried out, or why it cannot be.
pub fn plan_operation(op: &Operation) -> (r: Result<OperationPlan, String>)
    ensures
        match r {
            Ok(plan) => planned(*op) == Ok::<PlanView, Seq<char>>(plan@),
            Err(message) => planned(*op) == Err::<PlanView, Seq<char>>(message@),
        },
{
    if op.package_ids.len() == 0 {
        return Err("operation: no app_id provided".to_owned());
    }
    if op.infos.len() == 0 {
        return Err("operation: no AppInfo provided".to_owned());
    }
    let flag = if same(op.infos[0].source_id.as_str(), "nixpkgs") {
        "--nix"
    } else {
        "--flatpak"
    };
    let id = op.package_ids[0].raw();
    let mut args: Vec<String> = Vec::new();
    match &op.kind {
        OperationKind::Install => {
            args.push("install".to_owned());
            args.push(id.to_owned());
            args.push(flag.to_owned());
            args.push("--yes".to_owned());
        },
        OperationKind::Uninstall => {
            args.push("uninstall".to_owned());
            args.push(id.to_owned());
            args.push("--yes".to_owned());
        },
        OperationKind::Other(_) => {
            return Ok(OperationPlan::Nothing);
        },
    }
    let command = CommandLine { program: "mirror-os".to_owned(), args };
    proof {
        match op.kind {
            OperationKind::Install => {
                assert(command@.args =~= seq![
                    "install"@,
                    op.package_ids@[0]@,
                    source_flag(op.infos@[0]@.source_id),
                    "--yes"@,
                ]);
            },
            _ => {
                assert(command@.args =~= seq!["uninstall"@, op.package_ids@[0]@, "--yes"@]);
            },
        }
    }
    Ok(OperationPlan::Run { command, variable: "MIRROR_OS_STREAM", value: "1" })
}

/// What a line of output says of the progress, in percent. Progress that was made is never taken
/// back, whatever a later line says.
#[derive(Clone, Copy, Debug, PartialEq, Eq, Structural)]
pub enum ProgressStep {
    /// The progress is this far.
    At(u32),
    /// The progress is at least this far.
    AtLeast(u32),
    /// One of several builds has started: the progress moves on toward this point, by the given
    /// share, in percent, of what is missing to it.
    Toward(u32, u32),
}

/// What a line of output says of the progress.
pub open spec fn step_of_line(line: Seq<char>) -> Option<ProgressStep> {
    if has_part(line, "will be built:"@) || has_part(line, "these derivations will be built"@) {
        Some(ProgressStep::At(5))
    } else if has_part(line, "building '"@) || has_part(line, "building \""@) {
        Some(ProgressStep::Toward(65, 15))
    } else if has_part(line, "copying path"@) || has_part(line, "copying '"@) {
        Some(ProgressStep::AtLeast(75))
    } else if has_part(line, "activating configuration"@) {
        Some(ProgressStep::AtLeast(85))
    } else if has_prefix(line, "Activating "@) {
        Some(ProgressStep::AtLeast(90))
    } else if trimmed(line) == "Done."@ {
        Some(ProgressStep::At(97))
    } else {
        None
    }
}

/// What a line of output says of the progress.
pub fn progress_of_line(line: &str) -> (r: Option<ProgressStep>)
    ensures
        r == step_of_line(line@),
{
    if contains(line, "will be built:") || contains(line, "these derivations will be built") {
        Some(ProgressStep::At(5))
    } else if contains(line, "building '") || contains(line, "building \"") {
        Some(ProgressStep::Toward(65, 15))
    } else if contains(line, "copying path") || contains(line, "copying '") {
        Some(ProgressStep::AtLeast(75))
    } else if contains(line, "activating configuration") {
        Some(ProgressStep::AtLeast(85))
    } else if starts_with(line, "Activating ") {
        Some(ProgressStep::AtLeast(90))
    } else if same(trim(line).as_str(), "Done.") {
        Some(ProgressStep::At(97))
    } else {
        None
    }
}

/// How running an operation's command ended.
#[derive(Clone, Debug, PartialEq, Eq)]
pub enum OperationEnd {
    /// The command could not be started, for this reason.
    NotStarted(String),
    /// The command's output could not be captured.
    NoOutput,
    /// The command could not be waited for, for this reason.
    Lost(String),
    /// The command ended and reported success or failure.
    Exited(bool),
}

/// The name of an operation in messages.
pub open spec fn kind_name(kind: OperationKind) -> Seq<char> {
    match kind {
        OperationKind::Install => "install"@,
        OperationKind::Uninstall => "uninstall"@,
        OperationKind::Other(_) => "operation"@,
    }
}

/// Why an operation failed, if it did.
pub open spec fn failure(kind: OperationKind, id: Seq<char>, end: OperationEnd) -> Option<Seq<char>> {
    match end {
        OperationEnd::NotStarted(reason) => Some("mirror-os spawn: "@ + reason@),
        OperationEnd::NoOutput => Some("failed to capture stdout"@),
        OperationEnd::Lost(reason) => Some("mirror-os wait: "@ + reason@),
        OperationEnd::Exited(success) => if success {
            None
        } else {
            Some("mirror-os "@ + kind_name(kind) + " "@ + id + " failed"@)
        },
    }
}

/// The result of an operation on the application `id`.
pub fn operation_result(kind: &OperationKind, id: &str, end: OperationEnd) -> (r: Result<
    (),
    String,
>)
    ensures
        match r {
            Ok(_) => failure(*kind, id@, end) is None,
            Err(message) => failure(*kind, id@, end) == Some(message@),
        },
{
    match end {
        OperationEnd::NotStarted(reason) => {
            let mut message = "mirror-os spawn: ".to_owned();
            message.append(reason.as_str());
            Err(message)
        },
        OperationEnd::NoOutput => Err("failed to capture stdout".to_owned()),
        OperationEnd::Lost(reason) => {
            let mut message = "mirror-os wait: ".to_owned();
            message.append(reason.as_str());
            Err(message)
        },
        OperationEnd::Exited(success) => {
            if success {
                return Ok(());
            }
            let name = match kind {
                OperationKind::Install => "install",
                OperationKind::Uninstall => "uninstall",
                OperationKind::Other(_) => "operation",
            };
            let mut message = "mirror-os ".to_owned();
            message.append(name);
            message.append(" ");
            message.append(id);
            message.append(" failed");
            Err(message)
        },
    }
}

/// A step gives a point short of completion, so that only the end of an operation completes it.
pub proof fn steps_stay_short_of_completion(line: Seq<char>)
    ensures
        match step_of_line(line) {
            Some(ProgressStep::At(percent)) => percent < 100,
            Some(ProgressStep::AtLeast(percent)) => percent < 100,
            Some(ProgressStep::Toward(percent, share)) => percent < 100 && share < 100,
            None => true,
        },
{
}

/// What is planned for an operation: installing names the first application, its source and the
/// answer to questions; uninstalling names the first application and that answer. Both run the
/// package tool, and have it stream its output. The other applications make no difference.
pub proof fn plans_name_the_application(op: Operation, plan: OperationPlan)
    requires
        planned(op) == Ok::<PlanView, Seq<char>>(plan@),
    ensures
        op.package_ids@.len() > 0 && op.infos@.len() > 0,
        plan is Nothing <==> op.kind is Other,
        plan matches OperationPlan::Run { command, variable, value } ==> command.program@
            == "mirror-os"@ && variable@ == "MIRROR_OS_STREAM"@ && value@ == "1"@,
        plan matches OperationPlan::Run { command, .. } ==> command.args@[1]@
            == op.package_ids@[0]@ && command.args@.last()@ == "--yes"@,
        plan matches OperationPlan::Run { command, .. } ==> op.kind is Install
            ==> command.args@.len() == 4 && command.args@[0]@ == "install"@ && (command.args@[2]@
            == "--nix"@ <==> op.infos@[0].source_id@ == "nixpkgs"@) && (command.args@[2]@
            == "--flatpak"@ <==> op.infos@[0].source_id@ != "nixpkgs"@),
        plan matches OperationPlan::Run { command, .. } ==> op.kind is Uninstall
            ==> command.args@.len() == 3 && command.args@[0]@ == "uninstall"@,
{
    reveal_strlit("--nix");
    reveal_strlit("--flatpak");
    assert("--nix"@.len() != "--flatpak"@.len());
    if let OperationPlan::Run { command, variable, value } = plan {
        let args = command@.args;
        assert(args.len() == command.args@.len());
        assert(forall|i: int|
            0 <= i < args.len() ==> (#[trigger] command.args@[i])@ == args[i]);
        assert(command.args@.last()@ == args.last());
    }
}

/// An operation cannot be planned exactly if it names no application or nothing is known of one;
/// the missing application is what is reported first.
pub proof fn plans_fail_without_application(op: Operation)
    ensures
        planned(op) is Err <==> op.package_ids@.len() == 0 || op.infos@.len() == 0,
        op.package_ids@.len() == 0 ==> planned(op) == Err::<PlanView, Seq<char>>(
            "operation: no app_id provided"@,
        ),
        op.package_ids@.len() > 0 && op.infos@.len() == 0 ==> planned(op) == Err::<
            PlanView,
            Seq<char>,
        >("operation: no AppInfo provided"@),
{
}

/// Operations that agree in what they do, in their first application and in what is known of its
/// source are planned alike.
pub proof fn plans_depend_on_the_first_application(a: Operation, b: Operation)
    requires
        a.kind == b.kind,
        a.package_ids@.len() > 0 && b.package_ids@.len() > 0,
        a.infos@.len() > 0 && b.infos@.len() > 0,
        a.package_ids@[0]@ == b.package_ids@[0]@,
        a.infos@[0].source_id@ == b.infos@[0].source_id@,
    ensures
        planned(a) == planned(b),
{
}

/// The phrases that tell of progress count anywhere in a line, whatever stands around them: first
/// that builds are announced, then that one starts, that results are copied, and that the
/// configuration is activated. An earlier phrase hides a later one.
pub proof fn phrases_tell_the_phase(a: Seq<char>, b: Seq<char>, line: Seq<char>)
    ensures
        step_of_line(a + "will be built:"@ + b) == Some(ProgressStep::At(5)),
        step_of_line(a + "these derivations will be built"@ + b) == Some(ProgressStep::At(5)),
        step_of_line(line) != Some(ProgressStep::At(5)) && (line == a + "building '"@ + b || line
            == a + "building \""@ + b) ==> step_of_line(line) == Some(ProgressStep::Toward(65, 15)),
        step_of_line(line) != Some(ProgressStep::At(5)) && step_of_line(line) != Some(
            ProgressStep::Toward(65, 15),
        ) && (line == a + "copying path"@ + b || line == a + "copying '"@ + b) ==> step_of_line(
            line,
        ) == Some(ProgressStep::AtLeast(75)),
        step_of_line(line) != Some(ProgressStep::At(5)) && step_of_line(line) != Some(
            ProgressStep::Toward(65, 15),
        ) && step_of_line(line) != Some(ProgressStep::AtLeast(75)) && line == a
            + "activating configuration"@ + b ==> step_of_line(line) == Some(
            ProgressStep::AtLeast(85),
        ),
        !(step_of_line(line) == Some(ProgressStep::At(5)) || step_of_line(line) == Some(
            ProgressStep::Toward(65, 15),
        ) || step_of_line(line) == Some(ProgressStep::AtLeast(75)) || step_of_line(line) == Some(
            ProgressStep::AtLeast(85),
        )) && line == "Activating "@ + b ==> step_of_line(line) == Some(ProgressStep::AtLeast(90)),
{
    patterns_part_texts(a, "will be built:"@, b);
    patterns_part_texts(a, "these derivations will be built"@, b);
    patterns_part_texts(a, "building '"@, b);
    patterns_part_texts(a, "building \""@, b);
    patterns_part_texts(a, "copying path"@, b);
    patterns_part_texts(a, "copying '"@, b);
    patterns_part_texts(a, "activating configuration"@, b);
    patterns_part_texts(a, "Activating "@, b);
}

/// A line tells of progress only if it holds a phrase of the phase: each step goes back to one.
pub proof fn steps_come_from_phrases(line: Seq<char>)
    ensures
        step_of_line(line) == Some(ProgressStep::At(5)) ==> has_part(line, "will be built:"@)
            || has_part(line, "these derivations will be built"@),
        step_of_line(line) == Some(ProgressStep::Toward(65, 15)) ==> has_part(line, "building '"@)
            || has_part(line, "building \""@),
        step_of_line(line) == Some(ProgressStep::AtLeast(75)) ==> has_part(line, "copying path"@)
            || has_part(line, "copying '"@),
        step_of_line(line) == Some(ProgressStep::AtLeast(85)) ==> has_part(
            line,
            "activating configuration"@,
        ),
        step_of_line(line) == Some(ProgressStep::AtLeast(90)) ==> has_prefix(line, "Activating "@),
        step_of_line(line) == Some(ProgressStep::At(97)) ==> trimmed(line) == "Done."@,
        step_of_line(line) is None ==> trimmed(line) != "Done."@,
        step_of_line(line) matches Some(ProgressStep::At(percent)) ==> percent == 5 || percent == 97,
        step_of_line(line) matches Some(ProgressStep::AtLeast(percent)) ==> percent == 75 || percent
            == 85 || percent == 90,
        step_of_line(line) matches Some(ProgressStep::Toward(percent, share)) ==> percent == 65
            && share == 15,
{
}

/// An operation succeeds exactly if its command ended and reported success. Otherwise the message
/// ends with the reason, or names the application and what was to be done with it.
pub proof fn failures_give_reasons(kind: OperationKind, id: Seq<char>, end: OperationEnd)
    ensures
        failure(kind, id, end) is None <==> end == OperationEnd::Exited(true),
        end matches OperationEnd::NotStarted(reason) ==> failure(kind, id, end) == Some(
            "mirror-os spawn: "@ + reason@,
        ),
        end matches OperationEnd::Lost(reason) ==> failure(kind, id, end) == Some(
            "mirror-os wait: "@ + reason@,
        ),
        end is NoOutput ==> failure(kind, id, end) == Some("failed to capture stdout"@),
        end == OperationEnd::Exited(false) && kind is Install ==> failure(kind, id, end) == Some(
            "mirror-os "@ + "install"@ + " "@ + id + " failed"@,
        ),
        end == OperationEnd::Exited(false) && kind is Uninstall ==> failure(kind, id, end) == Some(
            "mirror-os "@ + "uninstall"@ + " "@ + id + " failed"@,
        ),
        end == OperationEnd::Exited(false) ==> has_part(failure(kind, id, end)->0, id),
{
    if end == OperationEnd::Exited(false) {
        let name = kind_name(kind);
        patterns_part_texts("mirror-os "@ + name + " "@, id, " failed"@);
    }
}

} // verus!
