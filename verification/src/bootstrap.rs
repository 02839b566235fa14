//! The decisions of the shell's startup: what is attached to the application
//! and in which order, and what a failed start amounts to.
//!
//! The application framework owns the window system and the run loop. The
//! caller performs each step of the plan on the framework's builder and hands
//! the result of the last one back to [`startup_outcome`].

use vstd::prelude::*;
use vstd::string::StringExecFns;

verus! {

/// A capability of the host system that the front end is granted through a
/// plugin of the framework.
#[derive(Clone, Copy, Debug, PartialEq, Eq, Structural)]
pub enum Capability {
    /// Opening files and URLs with the system's default handler.
    Opener,
    /// Running external processes.
    Shell,
    /// Issuing outbound HTTP requests.
    Http,
}

/// One step of the startup.
#[derive(Clone, Copy, Debug, PartialEq, Eq, Structural)]
pub enum StartupStep {
    /// Attach the plugin that grants a capability.
    AttachPlugin(Capability),
    /// Register the identity accessors as operations that the front end can
    /// call.
    RegisterCommands,
    /// Hand control to the framework's run loop.
    EnterRunLoop,
}

/// How the startup ended.
#[derive(Debug, PartialEq, Eq)]
pub enum StartupOutcome {
    /// The framework took control and the application ran.
    Started,
    /// The framework could not start the application. There is no degraded
    /// mode: the process ends with this report.
    Fatal(String),
}

/// The steps of the startup, in the order in which they are performed.
pub open spec fn startup_plan_spec() -> Seq<StartupStep> {
    seq![
        StartupStep::AttachPlugin(Capability::Opener),
        StartupStep::AttachPlugin(Capability::Shell),
        StartupStep::AttachPlugin(Capability::Http),
        StartupStep::RegisterCommands,
        StartupStep::EnterRunLoop,
    ]
}

/// What the report of a failed start begins with.
pub const RUN_FAILURE_MESSAGE: &'static str = "error while running tauri application";

/// The report of a failed start: the fixed message, a colon and a space, then
/// the framework's description of the error.
pub open spec fn failure_report_spec(detail: Seq<char>) -> Seq<char> {
    RUN_FAILURE_MESSAGE@ + ": "@ + detail
}

/// Returns the steps of the startup in the order in which they are performed.
pub fn startup_plan() -> (plan: Vec<StartupStep>)
    ensures
        plan@ == startup_plan_spec(),
{
    let mut plan: Vec<StartupStep> = Vec::new();
    plan.push(StartupStep::AttachPlugin(Capability::Opener));
    plan.push(StartupStep::AttachPlugin(Capability::Shell));
    plan.push(StartupStep::AttachPlugin(Capability::Http));
    plan.push(StartupStep::RegisterCommands);
    plan.push(StartupStep::EnterRunLoop);
    assert(plan@ =~= startup_plan_spec());
    plan
}

/// Decides how the startup ended from what the run loop handed back: nothing
/// where the application ran, the framework's description of the error where
/// it could not start. A failed start is always fatal.
pub fn startup_outcome(run_result: Result<(), String>) -> (outcome: StartupOutcome)
    ensures
        run_result is Ok <==> outcome is Started,
        run_result is Err <==> outcome is Fatal,
        run_result is Err ==> outcome->Fatal_0@ == failure_report_spec(run_result->Err_0@),
{
    match run_result {
        Ok(()) => StartupOutcome::Started,
        Err(detail) => {
            let mut report = String::from_str(RUN_FAILURE_MESSAGE);
            report.append(": ");
            report.append(detail.as_str());
            StartupOutcome::Fatal(report)
        },
    }
}

/// Every plugin is attached, and the accessors are registered, before the run
/// loop is entered, and entering the run loop is the last step.
pub proof fn lemma_run_loop_is_entered_last()
    ensures
        startup_plan_spec().len() > 0,
        startup_plan_spec().last() == StartupStep::EnterRunLoop,
        forall|i: int|
            0 <= i < startup_plan_spec().len() - 1 ==> #[trigger] startup_plan_spec()[i]
                != StartupStep::EnterRunLoop,
{
}

/// Each of the three capabilities is attached exactly once.
pub proof fn lemma_each_capability_attached_once(capability: Capability)
    ensures
        exists|i: int|
            {
                &&& 0 <= i < startup_plan_spec().len()
                &&& #[trigger] startup_plan_spec()[i] == StartupStep::AttachPlugin(capability)
                &&& forall|j: int|
                    0 <= j < startup_plan_spec().len() && #[trigger] startup_plan_spec()[j]
                        == StartupStep::AttachPlugin(capability) ==> j == i
            },
{
    let i: int = match capability {
        Capability::Opener => 0,
        Capability::Shell => 1,
        Capability::Http => 2,
    };
    assert(startup_plan_spec()[i] == StartupStep::AttachPlugin(capability));
}

} // verus!
