//! A setup plugin that runs a command on its host.
use vstd::prelude::*;
use vstd::string::*;

verus! {

/// Whether a task has nothing left to do.
#[derive(Clone, Copy, Debug, PartialEq, Eq, Structural)]
pub enum TaskFulfilled {
    Yes,
    No,
}

/// A task that was executed.
#[derive(Debug)]
pub struct Success {
    pub message: String,
}

/// A command for the host, with its arguments.
#[derive(Debug)]
pub struct HostCommand {
    pub program: String,
    pub arguments: Vec<String>,
}

/// What follows from the reply of the host: the line to log, if any, and the result of the task.
#[derive(Debug)]
pub struct Execution {
    pub log: Option<String>,
    pub result: Result<Success, ()>,
}

/// The command that the task runs.
pub open spec fn is_setup_command(command: HostCommand) -> bool {
    &&& command.program@ == "echo"@
    &&& command.arguments@.len() == 1
    &&& command.arguments@[0]@ == "Custom setup plugin executed successfully"@
}

/// What follows from the output of the command, or from its failure.
pub open spec fn concludes(output: Result<String, ()>, execution: Execution) -> bool {
    match output {
        Ok(text) => {
            &&& execution.log matches Some(line) && line@ == "Command output: "@ + text@
            &&& execution.result matches Ok(success) && success.message@
                == "Custom setup completed successfully"@
        },
        Err(_) => execution.log is None && execution.result is Err,
    }
}

/// A plugin that always executes, by running one command on the host.
#[derive(Clone, Copy, Debug)]
pub struct CustomSetupPlugin;

impl CustomSetupPlugin {
    /// Describes the plugin.
    pub fn description() -> (res: String)
        ensures
            res@ == "Custom Setup Plugin - Demonstrates device setup automation"@,
    {
        "Custom Setup Plugin - Demonstrates device setup automation".to_owned()
    }

    /// Reports the task as unfulfilled, so that it is always executed.
    pub fn check_fulfilled() -> (res: Result<TaskFulfilled, ()>)
        ensures
            res == Ok::<TaskFulfilled, ()>(TaskFulfilled::No),
    {
        Ok(TaskFulfilled::No)
    }

    /// The command that the task runs.
    pub fn command() -> (res: HostCommand)
        ensures
            is_setup_command(res),
    {
        let mut arguments: Vec<String> = Vec::new();
        arguments.push("Custom setup plugin executed successfully".to_owned());
        HostCommand { program: "echo".to_owned(), arguments }
    }

    /// Judges the task by the output of the command, or by its failure.
    pub fn conclude(output: Result<String, ()>) -> (res: Execution)
        ensures
            concludes(output, res),
    {
        match output {
            Ok(text) => {
                let mut line = "Command output: ".to_owned();
                line.append(text.as_str());
                let success = Success {
                    message: "Custom setup completed successfully".to_owned(),
                };
                Execution { log: Some(line), result: Ok(success) }
            },
            Err(_) => Execution { log: None, result: Err(()) },
        }
    }

    /// Executes the task: `call_command` runs the command on the host.
    pub fn execute<C: FnOnce(HostCommand) -> Result<String, ()>>(call_command: C) -> (res:
        Execution)
        requires
            forall|command: HostCommand| #[trigger]
                is_setup_command(command) ==> call_requires(call_command, (command,)),
        ensures
            exists|command: HostCommand, output: Result<String, ()>| #[trigger]
                call_ensures(call_command, (command,), output) && is_setup_command(command)
                    && concludes(output, res),
    {
        let command = Self::command();
        let output = call_command(command);
        Self::conclude(output)
    }
}

/// The task is always executed: it is never reported as fulfilled.
pub proof fn task_is_never_fulfilled(res: Result<TaskFulfilled, ()>)
    requires
        call_ensures(CustomSetupPlugin::check_fulfilled, (), res),
    ensures
        res matches Ok(fulfilled) && fulfilled is No,
{
}

/// The task succeeds if and only if its command does. The output of the command is then logged.
pub proof fn task_succeeds_with_its_command(output: Result<String, ()>, execution: Execution)
    requires
        call_ensures(CustomSetupPlugin::conclude, (output,), execution),
    ensures
        execution.result is Ok <==> output is Ok,
        execution.log is Some <==> output is Ok,
        output matches Ok(text) ==> (execution.log matches Some(line) && line@
            == "Command output: "@ + text@),
        execution.result matches Ok(success) ==> success.message@
            == "Custom setup completed successfully"@,
{
}

/// Whatever the host replies, the task runs one command, which echoes that it was executed, and it
/// is judged by the reply.
pub proof fn task_runs_one_command<C: FnOnce(HostCommand) -> Result<String, ()>>(
    call_command: C,
    execution: Execution,
)
    requires
        call_ensures(CustomSetupPlugin::execute::<C>, (call_command,), execution),
    ensures
        exists|command: HostCommand, output: Result<String, ()>| #[trigger]
            call_ensures(call_command, (command,), output) && command.program@ == "echo"@
                && command.arguments@.len() == 1 && command.arguments@[0]@
                == "Custom setup plugin executed successfully"@ && (execution.result is Ok
                <==> output is Ok) && (output matches Ok(text) ==> (execution.log matches Some(line)
                && line@ == "Command output: "@ + text@)),
{
}

} // verus!
