//! The runner: from a file path to the process to start, and from what the
//! process left behind to the text that the caller is shown.
//!
//! Starting the process is the caller's part. The runner says what to start
//! and where, and judges the outcome by the exit status.

use vstd::prelude::*;
use vstd::string::StringExecFns;
use crate::config::{ConfigView, RunnerConfig};
use crate::error::{message_of, RunError};
use crate::paths::{directory, directory_of};
use crate::project::ProjectType;
use crate::resolver::{resolution, resolve};
use crate::text::{decode_lossy, option_text, owned, texts, utf8_lossy};
use crate::tokenizer::{tokenize, tokens_of};

verus! {

/// A process to start: the program, its arguments as they are, and the
/// directory to start it in. No shell stands between.
#[derive(Debug, PartialEq, Eq)]
pub struct Invocation {
    pub program: String,
    pub args: Vec<String>,
    pub workdir: String,
}

/// What a slash command asks for.
#[derive(Debug, PartialEq, Eq)]
pub enum SlashRequest {
    /// Run the file at this path.
    Run(String),
    /// Nothing to run: answer with this text.
    Reply(String),
}

/// Runs files by the commands of a configuration.
pub struct CodeRunner {
    config: RunnerConfig,
}

impl View for CodeRunner {
    type V = ConfigView;

    closed spec fn view(&self) -> ConfigView {
        self.config@
    }
}

/// The invocation that a command and a directory make, or why they make
/// none, as program, arguments and directory.
pub open spec fn invocation_of(command: Seq<char>, workdir: Seq<char>) -> Result<
    (Seq<char>, Seq<Seq<char>>, Seq<char>),
    RunError,
> {
    if tokens_of(command).len() == 0 {
        Err(RunError::Tokenize)
    } else {
        Ok((tokens_of(command)[0], tokens_of(command).skip(1), workdir))
    }
}

/// The invocation for a path, or why there is none.
pub open spec fn planned(cfg: ConfigView, path: Seq<char>, project: Option<ProjectType>) -> Result<
    (Seq<char>, Seq<Seq<char>>, Seq<char>),
    RunError,
> {
    match resolution(cfg, path, project) {
        Some(command) => invocation_of(command, directory_of(path)),
        None => Err(RunError::ResolutionMiss),
    }
}

/// An invocation as program, arguments and directory.
pub open spec fn invocation_view(r: Result<Invocation, RunError>) -> Result<
    (Seq<char>, Seq<Seq<char>>, Seq<char>),
    RunError,
> {
    match r {
        Ok(inv) => Ok((inv.program@, texts(inv.args@), inv.workdir@)),
        Err(e) => Err(e),
    }
}

/// The result of a process that ended: its output if it succeeded, else its
/// error stream as a failure.
pub open spec fn concluded(success: bool, stdout: Seq<u8>, stderr: Seq<u8>) -> Result<
    Seq<char>,
    Seq<char>,
> {
    if success {
        Ok(utf8_lossy(stdout))
    } else {
        Err(utf8_lossy(stderr))
    }
}

/// The name of the slash command that runs a file.
pub open spec fn run_command_name() -> Seq<char> {
    "code-runner.run"@
}

/// What a slash command with the given name and arguments asks for.
pub open spec fn slash_request_of(name: Seq<char>, args: Seq<Seq<char>>) -> (bool, Seq<char>) {
    if name != run_command_name() {
        (false, "Unknown command: "@ + name)
    } else if args.len() == 0 {
        (false, "No file path provided"@)
    } else {
        (true, args[0])
    }
}

/// The text that answers a slash command after a run.
pub open spec fn slash_reply_of(outcome: Result<String, RunError>) -> Seq<char> {
    match outcome {
        Ok(output) => output@,
        Err(e) => "Error: "@ + message_of(e),
    }
}

/// Splits a resolved command and pairs it with the directory to run it in.
/// Fails with `Tokenize` exactly when the command holds no token.
pub fn invocation_for(command: &str, workdir: String) -> (r: Result<Invocation, RunError>)
    ensures
        invocation_view(r) == invocation_of(command@, workdir@),
{
    match tokenize(command) {
        Ok(tokens) => {
            let program = tokens[0].clone();
            let mut args: Vec<String> = Vec::new();
            let mut i: usize = 1;
            assert(texts(args@) =~= tokens_of(command@).subrange(1, 1));
            while i < tokens.len()
                invariant
                    1 <= i <= tokens.len(),
                    texts(tokens@) == tokens_of(command@),
                    texts(args@) == tokens_of(command@).subrange(1, i as int),
                decreases tokens.len() - i,
            {
                let ghost before = args@;
                let token = tokens[i].clone();
                args.push(token);
                assert(texts(tokens@)[i as int] == tokens@[i as int]@);
                assert(texts(args@) =~= texts(before).push(token@));
                assert(texts(args@) =~= tokens_of(command@).subrange(1, i + 1));
                i += 1;
            }
            assert(tokens_of(command@).subrange(1, tokens.len() as int) =~= tokens_of(
                command@,
            ).skip(1));
            assert(texts(tokens@)[0] == tokens@[0]@);
            Ok(Invocation { program, args, workdir })
        },
        Err(_) => Err(RunError::Tokenize),
    }
}

/// Judges a process that ran to its end: with a success status the decoded
/// output stream is the result, otherwise the decoded error stream is the
/// failure. Bytes that are no valid text are replaced, never refused.
pub fn conclude(success: bool, stdout: &[u8], stderr: &[u8]) -> (r: Result<String, RunError>)
    ensures
        match r {
            Ok(output) => concluded(success, stdout@, stderr@) == Ok::<Seq<char>, Seq<char>>(
                output@,
            ),
            Err(RunError::NonZeroExit(text)) => concluded(success, stdout@, stderr@) == Err::<
                Seq<char>,
                Seq<char>,
            >(text@),
            Err(_) => false,
        },
{
    if success {
        Ok(decode_lossy(stdout))
    } else {
        Err(RunError::NonZeroExit(decode_lossy(stderr)))
    }
}

/// The failure of a program that could not be started, with the system's
/// reason for it.
pub fn launch_failure(reason: String) -> (e: RunError)
    ensures
        e == RunError::Launch(reason),
{
    RunError::Launch(reason)
}

/// Reads a slash command: the run command with a first argument asks to run
/// that path; without an argument, and under any other name, a fixed reply
/// is due.
pub fn slash_request(name: &str, args: &Vec<String>) -> (r: SlashRequest)
    ensures
        match r {
            SlashRequest::Run(path) => slash_request_of(name@, texts(args@)) == (true, path@),
            SlashRequest::Reply(text) => slash_request_of(name@, texts(args@)) == (false, text@),
        },
{
    let given = owned(name);
    let expected = owned("code-runner.run");
    if given == expected {
        if args.len() == 0 {
            SlashRequest::Reply(owned("No file path provided"))
        } else {
            assert(texts(args@)[0] == args@[0]@);
            SlashRequest::Run(args[0].clone())
        }
    } else {
        let mut text = owned("Unknown command: ");
        text.append(name);
        SlashRequest::Reply(text)
    }
}

/// The text that answers a slash command: the output of the run, or the
/// error's message behind `Error: `.
pub fn slash_reply(outcome: &Result<String, RunError>) -> (r: String)
    ensures
        r@ == slash_reply_of(*outcome),
{
    match outcome {
        Ok(output) => output.clone(),
        Err(e) => {
            let mut text = owned("Error: ");
            let message = e.message();
            text.append(message.as_str());
            text
        },
    }
}

impl CodeRunner {
    /// The configuration is sound.
    pub closed spec fn wf(&self) -> bool {
        self.config.wf()
    }

    /// A runner with the given configuration.
    pub fn new(config: RunnerConfig) -> (r: CodeRunner)
        requires
            config.wf(),
        ensures
            r.wf(),
            r@ == config@,
    {
        CodeRunner { config }
    }

    /// The configuration of the runner.
    pub fn config(&self) -> (c: &RunnerConfig)
        requires
            self.wf(),
        ensures
            c.wf(),
            c@ == self@,
    {
        &self.config
    }

    /// The command for `path` by the mappings of files and of languages
    /// alone, with the placeholders filled in.
    pub fn command_for(&self, path: &str) -> (r: Option<String>)
        requires
            self.wf(),
        ensures
            option_text(r) == resolution(self@, path@, None),
    {
        resolve(&self.config, path, None)
    }

    /// Whether the project's type has a say for `path`: it has none where
    /// the mappings of files and of languages already give a command.
    pub fn needs_project(&self, path: &str) -> (r: bool)
        requires
            self.wf(),
        ensures
            r == (resolution(self@, path@, None) is None),
            !r ==> forall|project: Option<ProjectType>| #[trigger]
                resolution(self@, path@, project) == resolution(self@, path@, None),
    {
        resolve(&self.config, path, None).is_none()
    }

    /// The command for `path` in a project of the given type, with the
    /// placeholders filled in.
    pub fn resolve(&self, path: &str, project: Option<ProjectType>) -> (r: Option<String>)
        requires
            self.wf(),
        ensures
            option_text(r) == resolution(self@, path@, project),
    {
        resolve(&self.config, path, project)
    }

    /// What to start for `path`: the tokens of its command, in the file's
    /// directory. Fails with `ResolutionMiss` where no tier has a command,
    /// and with `Tokenize` where the command holds no token.
    pub fn plan(&self, path: &str, project: Option<ProjectType>) -> (r: Result<Invocation, RunError>)
        requires
            self.wf(),
        ensures
            invocation_view(r) == planned(self@, path@, project),
    {
        match resolve(&self.config, path, project) {
            Some(command) => invocation_for(command.as_str(), directory(path)),
            None => Err(RunError::ResolutionMiss),
        }
    }
}

} // verus!
