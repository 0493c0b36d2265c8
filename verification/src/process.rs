//! Running external commands: how a command line is put together and what
//! the way a command ended means for the caller.

use vstd::prelude::*;
use vstd::string::StringExecFns;
use crate::error::BuilderError;
use crate::text::{
    concat_str,
    decimal,
    format_decimal,
    format_signed,
    join_with,
    joined_with,
    parse_u32,
    parsed_u32,
    parts,
    signed_decimal,
    split_on,
    trim,
    trimmed,
};

verus! {

/// Utility for running external processes.
#[derive(Debug)]
pub struct ProcessRunner {
    /// Whether commands are reported in detail.
    pub debug: bool,
}

/// Result of a process execution.
#[derive(Debug)]
pub struct ProcessResult {
    /// Exit status code.
    pub exit_code: Option<i32>,
    /// Standard output.
    pub stdout: String,
    /// Standard error.
    pub stderr: String,
    /// Whether the process was successful.
    pub success: bool,
}

/// How an attempt to run a command ended.
#[derive(Debug)]
pub enum Outcome {
    /// The command could not be started; `reason` says why.
    NotStarted { reason: String },
    /// The command ran to its end. Output that was not captured is empty.
    Exited { success: bool, exit_code: Option<i32>, stdout: String, stderr: String },
}

/// The command line as it is shown and reported: the command, a space, and
/// the arguments with spaces in between.
pub open spec fn command_line(command: Seq<char>, args: Seq<Seq<char>>) -> Seq<char> {
    command + seq![' '] + joined_with(args, seq![' '])
}

/// An exit code as it is shown: `None`, or `Some(` code `)`.
pub open spec fn shown_code(code: Option<i32>) -> Seq<char> {
    match code {
        None => "None"@,
        Some(c) => "Some("@ + signed_decimal(c as int) + ")"@,
    }
}

/// Whether `e` reports that the command line `line` could not be started
/// for `reason`.
pub open spec fn is_start_failure(e: BuilderError, line: Seq<char>, reason: Seq<char>) -> bool {
    &&& e matches BuilderError::Process { command, exit_code, stdout, stderr }
    &&& command@ == line
    &&& exit_code is None
    &&& stdout@ == Seq::<char>::empty()
    &&& stderr@ == "Failed to execute command: "@ + reason
}

/// Whether the command ran to its end and succeeded.
pub open spec fn succeeded(outcome: Outcome) -> bool {
    outcome matches Outcome::Exited { success: true, .. }
}

/// Whether `p` is what a command that ended as `outcome` left behind.
pub open spec fn is_output_of(p: ProcessResult, outcome: Outcome) -> bool {
    outcome == (Outcome::Exited {
        success: p.success,
        exit_code: p.exit_code,
        stdout: p.stdout,
        stderr: p.stderr,
    })
}

/// Whether `e` reports the failure of the command line `line` that ended as
/// `outcome`, with what was captured of its output.
pub open spec fn is_output_failure(e: BuilderError, line: Seq<char>, outcome: Outcome) -> bool {
    match outcome {
        Outcome::NotStarted { reason } => is_start_failure(e, line, reason@),
        Outcome::Exited { exit_code: code, stdout: out, stderr: err, .. } => {
            &&& e matches BuilderError::Process { command, exit_code, stdout, stderr }
            &&& command@ == line
            &&& exit_code == code
            &&& stdout == out
            &&& stderr == err
        },
    }
}

/// Whether run `k` is the first of `runs` that did not succeed.
pub open spec fn fails_first(runs: Seq<(String, Vec<String>, Outcome)>, k: int) -> bool {
    &&& 0 <= k < runs.len()
    &&& !succeeded(runs[k].2)
    &&& forall|j: int| 0 <= j < k ==> succeeded(#[trigger] runs[j].2)
}

/// What is to be done next in a sequence of commands.
#[derive(Debug, Clone, Copy, PartialEq, Eq)]
pub enum SequenceStep {
    /// Run the command at `index`.
    Run { index: usize },
    /// Run nothing more.
    Done,
}

/// Whether every run succeeded.
pub open spec fn all_succeeded(runs: Seq<(String, Vec<String>, Outcome)>) -> bool {
    forall|i: int| 0 <= i < runs.len() ==> succeeded(#[trigger] runs[i].2)
}

/// The next step of a sequence of `count` commands after `runs`: the next
/// command is run as long as one is left and none has failed.
pub open spec fn next_step(runs: Seq<(String, Vec<String>, Outcome)>, count: usize) -> SequenceStep {
    if runs.len() < count && all_succeeded(runs) {
        SequenceStep::Run { index: runs.len() as usize }
    } else {
        SequenceStep::Done
    }
}

impl Outcome {
    /// Whether the command ran to its end and succeeded.
    pub fn succeeded(&self) -> (r: bool)
        ensures
            r == succeeded(*self),
    {
        match self {
            Outcome::Exited { success, .. } => *success,
            Outcome::NotStarted { .. } => false,
        }
    }
}

/// The text of an exit code, as [`shown_code`] defines it.
pub fn show_code(code: Option<i32>) -> (r: String)
    ensures
        r@ == shown_code(code),
{
    match code {
        None => String::from_str("None"),
        Some(c) => {
            let mut out = String::from_str("Some(");
            let digits = format_signed(c);
            out.append(digits.as_str());
            out.append(")");
            out
        },
    }
}

/// The process ids in the output of a process listing: each line, without
/// surrounding whitespace, that reads as a number; other lines are skipped.
pub open spec fn listed_pids(stdout: Seq<char>) -> Seq<u32> {
    pids_of(parts(stdout, '\n'))
}

/// The numbers among `lines`, in order.
pub open spec fn pids_of(lines: Seq<Seq<char>>) -> Seq<u32>
    decreases lines.len(),
{
    if lines.len() == 0 {
        Seq::empty()
    } else {
        let rest = pids_of(lines.drop_last());
        match parsed_u32(trimmed(lines.last())) {
            Some(pid) => rest.push(pid),
            None => rest,
        }
    }
}

impl ProcessRunner {
    /// A new process runner.
    pub fn new(debug: bool) -> (r: Self)
        ensures
            r.debug == debug,
    {
        ProcessRunner { debug }
    }

    /// The command line of `command` with `args`.
    pub fn command_line(command: &str, args: &Vec<String>) -> (r: String)
        ensures
            r@ == command_line(command@, args.deep_view()),
    {
        let mut out = concat_str(command, " ");
        let tail = join_with(args, " ");
        out.append(tail.as_str());
        proof {
            reveal_strlit(" ");
            assert(" "@ =~= seq![' ']);
        }
        out
    }

    /// What the end of a command means when its output was not captured: a
    /// command that ran and succeeded is fine; one that could not be started
    /// or that failed is a process error naming the command line.
    pub fn status_result(&self, command: &str, args: &Vec<String>, outcome: &Outcome) -> (r:
        Result<(), BuilderError>)
        ensures
            r is Ok <==> outcome matches Outcome::Exited { success: true, .. },
            r matches Err(e) ==> match outcome {
                Outcome::NotStarted { reason } => is_start_failure(
                    e,
                    command_line(command@, args.deep_view()),
                    reason@,
                ),
                Outcome::Exited { exit_code: code, .. } => {
                    &&& e matches BuilderError::Process { command: line, exit_code, stdout, stderr }
                    &&& line@ == command_line(command@, args.deep_view())
                    &&& exit_code == code
                    &&& stdout@ == Seq::<char>::empty()
                    &&& stderr@ == "Command failed with exit code: "@ + shown_code(*code)
                },
            },
    {
        let line = ProcessRunner::command_line(command, args);
        match outcome {
            Outcome::NotStarted { reason } => Err(
                BuilderError::process(
                    line,
                    None,
                    String::new(),
                    concat_str("Failed to execute command: ", reason.as_str()),
                ),
            ),
            Outcome::Exited { success, exit_code, .. } => {
                if *success {
                    Ok(())
                } else {
                    let shown = show_code(*exit_code);
                    Err(
                        BuilderError::process(
                            line,
                            *exit_code,
                            String::new(),
                            concat_str("Command failed with exit code: ", shown.as_str()),
                        ),
                    )
                }
            },
        }
    }

    /// What the end of a command means when its output was captured: a
    /// command that ran and succeeded yields its output; one that could not
    /// be started or that failed is a process error carrying what was
    /// captured.
    pub fn output_result(&self, command: &str, args: &Vec<String>, outcome: Outcome) -> (r: Result<
        ProcessResult,
        BuilderError,
    >)
        ensures
            r is Ok <==> succeeded(outcome),
            r matches Ok(p) ==> is_output_of(p, outcome),
            r matches Err(e) ==> is_output_failure(
                e,
                command_line(command@, args.deep_view()),
                outcome,
            ),
    {
        self.result_of(command, args, &outcome)
    }

    /// What the end of a command means when its output was captured, for an
    /// outcome that the caller keeps.
    fn result_of(&self, command: &str, args: &Vec<String>, outcome: &Outcome) -> (r: Result<
        ProcessResult,
        BuilderError,
    >)
        ensures
            r is Ok <==> succeeded(*outcome),
            r matches Ok(p) ==> is_output_of(p, *outcome),
            r matches Err(e) ==> is_output_failure(
                e,
                command_line(command@, args.deep_view()),
                *outcome,
            ),
    {
        let line = ProcessRunner::command_line(command, args);
        match outcome {
            Outcome::NotStarted { reason } => Err(
                BuilderError::process(
                    line,
                    None,
                    String::new(),
                    concat_str("Failed to execute command: ", reason.as_str()),
                ),
            ),
            Outcome::Exited { success, exit_code, stdout, stderr } => {
                if *success {
                    Ok(
                        ProcessResult {
                            exit_code: *exit_code,
                            stdout: stdout.clone(),
                            stderr: stderr.clone(),
                            success: *success,
                        },
                    )
                } else {
                    Err(BuilderError::process(line, *exit_code, stdout.clone(), stderr.clone()))
                }
            },
        }
    }

    /// Decides what is done next in a sequence of `count` commands of which
    /// `runs` have been run, in order.
    pub fn sequence_step(runs: &Vec<(String, Vec<String>, Outcome)>, count: usize) -> (r:
        SequenceStep)
        ensures
            r == next_step(runs@, count),
    {
        if runs.len() >= count {
            return SequenceStep::Done;
        }
        let mut i: usize = 0;
        while i < runs.len()
            invariant
                i <= runs.len(),
                forall|j: int| 0 <= j < i ==> succeeded(#[trigger] runs[j].2),
            decreases runs.len() - i,
        {
            if !runs[i].2.succeeded() {
                return SequenceStep::Done;
            }
            i += 1;
        }
        SequenceStep::Run { index: runs.len() }
    }

    /// What a sequence of commands comes to, given each command with its
    /// arguments and how it ended. Where every command succeeded, the outputs
    /// are returned in order. Otherwise the result is the error of the first
    /// command that did not succeed; what follows it is not looked at.
    pub fn sequence_result(&self, runs: Vec<(String, Vec<String>, Outcome)>) -> (r: Result<
        Vec<ProcessResult>,
        BuilderError,
    >)
        ensures
            r is Ok <==> all_succeeded(runs@),
            r matches Ok(results) ==> results.len() == runs.len() && forall|i: int|
                0 <= i < runs.len() ==> is_output_of(#[trigger] results[i], runs[i].2),
            r matches Err(e) ==> exists|k: int|
                #[trigger] fails_first(runs@, k) && is_output_failure(
                    e,
                    command_line(runs[k].0@, runs[k].1.deep_view()),
                    runs[k].2,
                ),
    {
        let mut results: Vec<ProcessResult> = Vec::new();
        let mut i: usize = 0;
        while i < runs.len()
            invariant
                i <= runs.len(),
                results.len() == i,
                forall|j: int| 0 <= j < i ==> succeeded(#[trigger] runs[j].2),
                forall|j: int| 0 <= j < i ==> is_output_of(#[trigger] results[j], runs[j].2),
            decreases runs.len() - i,
        {
            let run = &runs[i];
            match self.result_of(run.0.as_str(), &run.1, &run.2) {
                Ok(result) => {
                    results.push(result);
                },
                Err(e) => {
                    assert(fails_first(runs@, i as int));
                    return Err(e);
                },
            }
            i += 1;
        }
        Ok(results)
    }

    /// The arguments of `kill` that send `signal` to the process `pid`.
    pub fn kill_arguments(pid: u32, signal: i32) -> (r: Vec<String>)
        ensures
            r.deep_view() == seq![
                seq!['-'] + signed_decimal(signal as int),
                decimal(pid as nat),
            ],
    {
        let mut flag = String::new();
        flag.push('-');
        let digits = format_signed(signal);
        flag.append(digits.as_str());
        let mut args: Vec<String> = Vec::new();
        args.push(flag);
        args.push(format_decimal(pid as u64));
        assert(flag@ =~= seq!['-'] + signed_decimal(signal as int));
        assert(args.deep_view() =~= seq![
            seq!['-'] + signed_decimal(signal as int),
            decimal(pid as nat),
        ]);
        args
    }

    /// The process ids in the output of a process listing.
    pub fn parse_pids(stdout: &str) -> (r: Vec<u32>)
        ensures
            r@ == listed_pids(stdout@),
    {
        let lines = split_on(stdout, '\n');
        let mut pids: Vec<u32> = Vec::new();
        let mut i: usize = 0;
        assert(lines.deep_view().take(0) =~= Seq::<Seq<char>>::empty());
        while i < lines.len()
            invariant
                i <= lines.len(),
                pids@ == pids_of(lines.deep_view().take(i as int)),
            decreases lines.len() - i,
        {
            proof {
                let next = lines.deep_view().take(i + 1);
                assert(next.drop_last() =~= lines.deep_view().take(i as int));
                assert(next.last() == lines@[i as int]@);
            }
            let line = trim(lines[i].as_str());
            match parse_u32(line.as_str()) {
                Some(pid) => { pids.push(pid); },
                None => {},
            }
            i += 1;
        }
        assert(lines.deep_view().take(lines.len() as int) =~= lines.deep_view());
        pids
    }
}

impl Default for ProcessRunner {
    fn default() -> (r: Self)
        ensures
            !r.debug,
    {
        ProcessRunner::new(false)
    }
}

} // verus!
