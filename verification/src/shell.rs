//! Shell commands on the device, as seen by the code that decides what to run next.
//!
//! A computation that needs the device is a function of the replies received so far. It either
//! names the next command to run, or it is done. The caller runs the command, appends the reply
//! and asks again.

use vstd::prelude::*;

use crate::errors;
use crate::errors::CoreError;
use crate::text;
use crate::text::{chars_of, string_of, trimmed};

verus! {

/// What a shell command came to, before it is judged.
#[derive(Debug)]
pub enum RawReply {
    /// The command could not be run. Holds the reason.
    Broken(String),
    /// The command ended.
    Ended {
        /// The exit status, where the device reports one.
        status: Option<u8>,
        /// What it wrote to its standard output.
        stdout: String,
        /// What it wrote to its standard error.
        stderr: String,
    },
}

/// The message for a command that could not be run.
pub open spec fn broken_text(command: Seq<char>, reason: Seq<char>) -> Seq<char> {
    "adb shell failed for `"@ + command + "`: "@ + reason
}

/// The message for a command that ended with a status other than zero.
pub open spec fn nonzero_text(command: Seq<char>, stderr: Seq<char>) -> Seq<char> {
    "adb shell returned non-zero for `"@ + command + "`: "@ + text::trim(stderr)
}

/// Whether a command ended with a status other than zero.
pub open spec fn is_nonzero(status: Option<u8>) -> bool {
    status matches Some(code) && code != 0
}

/// Whether `r` is the judgement of a raw reply: the output where the command ended and reported
/// no failure, and a run-time error otherwise.
pub open spec fn is_judgement(r: Result<String, CoreError>, command: Seq<char>, reply: RawReply) -> bool {
    match reply {
        RawReply::Broken(reason) => r matches Err(e) && errors::is_runtime(
            e,
            broken_text(command, reason@),
        ),
        RawReply::Ended { status, stdout, stderr } => if is_nonzero(status) {
            r matches Err(e) && errors::is_runtime(e, nonzero_text(command, stderr@))
        } else {
            r matches Ok(output) && output@ == stdout@
        },
    }
}

/// Judges what a shell command came to.
pub fn run_shell(command: &str, reply: RawReply) -> (r: Result<String, CoreError>)
    ensures
        is_judgement(r, command@, reply),
{
    match reply {
        RawReply::Broken(reason) => {
            let mut text = String::from_str("adb shell failed for `");
            text.append(command);
            text.append("`: ");
            text.append(reason.as_str());
            Err(CoreError::Runtime(text))
        },
        RawReply::Ended { status, stdout, stderr } => {
            let failed: bool = match status {
                Some(code) => code != 0,
                None => false,
            };
            if failed {
                let chars = chars_of(stderr.as_str());
                let trimmed = string_of(trimmed(chars.as_slice()));
                let mut text = String::from_str("adb shell returned non-zero for `");
                text.append(command);
                text.append("`: ");
                text.append(trimmed.as_str());
                Err(CoreError::Runtime(text))
            } else {
                Ok(stdout)
            }
        },
    }
}

/// Whether `r` is the judgement of a raw reply whose output counts without white space around it.
pub open spec fn is_trimmed_judgement(
    r: Result<String, CoreError>,
    command: Seq<char>,
    reply: RawReply,
) -> bool {
    match reply {
        RawReply::Broken(reason) => r matches Err(e) && errors::is_runtime(
            e,
            broken_text(command, reason@),
        ),
        RawReply::Ended { status, stdout, stderr } => if is_nonzero(status) {
            r matches Err(e) && errors::is_runtime(e, nonzero_text(command, stderr@))
        } else {
            r matches Ok(output) && output@ == text::trim(stdout@)
        },
    }
}

/// Judges what a shell command came to and drops the white space around its output.
pub fn run_shell_trimmed(command: &str, reply: RawReply) -> (r: Result<String, CoreError>)
    ensures
        is_trimmed_judgement(r, command@, reply),
{
    match run_shell(command, reply) {
        Ok(output) => {
            let chars = chars_of(output.as_str());
            Ok(string_of(trimmed(chars.as_slice())))
        },
        Err(e) => Err(e),
    }
}

/// The message for a device that was not found.
pub open spec fn no_device_text(serial: Option<Seq<char>>, reason: Seq<char>) -> Seq<char> {
    match serial {
        Some(serial) => "failed to get adb device `"@ + serial + "`: "@ + reason,
        None => "failed to get adb device: "@ + reason,
    }
}

/// The error for a device that was not found, with the reason that the ADB server gave.
pub fn open_target_device(serial: &Option<String>, reason: &str) -> (r: CoreError)
    ensures
        errors::is_runtime(r, no_device_text(text::optional(*serial), reason@)),
{
    match serial {
        Some(serial) => {
            let mut text = String::from_str("failed to get adb device `");
            text.append(serial.as_str());
            text.append("`: ");
            text.append(reason);
            CoreError::Runtime(text)
        },
        None => {
            let mut text = String::from_str("failed to get adb device: ");
            text.append(reason);
            CoreError::Runtime(text)
        },
    }
}

/// The output of a command that ran, or nothing where it failed.
pub open spec fn output_of(reply: Result<String, CoreError>) -> Option<Seq<char>> {
    match reply {
        Ok(output) => Some(output@),
        Err(_) => None,
    }
}

/// The outputs of commands, in the order in which they ran.
pub open spec fn outputs(replies: Seq<Result<String, CoreError>>) -> Seq<Option<Seq<char>>> {
    replies.map_values(|r: Result<String, CoreError>| output_of(r))
}

/// How far a computation that needs the device has come.
#[derive(Debug)]
pub enum Progress<T> {
    /// The next command has to be run.
    Run(String),
    /// The computation is done. Holds its result and the number of replies that it and all
    /// before it have used.
    Done(T, usize),
}

/// How far a computation that needs the device has come, abstractly.
pub enum Outcome<T> {
    /// The next command has to be run.
    Run(Seq<char>),
    /// The computation is done.
    Done(T, nat),
}

impl<T> View for Progress<T> {
    type V = Outcome<T>;

    open spec fn view(&self) -> Outcome<T> {
        match *self {
            Progress::Run(command) => Outcome::Run(command@),
            Progress::Done(value, used) => Outcome::Done(value, used as nat),
        }
    }
}

impl<T: View> Progress<T> {
    /// How far a computation has come, with its result taken abstractly too.
    pub open spec fn deep(self) -> Outcome<T::V> {
        match self {
            Progress::Run(command) => Outcome::Run(command@),
            Progress::Done(value, used) => Outcome::Done(value@, used as nat),
        }
    }
}

/// The judgement of a command is its output where it ended without a failure; otherwise it is an
/// error that names the command and tells the reason.
pub proof fn law_judgements(r: Result<String, CoreError>, command: Seq<char>, reply: RawReply)
    requires
        is_judgement(r, command, reply),
    ensures
        reply matches RawReply::Ended { status, stdout, stderr } ==> {
            &&& status == None::<u8> || status == Some(0u8) ==> (r matches Ok(output) && output@
                == stdout@)
            &&& status != None::<u8> && status != Some(0u8) ==> (r matches Err(
                CoreError::Runtime(message),
            ) && text::contains(message@, command) && text::trim(stderr@).is_suffix_of(message@))
        },
        reply matches RawReply::Broken(reason) ==> (r matches Err(CoreError::Runtime(message))
            && text::contains(message@, command) && reason@.is_suffix_of(message@)),
{
    match reply {
        RawReply::Ended { status, stdout, stderr } => {
            if is_nonzero(status) {
                lemma_message(
                    "adb shell returned non-zero for `"@,
                    command,
                    text::trim(stderr@),
                );
            }
        },
        RawReply::Broken(reason) => {
            lemma_message("adb shell failed for `"@, command, reason@);
        },
    }
}

proof fn lemma_message(head: Seq<char>, command: Seq<char>, reason: Seq<char>)
    ensures
        text::contains(head + command + "`: "@ + reason, command),
        reason.is_suffix_of(head + command + "`: "@ + reason),
{
    let message = head + command + "`: "@ + reason;
    text::lemma_contains_self(command);
    text::lemma_contains_right(head, command, command);
    text::lemma_contains_left(head + command, "`: "@, command);
    text::lemma_contains_left(head + command + "`: "@, reason, command);
    assert(message.skip(message.len() - reason.len()) =~= reason);
}

} // verus!
