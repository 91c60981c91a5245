//! What surrounds the launch of a command: the plan made from a command
//! line before the process starts, and the reading of what it printed.
//!
//! Starting the process is left to the caller. It hands back the bytes of
//! standard output, or nothing if the process could not be started.

use crate::text::contains;
use crate::text::contains_seq;
use crate::text::same_text;
use crate::text::split_whitespace;
use crate::text::split_words;
use crate::text::strings_view;
use vstd::prelude::*;

verus! {

broadcast use vstd::utf8::encode_utf8_decode_utf8;

/// How running a command can fail.
#[derive(Clone, Copy, Debug, PartialEq, Eq, Structural)]
pub enum ExecutionError {
    /// The process could not be started.
    SpawnFailed,
    /// The process printed bytes that are not UTF-8 text.
    InvalidEncoding,
    /// The process printed its own usage banner in place of data.
    HelpTextDetected,
}

/// The two ways a program is started.
#[derive(Clone, Copy, Debug, PartialEq, Eq, Structural)]
pub enum LaunchPath {
    /// The helper shipped with the application, started through the
    /// restricted launch path, with no search along `PATH`.
    BundledHelper,
    /// Any other program, started as a general host process.
    HostProcess,
}

/// A command line taken apart: which program, how to start it, and its
/// arguments.
#[derive(Debug)]
pub struct Launch {
    pub path: LaunchPath,
    pub program: String,
    pub args: Vec<String>,
}

/// Name of the helper that is shipped with the application.
pub open spec fn bundled_helper() -> Seq<char> {
    "playerctl"@
}

/// The launch path for a program name.
pub open spec fn path_for(program: Seq<char>) -> LaunchPath {
    if program == bundled_helper() {
        LaunchPath::BundledHelper
    } else {
        LaunchPath::HostProcess
    }
}

/// Whether `launch` is the plan for the command line `line`: the first word
/// is the program, the other words are its arguments in order.
pub open spec fn is_plan_for(launch: Launch, line: Seq<char>) -> bool {
    let words = split_words(line);
    &&& words.len() > 0
    &&& launch.program@ == words[0]
    &&& launch.path == path_for(words[0])
    &&& strings_view(launch.args@) == words.skip(1)
}

/// Whether `output` looks like the usage banner of a command-line tool.
pub open spec fn looks_like_help(output: Seq<char>) -> bool {
    ||| contains_seq(output, "Usage:"@)
    ||| contains_seq(output, "Help Options:"@)
    ||| contains_seq(output, "Available Commands:"@)
}

/// Makes the launch plan for a command line, split on white space. Quoting
/// is not understood: an argument cannot hold a space.
///
/// A line without any word names no program, and fails as a launch would.
pub fn plan_launch(command_line: &str) -> (r: Result<Launch, ExecutionError>)
    ensures
        match r {
            Ok(launch) => is_plan_for(launch, command_line@),
            Err(e) => e == ExecutionError::SpawnFailed && split_words(command_line@).len() == 0,
        },
{
    let mut words = split_whitespace(command_line);
    if words.len() == 0 {
        return Err(ExecutionError::SpawnFailed);
    }
    let ghost all = strings_view(words@);
    let program = words.remove(0);
    proof {
        assert(program@ == all[0]);
        assert(strings_view(words@) =~= all.skip(1));
    }
    let path = if is_bundled_helper(program.as_str()) {
        LaunchPath::BundledHelper
    } else {
        LaunchPath::HostProcess
    };
    Ok(Launch { path, program, args: words })
}

/// Whether `program` names the helper that is shipped with the application.
pub fn is_bundled_helper(program: &str) -> (r: bool)
    ensures
        r == (program@ == bundled_helper()),
{
    same_text(program, "playerctl")
}

/// The text that printed bytes stand for, if they are well-formed UTF-8.
pub open spec fn decoded(stdout: Seq<u8>) -> Result<Seq<char>, ExecutionError> {
    if vstd::utf8::valid_utf8(stdout) {
        Ok(vstd::utf8::decode_utf8(stdout))
    } else {
        Err(ExecutionError::InvalidEncoding)
    }
}

/// What a run concludes with, given what the process printed, or `None` if
/// it never started.
pub open spec fn concluded(stdout: Option<Seq<u8>>) -> Result<Seq<char>, ExecutionError> {
    match stdout {
        Some(bytes) => decoded(bytes),
        None => Err(ExecutionError::SpawnFailed),
    }
}

/// The characters of a textual result.
pub open spec fn text_of(r: Result<String, ExecutionError>) -> Result<Seq<char>, ExecutionError> {
    match r {
        Ok(text) => Ok(text@),
        Err(e) => Err(e),
    }
}

/// Reads the bytes that a process printed as text.
pub fn decode_output(stdout: Vec<u8>) -> (r: Result<String, ExecutionError>)
    ensures
        text_of(r) == decoded(stdout@),
{
    match String::from_utf8(stdout) {
        Ok(text) => Ok(text),
        Err(_) => Err(ExecutionError::InvalidEncoding),
    }
}

/// Concludes a run: `stdout` is what the process printed, or `None` if it
/// could not be started.
pub fn conclude(stdout: Option<Vec<u8>>) -> (r: Result<String, ExecutionError>)
    ensures
        text_of(r) == concluded(
            match stdout {
                Some(bytes) => Some(bytes@),
                None => None,
            },
        ),
{
    match stdout {
        Some(bytes) => decode_output(bytes),
        None => Err(ExecutionError::SpawnFailed),
    }
}

/// Executable form of [`looks_like_help`].
pub fn is_help_text(output: &str) -> (r: bool)
    ensures
        r == looks_like_help(output@),
{
    contains(output, "Usage:") || contains(output, "Help Options:") || contains(
        output,
        "Available Commands:",
    )
}

/// Turns output that is a usage banner into a failure, although the process
/// itself succeeded; any other output passes through unchanged.
pub fn reject_help_text(output: String) -> (r: Result<String, ExecutionError>)
    ensures
        looks_like_help(output@) ==> r == Err::<String, ExecutionError>(
            ExecutionError::HelpTextDetected,
        ),
        !looks_like_help(output@) ==> r == Ok::<String, ExecutionError>(output),
{
    if is_help_text(output.as_str()) {
        Err(ExecutionError::HelpTextDetected)
    } else {
        Ok(output)
    }
}

/// `std::string::FromUtf8Error`, the error of `String::from_utf8`. Nothing is
/// read from it.
#[verifier::external_type_specification]
#[verifier::external_body]
pub struct ExFromUtf8Error(std::string::FromUtf8Error);

/// `String::from_utf8`: succeeds exactly on well-formed UTF-8, and the text
/// it then returns is made of the very bytes it was given.
pub assume_specification[ String::from_utf8 ](vec: Vec<u8>) -> (r: Result<
    String,
    std::string::FromUtf8Error,
>)
    ensures
        r is Ok <==> vstd::utf8::valid_utf8(vec@),
        r matches Ok(text) ==> vstd::utf8::encode_utf8(text@) == vec@,
;

} // verus!
