//! What a run of the `jj` program comes to.
use vstd::prelude::*;

use crate::bytes;
use crate::bytes::from_utf8_lossy;
use crate::text;
use crate::text::{concat2, join_strings, trim_str};

verus! {

/// What to tell the user when `jj` is not installed.
pub open spec fn not_installed() -> Seq<char> {
    "jj CLI not found on PATH — install Jujutsu (https://jj-vcs.github.io) to manage this repository"@
}

/// Why `jj` could not be started with `args`: either it is not installed, or
/// the system refused for the reason in `message`.
pub open spec fn spawn_error(args: Seq<Seq<char>>, not_found: bool, message: Seq<char>) -> Seq<
    char,
> {
    if not_found {
        not_installed()
    } else {
        "Failed to run jj "@ + text::join_with(args, " "@) + ": "@ + message
    }
}

/// Why `jj` could not be started with `args`.
pub fn friendly_spawn_error(args: &Vec<String>, not_found: bool, message: &str) -> (r: String)
    ensures
        r@ == spawn_error(text::strings_view(args@), not_found, message@),
{
    if not_found {
        "jj CLI not found on PATH — install Jujutsu (https://jj-vcs.github.io) to manage this repository".to_owned()
    } else {
        let line = join_strings(args, " ");
        let mut r = concat2("Failed to run jj ", line.as_str());
        r.append(": ");
        r.append(message);
        r
    }
}

/// The outcome of a finished run: its output, or its trimmed error output
/// behind the command line.
pub open spec fn finished(
    args: Seq<Seq<char>>,
    success: bool,
    stdout: Seq<char>,
    stderr: Seq<char>,
) -> Result<Seq<char>, Seq<char>> {
    if success {
        Ok(stdout)
    } else {
        Err("jj "@ + text::join_with(args, " "@) + " failed: "@ + text::trim(stderr))
    }
}

/// The outcome of a finished run, from the bytes it wrote.
pub fn finish(args: &Vec<String>, success: bool, stdout: &[u8], stderr: &[u8]) -> (r: Result<
    String,
    String,
>)
    ensures
        text::outcome_view(r) == finished(
            text::strings_view(args@),
            success,
            bytes::text_of(stdout@),
            bytes::text_of(stderr@),
        ),
{
    let out = from_utf8_lossy(stdout);
    let err = from_utf8_lossy(stderr);
    finish_text(args, success, out, err.as_str())
}

/// The outcome of a finished run, from the texts it wrote.
pub fn finish_text(args: &Vec<String>, success: bool, stdout: String, stderr: &str) -> (r: Result<
    String,
    String,
>)
    ensures
        text::outcome_view(r) == finished(
            text::strings_view(args@),
            success,
            stdout@,
            stderr@,
        ),
{
    if !success {
        let line = join_strings(args, " ");
        let mut message = concat2("jj ", line.as_str());
        message.append(" failed: ");
        let reason = trim_str(stderr);
        message.append(reason.as_str());
        return Err(message);
    }
    Ok(stdout)
}

/// A run that succeeded gives its output as it is. One that failed gives an
/// error that ends with what the program said, without the white space around
/// it.
pub proof fn runs_give_their_output_or_their_error(
    args: Seq<Seq<char>>,
    stdout: Seq<char>,
    stderr: Seq<char>,
)
    ensures
        finished(args, true, stdout, stderr) == Ok::<Seq<char>, Seq<char>>(stdout),
        finished(args, false, stdout, stderr) matches Err(e) && text::trim(stderr).is_suffix_of(e),
{
    let said = text::trim(stderr);
    let e = finished(args, false, stdout, stderr)->Err_0;
    assert(e.skip(e.len() - said.len()) =~= said);
}

/// A missing program is reported in one way, whatever was asked of it; any other
/// failure to start ends with the system's reason.
pub proof fn a_missing_program_is_named(args: Seq<Seq<char>>, message: Seq<char>)
    ensures
        spawn_error(args, true, message) == not_installed(),
        message.is_suffix_of(spawn_error(args, false, message)),
{
    let e = spawn_error(args, false, message);
    assert(e.skip(e.len() - message.len()) =~= message);
}

} // verus!
