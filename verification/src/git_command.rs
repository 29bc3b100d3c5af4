//! The outcome of a `git worktree` command, from its exit status and its
//! error output.
use vstd::prelude::*;
use crate::text::{trim, trim_spec};

verus! {

/// What `String::from_utf8_lossy` gives for a byte sequence: the text, with
/// each invalid UTF-8 sequence replaced by U+FFFD.
pub uninterp spec fn utf8_lossy(bytes: Seq<u8>) -> Seq<char>;

/// Calls `String::from_utf8_lossy`. Its result is named `utf8_lossy`; the
/// one fact stated besides is that valid UTF-8 is decoded unchanged.
#[verifier::external_body]
fn decode_lossy(bytes: &[u8]) -> (r: String)
    ensures
        r@ == utf8_lossy(bytes@),
        vstd::utf8::valid_utf8(bytes@) ==> r@ == vstd::utf8::decode_utf8(bytes@),
{
    String::from_utf8_lossy(bytes).into_owned()
}

/// The message of a failed command: its name, ` failed: ` and its error
/// output, trimmed.
pub open spec fn failure_message_spec(command: Seq<char>, stderr: Seq<u8>) -> Seq<char> {
    command + " failed: "@ + trim_spec(utf8_lossy(stderr))
}

/// The outcome of a command: success, or the message that names the
/// command and quotes its error output.
pub fn command_outcome(command: &str, success: bool, stderr: &[u8]) -> (r: Result<(), String>)
    ensures
        success ==> r is Ok,
        !success ==> (r matches Err(m) && m@ == failure_message_spec(command@, stderr@)),
{
    if success {
        return Ok(());
    }
    let text = decode_lossy(stderr);
    let trimmed = trim(text.as_str());
    let mut message = String::from_str(command);
    message.append(" failed: ");
    message.append(trimmed);
    Err(message)
}

} // verus!
