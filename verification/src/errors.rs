//! Error taxonomy of the transfer engine, and the bounded-depth rendering
//! of an error's cause chain.

use vstd::prelude::*;
use vstd::string::StringExecFns;

verus! {

/// A payload that does not exactly fill the window addressed by its block
/// index: wrong length, or an index beyond the file's declared length.
#[derive(Debug, PartialEq, Eq)]
pub struct SizeMismatchError {
    pub index: usize,
}

/// Why a download aborted.
#[derive(Debug, PartialEq, Eq)]
pub enum DownloadError {
    /// The snapshot identifier did not resolve.
    NotFound,
    /// An RPC failed even after its bounded retries; the messages of the
    /// underlying causes, outermost first.
    Transport { causes: Vec<String> },
    /// A fetched payload's digest did not match its attested checksum.
    Integrity { index: usize },
    /// A fetched payload did not exactly fill the window its index
    /// addresses.
    SizeMismatch { index: usize },
    /// A local file operation failed; carries its message.
    Io { message: String },
}

/// Why an upload aborted.
#[derive(Debug, PartialEq, Eq)]
pub enum UploadError {
    /// An RPC failed even after its bounded retries; the messages of the
    /// underlying causes, outermost first.
    Transport { causes: Vec<String> },
    /// The remote side recomputed a block's digest and rejected the
    /// submitted checksum.
    Integrity { index: usize },
    /// Completing the snapshot failed after every block was accepted.
    /// Carries the already-registered snapshot's identifier — partial
    /// state is surfaced, never hidden, so the caller may inspect or
    /// delete the incomplete snapshot — and the failure's causes.
    CompleteFailed { snapshot_id: String, causes: Vec<String> },
    /// A local file operation failed; carries its message.
    Io { message: String },
}

/// How a wait ended short of completion.
#[derive(Debug, PartialEq, Eq)]
pub enum WaitError {
    /// The attempt budget was exhausted before a terminal status was seen.
    Timeout,
    /// The resource reached the terminal `error` status; carries the
    /// remote-reported reason.
    RemoteError { reason: String },
    /// A status read kept failing even after its bounded retries; carries
    /// the last read failure's message.
    PollFailed { message: String },
}

/// The first `count` messages of a cause chain joined with `": "`:
/// the outermost message, then one nested cause per further level.
pub open spec fn spec_joined_causes(messages: Seq<Seq<char>>, count: nat) -> Seq<char>
    recommends
        1 <= count <= messages.len(),
    decreases count,
{
    if count <= 1 {
        messages[0]
    } else {
        spec_joined_causes(messages, (count - 1) as nat) + seq![':', ' '] + messages[count - 1]
    }
}

/// What rendering a cause chain of `messages` with at most `n` nested
/// levels yields: the outermost message followed by up to `n` causes,
/// stopping at the first missing level.
pub open spec fn spec_error_stack(messages: Seq<Seq<char>>, n: nat) -> Seq<char> {
    if messages.len() == 0 {
        Seq::empty()
    } else if n + 1 <= messages.len() {
        spec_joined_causes(messages, n + 1)
    } else {
        spec_joined_causes(messages, messages.len())
    }
}

/// Render an error and up to `n` levels of its underlying causes, given as
/// the chain of their messages, outermost first, joined with `": "`.
///
/// Remote-client errors often swallow relevant information when only their
/// outermost message is printed; appending a bounded number of nested
/// causes lets an operator tell a throttled request from a corrupted block
/// without the full internal error representation.
pub fn error_stack(messages: &Vec<String>, n: u16) -> (r: String)
    ensures
        r@ == spec_error_stack(messages@.map_values(|m: String| m@), n as nat),
{
    let ghost msgs = messages@.map_values(|m: String| m@);
    let mut s = String::new();
    if messages.len() == 0 {
        return s;
    }
    s.append(messages[0].as_str());
    let mut i: usize = 1;
    while i < messages.len() && i <= n as usize
        invariant
            1 <= i <= messages@.len(),
            i <= n + 1,
            msgs == messages@.map_values(|m: String| m@),
            s@ == spec_joined_causes(msgs, i as nat),
        decreases messages@.len() - i,
    {
        proof {
            reveal_strlit(": ");
            assert(": "@ =~= seq![':', ' ']);
        }
        s.append(": ");
        s.append(messages[i].as_str());
        i += 1;
    }
    s
}

} // verus!
