//! What the monitor makes of the container runtime's answers.

use crate::text::{lines_of, split_lines, text_from_utf8, text_views, trim, trimmed};
use vstd::prelude::*;
use vstd::string::StringExecFns;
use vstd::utf8::{decode_utf8, valid_utf8};

verus! {

/// The container names among `lines`: each line without the white space
/// around it, but for the lines that are empty then.
pub open spec fn names_in_lines(lines: Seq<Seq<char>>) -> Seq<Seq<char>>
    decreases lines.len(),
{
    if lines.len() == 0 {
        Seq::empty()
    } else {
        let earlier = names_in_lines(lines.drop_last());
        let name = trimmed(lines.last());
        if name.len() > 0 {
            earlier.push(name)
        } else {
            earlier
        }
    }
}

/// The container names that the runtime's listing `output` holds, one to a
/// line.
pub open spec fn names_in(output: Seq<char>) -> Seq<Seq<char>> {
    names_in_lines(lines_of(output))
}

/// Why the runtime's answer names no running containers.
#[derive(Debug, PartialEq, Eq, Structural, Clone, Copy)]
pub enum PodmanError {
    /// The listing command ended with a failure status.
    CommandFailed,
    /// What the listing command printed is not valid UTF-8.
    InvalidUtf8,
}

/// Reads the answers of `podman`.
pub struct PodmanClient;

impl PodmanClient {
    /// The container names in the listing `output`: its lines, trimmed, but
    /// for the empty ones.
    pub fn container_names(output: &str) -> (names: Vec<String>)
        ensures
            text_views(names@) == names_in(output@),
    {
        let lines = split_lines(output);
        let ghost all = text_views(lines@);
        let mut names: Vec<String> = Vec::new();
        let mut i: usize = 0;
        while i < lines.len()
            invariant
                i <= lines.len(),
                all == text_views(lines@),
                text_views(names@) =~= names_in_lines(all.take(i as int)),
            decreases lines.len() - i,
        {
            proof {
                assert(all.take(i + 1).drop_last() =~= all.take(i as int));
                assert(all.take(i + 1).last() == lines[i as int]@);
            }
            let name = trim(lines[i].as_str());
            if !name.is_empty() {
                names.push(String::from_str(name));
            }
            i = i + 1;
        }
        proof {
            assert(all.take(lines.len() as int) =~= all);
        }
        names
    }

    /// The running containers that the listing command reported, given
    /// whether it `succeeded` and what it printed to `stdout`. A command
    /// that failed names none, whatever it printed; nor does output that is
    /// not valid UTF-8.
    pub fn get_running_containers(succeeded: bool, stdout: Vec<u8>) -> (result: Result<
        Vec<String>,
        PodmanError,
    >)
        ensures
            match result {
                Ok(names) => succeeded && valid_utf8(stdout@) && text_views(names@) == names_in(
                    decode_utf8(stdout@),
                ),
                Err(PodmanError::CommandFailed) => !succeeded,
                Err(PodmanError::InvalidUtf8) => succeeded && !valid_utf8(stdout@),
            },
    {
        if !succeeded {
            return Err(PodmanError::CommandFailed);
        }
        match text_from_utf8(stdout) {
            Some(output) => Ok(Self::container_names(output.as_str())),
            None => Err(PodmanError::InvalidUtf8),
        }
    }
}

} // verus!
