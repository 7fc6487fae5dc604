//! Deciding what the user's inputs are: files to read or commands to run.
use vstd::prelude::*;
use crate::session::SessionType;
use crate::split::{split_spec, split_str};

verus! {

/// An input that runs a command and reads what it prints.
pub struct CommandInput {}

impl CommandInput {
    /// The program and arguments of a command line: the pieces between single
    /// spaces.
    pub fn parse_command(command: &str) -> (r: Vec<String>)
        ensures
            r@.map_values(|s: String| s@) == split_spec(command@, seq![' ']),
    {
        let sep = " ";
        proof {
            reveal_strlit(" ");
            assert(sep@ =~= seq![' ']);
        }
        split_str(command, sep)
    }

}

/// An input that reads a file.
pub struct FileInput {}

/// The kind of one input: an existing path that cannot be executed is a
/// file, anything else a command.
pub open spec fn input_kind(exists: bool, executable: bool) -> SessionType {
    if exists && !executable { SessionType::File } else { SessionType::Command }
}

/// An input is read as a file exactly when its path exists and cannot be
/// executed; an executable path, or one that does not exist, is run as a
/// command. No input is mixed.
pub proof fn law_existing_plain_path_is_a_file(exists: bool, executable: bool)
    ensures
        input_kind(exists, executable) == SessionType::File <==> (exists && !executable),
        input_kind(exists, executable) == SessionType::Command <==> (executable || !exists),
        input_kind(exists, executable) != SessionType::Mixed,
{
}

/// The kind of one input, from whether its path exists and can be executed.
pub fn determine_stream_type(exists: bool, executable: bool) -> (r: SessionType)
    ensures
        r == input_kind(exists, executable),
        exists && !executable ==> r == SessionType::File,
        exists && executable ==> r == SessionType::Command,
        !exists ==> r == SessionType::Command,
{
    if exists {
        if executable {
            SessionType::Command
        } else {
            SessionType::File
        }
    } else {
        SessionType::Command
    }
}

/// The kind of a session whose inputs have the given kinds: theirs when
/// they all share one, else mixed.
pub open spec fn session_kind(kinds: Seq<SessionType>) -> SessionType {
    if kinds.len() > 0 && forall|i: int| 0 <= i < kinds.len() ==> #[trigger] kinds[i] == kinds[0] {
        kinds[0]
    } else {
        SessionType::Mixed
    }
}

/// The kind of a session whose inputs have the given kinds.
pub fn session_type_of(kinds: &Vec<SessionType>) -> (r: SessionType)
    ensures
        r == session_kind(kinds@),
{
    if kinds.len() == 0 {
        return SessionType::Mixed;
    }
    let first = kinds[0];
    let mut i: usize = 1;
    while i < kinds.len()
        invariant
            1 <= i <= kinds@.len(),
            first == kinds@[0],
            forall|k: int| 0 <= k < i ==> #[trigger] kinds@[k] == first,
        decreases kinds@.len() - i,
    {
        if kinds[i] != first {
            return SessionType::Mixed;
        }
        i = i + 1;
    }
    first
}

} // verus!
