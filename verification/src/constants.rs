//! Fixed text and characters of the interface.
use vstd::prelude::*;

verus! {

/// Resets the terminal color.
pub const RESET_COLOR: &'static str = "\x1b[0m";
/// Color of highlighted matches.
pub const HIGHLIGHT_COLOR: &'static str = "\x1b[35m";

/// Command line marker in normal and startup mode.
pub const NORMAL_STR: &'static str = "│";
/// Command line marker in command mode.
pub const COMMAND_STR: &'static str = ":";
/// Command line marker in regex mode.
pub const REGEX_STR: &'static str = "/";
/// Command line marker in highlight mode.
pub const HIGHLIGHT_STR: &'static str = "?";
/// Command line marker in parser mode.
pub const PARSER_STR: &'static str = "+";

/// Key that enters command mode.
pub const COMMAND_CHAR: char = ':';
/// Key that enters regex mode.
pub const REGEX_CHAR: char = '/';
/// Key that enters highlight mode.
pub const HIGHLIGHT_CHAR: char = '?';
/// Key that toggles highlighting of matches.
pub const TOGGLE_HIGHLIGHT_CHAR: char = 'h';
/// Key that activates the parser.
pub const PARSER_CHAR: char = 'p';
/// Key that swaps stdout and stderr.
pub const SWAP_CHAR: char = 's';
/// Key that toggles aggregation mode.
pub const AGGREGATE_CHAR: char = 'a';
/// Key that deactivates the parser.
pub const EXIT_PARSER_CHAR: char = 'z';

/// Shown when the current buffer is empty.
pub const NO_MESSAGE_IN_BUFFER_NORMAL: &'static str = "No messages in current buffer; press s to swap buffers.";
/// Shown when the parser matched nothing.
pub const NO_MESSAGE_IN_BUFFER_PARSER: &'static str = "No messages match current parser rules. Press z to exit parsing mode.";

/// Number of lines of the startup message.
pub const START_MESSAGE_LEN: usize = 6;

/// The `i`-th line of the startup message.
pub open spec fn start_message_line(i: int) -> Seq<char> {
    if i == 0 {
        "Enter a new command to open and save a new stream,"@
    } else if i == 1 {
        "or enter a number to choose a saved session from the list."@
    } else if i == 2 {
        " "@
    } else if i == 3 {
        "Enter `:r #` to remove session #."@
    } else if i == 4 {
        "Enter `:q` to quit."@
    } else {
        " "@
    }
}

/// The startup message, line by line.
pub fn start_message() -> (r: Vec<String>)
    ensures
        r@.len() == START_MESSAGE_LEN,
        forall|i: int| 0 <= i < START_MESSAGE_LEN ==> #[trigger] r@[i]@ == start_message_line(i),
{
    let mut v: Vec<String> = Vec::new();
    v.push("Enter a new command to open and save a new stream,".to_owned());
    v.push("or enter a number to choose a saved session from the list.".to_owned());
    v.push(" ".to_owned());
    v.push("Enter `:r #` to remove session #.".to_owned());
    v.push("Enter `:q` to quit.".to_owned());
    v.push(" ".to_owned());
    v
}

} // verus!
