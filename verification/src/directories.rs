//! Where the viewer keeps its files, below the user's configuration
//! directory.
use vstd::prelude::*;
use crate::text::push_str;

verus! {

/// The application's directory name, unless the user sets another.
pub const NAME: &'static str = "Logria";

/// `home` and `name` joined by one slash: none is added when `home` already
/// ends in one.
pub open spec fn joined(home: Seq<char>, name: Seq<char>) -> Seq<char> {
    if home.len() > 0 && home.last() == '/' {
        home + name
    } else {
        home + seq!['/'] + name
    }
}

/// The root of the saved data: `home`, then `root_name`, with one slash
/// between them.
pub fn app_root(home: &str, root_name: &str) -> (r: String)
    ensures
        r@ == joined(home@, root_name@),
{
    let chars = crate::text::str_chars(home);
    let mut root = home.to_owned();
    if !(chars.len() > 0 && chars[chars.len() - 1] == '/') {
        crate::text::push_char(&mut root, '/');
    }
    push_str(&mut root, root_name);
    root
}

/// `root` followed by `suffix`.
fn below(root: &str, suffix: &str) -> (r: String)
    ensures
        r@ == root@ + suffix@,
{
    let mut path = root.to_owned();
    push_str(&mut path, suffix);
    path
}

/// Where parsers are saved.
pub fn patterns(app_root: &str) -> (r: String)
    ensures
        r@ == app_root@ + "/patterns"@,
{
    below(app_root, "/patterns")
}

/// Where sessions are saved.
pub fn sessions(app_root: &str) -> (r: String)
    ensures
        r@ == app_root@ + "/sessions"@,
{
    below(app_root, "/sessions")
}

/// Where the history is kept.
pub fn history(app_root: &str) -> (r: String)
    ensures
        r@ == app_root@ + "/history"@,
{
    below(app_root, "/history")
}

/// The file of the history tape.
pub fn history_tape(app_root: &str) -> (r: String)
    ensures
        r@ == app_root@ + "/history/tape"@,
{
    below(app_root, "/history/tape")
}

} // verus!
