use vstd::prelude::*;

use crate::text::same_text;

verus! {

/// What one command-line argument asks for.
#[derive(PartialEq, Eq, Structural, Clone, Copy, Debug)]
pub enum Request {
    /// `-h` or `--help`: print usage and stop.
    Help,
    /// `-v` or `--version`: print the version and stop.
    Version,
    /// Anything else names a file or directory to rewrite.
    Path,
}

pub open spec fn request_spec(arg: Seq<char>) -> Request {
    if arg == seq!['-', 'h'] || arg == seq!['-', '-', 'h', 'e', 'l', 'p'] {
        Request::Help
    } else if arg == seq!['-', 'v'] || arg == seq!['-', '-', 'v', 'e', 'r', 's', 'i', 'o', 'n'] {
        Request::Version
    } else {
        Request::Path
    }
}

/// Reads one command-line argument.
pub fn request_of(arg: &str) -> (r: Request)
    ensures
        r == request_spec(arg@),
{
    proof {
        reveal_strlit("-h");
        reveal_strlit("--help");
        reveal_strlit("-v");
        reveal_strlit("--version");
        assert("-h"@ =~= seq!['-', 'h']);
        assert("--help"@ =~= seq!['-', '-', 'h', 'e', 'l', 'p']);
        assert("-v"@ =~= seq!['-', 'v']);
        assert("--version"@ =~= seq!['-', '-', 'v', 'e', 'r', 's', 'i', 'o', 'n']);
    }
    if same_text(arg, "-h") || same_text(arg, "--help") {
        Request::Help
    } else if same_text(arg, "-v") || same_text(arg, "--version") {
        Request::Version
    } else {
        Request::Path
    }
}

/// Whether a file with this extension (without the dot) is rewritten:
/// only `lua` and `luau` are.
pub fn is_source_extension(extension: &str) -> (r: bool)
    ensures
        r == (extension@ == seq!['l', 'u', 'a'] || extension@ == seq!['l', 'u', 'a', 'u']),
{
    proof {
        reveal_strlit("lua");
        reveal_strlit("luau");
        assert("lua"@ =~= seq!['l', 'u', 'a']);
        assert("luau"@ =~= seq!['l', 'u', 'a', 'u']);
    }
    same_text(extension, "lua") || same_text(extension, "luau")
}

} // verus!
