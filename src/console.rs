use vstd::prelude::*;

verus! {

/// A line as typed, without the line ending that reading it left: `\r\n` or
/// `\n` at its end is dropped.
pub open spec fn without_line_ending(s: Seq<char>) -> Seq<char> {
    if s.len() >= 2 && s[s.len() - 2] == '\r' && s[s.len() - 1] == '\n' {
        s.subrange(0, s.len() - 2)
    } else if s.len() >= 1 && s[s.len() - 1] == '\n' {
        s.subrange(0, s.len() - 1)
    } else {
        s
    }
}

/// The console that command lines are read from, driven by ECMA-48 control
/// sequences.
pub struct Ecma48CommandInterface {}

impl Ecma48CommandInterface {
    pub fn new() -> Ecma48CommandInterface {
        Ecma48CommandInterface {}
    }

    /// The command line in a line read from the console.
    pub fn command_from_line(&self, line: &str) -> (r: String)
        ensures
            r@ == without_line_ending(line@),
    {
        let n = line.unicode_len();
        if n >= 2 && line.get_char(n - 2) == '\r' && line.get_char(n - 1) == '\n' {
            String::from_str(line.substring_char(0, n - 2))
        } else if n >= 1 && line.get_char(n - 1) == '\n' {
            String::from_str(line.substring_char(0, n - 1))
        } else {
            String::from_str(line)
        }
    }
}

/// The text shown when the current directory cannot be read.
pub open spec fn unavailable_directory() -> Seq<char> {
    "<Directory unavailable>"@
}

/// The prompt's context: the identity in green, then the directory in blue.
pub open spec fn context_text(identity: Seq<char>, directory: Seq<char>) -> Seq<char> {
    "\x1B[32m"@ + identity + "\x1B[0m \x1B[34m"@ + directory + "\x1B[0m"@
}

/// Makes the context text shown before the prompt.
pub struct DefaultContextGenerator {}

pub fn new() -> DefaultContextGenerator {
    DefaultContextGenerator {}
}

impl DefaultContextGenerator {
    /// The directory part: the directory, or a notice when it is unknown.
    pub fn current_dir_fragment(&self, directory: Option<&str>) -> (r: String)
        ensures
            r@ == match directory {
                Some(d) => d@,
                None => unavailable_directory(),
            },
    {
        match directory {
            Some(d) => String::from_str(d),
            None => String::from_str("<Directory unavailable>"),
        }
    }

    /// The identity part: `user@device`.
    pub fn identity_fragment(&self, user: &str, device: &str) -> (r: String)
        ensures
            r@ == user@ + "@"@ + device@,
    {
        String::from_str(user).concat("@").concat(device)
    }

    /// The whole context text.
    pub fn context_text(&self, identity: &str, directory: &str) -> (r: String)
        ensures
            r@ == context_text(identity@, directory@),
    {
        String::from_str("\x1B[32m").concat(identity).concat("\x1B[0m \x1B[34m").concat(
            directory,
        ).concat("\x1B[0m")
    }
}

} // verus!
