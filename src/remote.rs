use vstd::prelude::*;
use vstd::string::StringExecFns;
use crate::translate::{Command, CommandView};

verus! {

/// The decimal digit `d` as text.
pub open spec fn digit_text(d: nat) -> Seq<char> {
    if d == 0 {
        "0"@
    } else if d == 1 {
        "1"@
    } else if d == 2 {
        "2"@
    } else if d == 3 {
        "3"@
    } else if d == 4 {
        "4"@
    } else if d == 5 {
        "5"@
    } else if d == 6 {
        "6"@
    } else if d == 7 {
        "7"@
    } else if d == 8 {
        "8"@
    } else {
        "9"@
    }
}

/// `n` written in decimal, without leading zeros.
pub open spec fn decimal(n: nat) -> Seq<char>
    decreases n,
{
    if n < 10 {
        digit_text(n)
    } else {
        decimal(n / 10) + digit_text(n % 10)
    }
}

fn digit_str(d: u64) -> (r: &'static str)
    requires
        d < 10,
    ensures
        r@ == digit_text(d as nat),
{
    if d == 0 {
        "0"
    } else if d == 1 {
        "1"
    } else if d == 2 {
        "2"
    } else if d == 3 {
        "3"
    } else if d == 4 {
        "4"
    } else if d == 5 {
        "5"
    } else if d == 6 {
        "6"
    } else if d == 7 {
        "7"
    } else if d == 8 {
        "8"
    } else {
        "9"
    }
}

/// Writes `n` in decimal.
pub fn decimal_string(n: u64) -> (r: String)
    ensures
        r@ == decimal(n as nat),
    decreases n,
{
    if n < 10 {
        String::from_str(digit_str(n))
    } else {
        let mut s = decimal_string(n / 10);
        s.append(digit_str(n % 10));
        s
    }
}

/// The ex command that opens a split on `path`, with `cwd` as the split's
/// directory, and deletes the buffer once it is hidden.
pub open spec fn open_file_text(cwd: Seq<char>, path: Seq<char>) -> Seq<char> {
    "split | lcd "@ + cwd + " | edit "@ + path + " | setlocal bufhidden=delete"@
}

/// The ex command that a command sends, with `cwd` as the directory of new splits.
pub open spec fn command_text(c: CommandView, cwd: Seq<char>) -> Seq<char> {
    match c {
        CommandView::OpenScratch => "split | enew | setlocal bufhidden=delete"@,
        CommandView::OpenFile(path) => open_file_text(cwd, path),
        CommandView::GotoCommand(expr) => expr,
        CommandView::LoadErrorFile(path) => "split | cfile "@ + path,
    }
}

/// The ex command that installs, in the group `nvr`, an autocommand on the
/// current buffer which notifies channel `channel` with the buffer's number
/// when the buffer is deleted.
pub open spec fn close_hook_text(channel: u64) -> Seq<char> {
    "augroup nvr | autocmd BufDelete <buffer> silent! call rpcnotify("@ + decimal(channel as nat)
        + ", \"BufDelete\", bufnr()) | augroup END"@
}

impl Command {
    /// Whether the buffer this command opens must close before the wait ends.
    pub fn awaits_close(&self) -> (r: bool)
        ensures
            r == self@.awaits_close(),
    {
        match self {
            Command::OpenScratch => true,
            Command::OpenFile(_) => true,
            Command::GotoCommand(_) => false,
            Command::LoadErrorFile(_) => false,
        }
    }

    /// The ex command to send for this command, with `cwd` as the directory of
    /// new splits.
    pub fn remote_text(&self, cwd: &str) -> (r: String)
        ensures
            r@ == command_text(self@, cwd@),
    {
        match self {
            Command::OpenScratch => String::from_str("split | enew | setlocal bufhidden=delete"),
            Command::OpenFile(path) => {
                let mut s = String::from_str("split | lcd ");
                s.append(cwd);
                s.append(" | edit ");
                s.append(path.as_str());
                s.append(" | setlocal bufhidden=delete");
                s
            },
            Command::GotoCommand(expr) => String::from_str(expr.as_str()),
            Command::LoadErrorFile(path) => {
                let s = String::from_str("split | cfile ");
                s.concat(path.as_str())
            },
        }
    }
}

/// The ex command that installs the close hook for the current buffer,
/// addressed to channel `channel`.
pub fn close_hook(channel: u64) -> (r: String)
    ensures
        r@ == close_hook_text(channel),
{
    let mut s = String::from_str("augroup nvr | autocmd BufDelete <buffer> silent! call rpcnotify(");
    let id = decimal_string(channel);
    s.append(id.as_str());
    s.append(", \"BufDelete\", bufnr()) | augroup END");
    s
}

} // verus!
