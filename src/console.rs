use vstd::prelude::*;
use std::collections::VecDeque;

verus! {

/// Unicode's White_Space characters, the ones `char::is_whitespace` accepts.
pub open spec fn is_white(c: char) -> bool {
    ('\u{9}' <= c && c <= '\u{d}') || c == ' ' || c == '\u{85}' || c == '\u{a0}' || c == '\u{1680}'
        || ('\u{2000}' <= c && c <= '\u{200a}') || c == '\u{2028}' || c == '\u{2029}' || c
        == '\u{202f}' || c == '\u{205f}' || c == '\u{3000}'
}

/// `s` without its leading white space.
pub open spec fn trim_start(s: Seq<char>) -> Seq<char>
    decreases s.len(),
{
    if s.len() > 0 && is_white(s[0]) {
        trim_start(s.skip(1))
    } else {
        s
    }
}

/// `s` without its trailing white space.
pub open spec fn trim_end(s: Seq<char>) -> Seq<char>
    decreases s.len(),
{
    if s.len() > 0 && is_white(s.last()) {
        trim_end(s.drop_last())
    } else {
        s
    }
}

/// `s` without white space at either end.
pub open spec fn trimmed(s: Seq<char>) -> Seq<char> {
    trim_end(trim_start(s))
}

fn white(c: char) -> (r: bool)
    ensures
        r == is_white(c),
{
    ('\u{9}' <= c && c <= '\u{d}') || c == ' ' || c == '\u{85}' || c == '\u{a0}' || c == '\u{1680}'
        || ('\u{2000}' <= c && c <= '\u{200a}') || c == '\u{2028}' || c == '\u{2029}' || c
        == '\u{202f}' || c == '\u{205f}' || c == '\u{3000}'
}

/// `s` without white space at either end.
pub fn trim(s: &str) -> (r: &str)
    ensures
        r@ == trimmed(s@),
{
    let n = s.unicode_len();
    let mut i: usize = 0;
    assert(s@.skip(0) =~= s@);
    while i < n && white(s.get_char(i))
        invariant
            i <= n,
            n == s@.len(),
            trim_start(s@) == trim_start(s@.skip(i as int)),
        decreases n - i,
    {
        proof {
            let t = s@.skip(i as int);
            assert(t[0] == s@[i as int]);
            assert(t.skip(1) =~= s@.skip(i + 1));
        }
        i = i + 1;
    }
    let ghost st = s@.skip(i as int);
    assert(trim_start(st) == st);
    let mut j: usize = n;
    while j > i && white(s.get_char(j - 1))
        invariant
            i <= j <= n,
            n == s@.len(),
            st == s@.skip(i as int),
            trim_end(st) == trim_end(s@.subrange(i as int, j as int)),
        decreases j,
    {
        proof {
            let t = s@.subrange(i as int, j as int);
            assert(t.last() == s@[j - 1]);
            assert(t.drop_last() =~= s@.subrange(i as int, j - 1));
        }
        j = j - 1;
    }
    proof {
        assert(st =~= s@.subrange(i as int, n as int));
    }
    let r = s.substring_char(i, j);
    r
}

/// Whether `s` and `t` hold the same characters.
fn same_text(s: &str, t: &str) -> (r: bool)
    ensures
        r == (s@ == t@),
{
    if s.unicode_len() != t.unicode_len() {
        return false;
    }
    let r = crate::route::matches_at(s, 0, t);
    proof {
        if r {
            assert(s@ =~= s@.subrange(0, t@.len() as int));
        }
        if s@ == t@ {
            assert(s@.subrange(0, t@.len() as int) =~= t@);
        }
    }
    r
}

/// Whether `s` starts with `t`.
fn starts_with(s: &str, t: &str) -> (r: bool)
    ensures
        r == t@.is_prefix_of(s@),
{
    let r = crate::route::matches_at(s, 0, t);
    proof {
        if t@.is_prefix_of(s@) {
            assert(s@.subrange(0, t@.len() as int) =~= t@);
        }
        if r {
            assert forall|k: int| 0 <= k < t@.len() implies t@[k] == s@[k] by {
                assert(s@.subrange(0, t@.len() as int)[k] == s@[k]);
            }
        }
    }
    r
}

/// An operator console command.
#[derive(PartialEq, Eq, Debug)]
pub enum ConsoleCommand {
    /// Show the help text.
    Help,
    /// Open the client in a browser.
    Open,
    /// Show the served root.
    ShowPath,
    /// Show the index document.
    ShowIndex,
    /// Clear the screen.
    Clear,
    /// Show the server's address.
    Url,
    /// Stop the server.
    Quit,
    /// Serve another root.
    SetPath(String),
    /// Make another document the index.
    SetIndex(String),
    /// Not a command.
    Unknown,
}

/// Why a `set` command was refused.
#[derive(PartialEq, Eq, Structural, Clone, Copy, Debug)]
pub enum CommandError {
    /// `set` was followed by neither `path` nor `index`.
    MissingTarget,
    /// The path after the command was empty.
    EmptyPath,
}

/// A console command, with its paths as character sequences.
pub enum CommandView {
    Help,
    Open,
    ShowPath,
    ShowIndex,
    Clear,
    Url,
    Quit,
    SetPath(Seq<char>),
    SetIndex(Seq<char>),
    Unknown,
}

impl View for ConsoleCommand {
    type V = CommandView;

    open spec fn view(&self) -> CommandView {
        match self {
            ConsoleCommand::Help => CommandView::Help,
            ConsoleCommand::Open => CommandView::Open,
            ConsoleCommand::ShowPath => CommandView::ShowPath,
            ConsoleCommand::ShowIndex => CommandView::ShowIndex,
            ConsoleCommand::Clear => CommandView::Clear,
            ConsoleCommand::Url => CommandView::Url,
            ConsoleCommand::Quit => CommandView::Quit,
            ConsoleCommand::SetPath(p) => CommandView::SetPath(p@),
            ConsoleCommand::SetIndex(p) => CommandView::SetIndex(p@),
            ConsoleCommand::Unknown => CommandView::Unknown,
        }
    }
}

/// A `set` command for the path `p`, refused when it is empty once trimmed.
pub open spec fn set_target(is_path: bool, p: Seq<char>) -> Result<CommandView, CommandError> {
    let t = trimmed(p);
    if t.len() == 0 {
        Err(CommandError::EmptyPath)
    } else if is_path {
        Ok(CommandView::SetPath(t))
    } else {
        Ok(CommandView::SetIndex(t))
    }
}

/// The command a console line stands for: a word of the console, its first
/// letter alone, `set path P` / `set index P`, or their short forms `sp P` /
/// `si P`.
pub open spec fn command_of(s: Seq<char>) -> Result<CommandView, CommandError> {
    if s == "help"@ || s == "h"@ {
        Ok(CommandView::Help)
    } else if s == "open"@ || s == "o"@ {
        Ok(CommandView::Open)
    } else if s == "path"@ || s == "p"@ {
        Ok(CommandView::ShowPath)
    } else if s == "index"@ || s == "i"@ {
        Ok(CommandView::ShowIndex)
    } else if s == "clear"@ || s == "c"@ {
        Ok(CommandView::Clear)
    } else if s == "url"@ || s == "u"@ {
        Ok(CommandView::Url)
    } else if s == "quit"@ || s == "q"@ {
        Ok(CommandView::Quit)
    } else if "set"@.is_prefix_of(s) {
        let rest = trimmed(s.skip(3));
        if "path"@.is_prefix_of(rest) {
            set_target(true, rest.skip(4))
        } else if "index"@.is_prefix_of(rest) {
            set_target(false, rest.skip(5))
        } else {
            Err(CommandError::MissingTarget)
        }
    } else if "sp"@.is_prefix_of(s) {
        set_target(true, s.skip(2))
    } else if "si"@.is_prefix_of(s) {
        set_target(false, s.skip(2))
    } else {
        Ok(CommandView::Unknown)
    }
}

fn parse_target(is_path: bool, p: &str) -> (r: Result<ConsoleCommand, CommandError>)
    ensures
        match r {
            Ok(c) => set_target(is_path, p@) == Ok::<CommandView, CommandError>(c@),
            Err(e) => set_target(is_path, p@) == Err::<CommandView, CommandError>(e),
        },
{
    let t = trim(p);
    if t.unicode_len() == 0 {
        Err(CommandError::EmptyPath)
    } else if is_path {
        Ok(ConsoleCommand::SetPath(String::from_str(t)))
    } else {
        Ok(ConsoleCommand::SetIndex(String::from_str(t)))
    }
}

/// Parses one console line, already trimmed.
pub fn parse_command(s: &str) -> (r: Result<ConsoleCommand, CommandError>)
    ensures
        match r {
            Ok(c) => command_of(s@) == Ok::<CommandView, CommandError>(c@),
            Err(e) => command_of(s@) == Err::<CommandView, CommandError>(e),
        },
{
    proof {
        reveal_strlit("set");
        reveal_strlit("path");
        reveal_strlit("index");
        reveal_strlit("sp");
        reveal_strlit("si");
    }
    if same_text(s, "help") || same_text(s, "h") {
        Ok(ConsoleCommand::Help)
    } else if same_text(s, "open") || same_text(s, "o") {
        Ok(ConsoleCommand::Open)
    } else if same_text(s, "path") || same_text(s, "p") {
        Ok(ConsoleCommand::ShowPath)
    } else if same_text(s, "index") || same_text(s, "i") {
        Ok(ConsoleCommand::ShowIndex)
    } else if same_text(s, "clear") || same_text(s, "c") {
        Ok(ConsoleCommand::Clear)
    } else if same_text(s, "url") || same_text(s, "u") {
        Ok(ConsoleCommand::Url)
    } else if same_text(s, "quit") || same_text(s, "q") {
        Ok(ConsoleCommand::Quit)
    } else if starts_with(s, "set") {
        let n = s.unicode_len();
        let tail = s.substring_char(3, n);
        assert(tail@ =~= s@.skip(3));
        let rest = trim(tail);
        let m = rest.unicode_len();
        if starts_with(rest, "path") {
            let p = rest.substring_char(4, m);
            assert(p@ =~= rest@.skip(4));
            parse_target(true, p)
        } else if starts_with(rest, "index") {
            let p = rest.substring_char(5, m);
            assert(p@ =~= rest@.skip(5));
            parse_target(false, p)
        } else {
            Err(CommandError::MissingTarget)
        }
    } else if starts_with(s, "sp") || starts_with(s, "si") {
        let n = s.unicode_len();
        let p = s.substring_char(2, n);
        assert(p@ =~= s@.skip(2));
        parse_target(starts_with(s, "sp"), p)
    } else {
        Ok(ConsoleCommand::Unknown)
    }
}

/// How the console reads its input.
#[derive(Debug, Default)]
pub enum State {
    #[default]
    Normal,
    Scrolling,
}

/// The lines a history keeps after `line` was added to `s` when it may hold
/// fewer than `max`: the newest `max - 1` of them.
pub open spec fn kept(s: Seq<Seq<char>>, max: nat) -> Seq<Seq<char>> {
    if s.len() >= max {
        s.skip(s.len() - max + 1)
    } else {
        s
    }
}

/// A bounded history of console lines, oldest first.
#[derive(Debug, Default)]
pub struct Memory {
    mem: VecDeque<String>,
    max: usize,
}

impl Memory {
    /// The lines held, oldest first.
    pub closed spec fn lines_view(&self) -> Seq<Seq<char>> {
        self.mem@.map_values(|l: String| l@)
    }

    /// The bound on the number of lines.
    pub closed spec fn max_view(&self) -> nat {
        self.max as nat
    }

    /// An empty history bounded by `max`.
    pub fn new(max: usize) -> (r: Memory)
        ensures
            r.lines_view().len() == 0,
            r.max_view() == max,
    {
        Memory { mem: VecDeque::new(), max }
    }

    /// Adds `line` as the newest line, then drops the oldest lines until
    /// fewer than the bound are left.
    pub fn store(&mut self, line: String)
        requires
            old(self).max_view() > 0,
        ensures
            final(self).max_view() == old(self).max_view(),
            final(self).lines_view() == kept(old(self).lines_view().push(line@), old(self).max_view()),
    {
        let ghost full = self.mem@.push(line);
        let ghost line_view = line@;
        self.mem.push_back(line);
        let ghost mut dropped: int = 0;
        while self.mem.len() >= self.max
            invariant
                self.max == old(self).max,
                self.max > 0,
                0 <= dropped <= full.len(),
                self.mem@ == full.skip(dropped),
                full.len() < self.max ==> dropped == 0,
                full.len() >= self.max ==> self.mem@.len() >= self.max - 1,
            decreases self.mem@.len(),
        {
            let _ = self.mem.pop_front();
            proof {
                assert(full.skip(dropped).subrange(1, full.skip(dropped).len() as int) =~= full.skip(dropped + 1));
                dropped = dropped + 1;
            }
        }
        proof {
            let fv = full.map_values(|l: String| l@);
            assert(fv =~= old(self).lines_view().push(line_view));
            if full.len() >= self.max {
                assert(dropped == full.len() - self.max + 1);
                assert(self.mem@.map_values(|l: String| l@) =~= fv.skip(dropped));
            } else {
                assert(full.skip(0) =~= full);
                assert(self.mem@.map_values(|l: String| l@) =~= fv);
            }
        }
    }

    /// The lines held, oldest first.
    pub fn lines(&self) -> (r: Vec<String>)
        ensures
            r@.map_values(|l: String| l@) == self.lines_view(),
    {
        let mut out: Vec<String> = Vec::new();
        let mut i: usize = 0;
        while i < self.mem.len()
            invariant
                i <= self.mem@.len(),
                out@.len() == i,
                forall|j: int| 0 <= j < i ==> out@[j]@ == self.mem@[j]@,
            decreases self.mem@.len() - i,
        {
            out.push(self.mem[i].clone());
            i = i + 1;
        }
        assert(out@.map_values(|l: String| l@) =~= self.lines_view());
        out
    }
}

} // verus!
