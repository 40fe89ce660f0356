use vstd::prelude::*;
use crate::text::{to_chars, string_of, str_eq};

verus! {

/// An editor command.
#[derive(Debug, Clone, PartialEq, Eq)]
pub enum Command {
    // Movement
    MoveLeft,
    MoveRight,
    MoveUp,
    MoveDown,
    PageUp,
    PageDown,
    MoveWordForward,
    MoveWordBackward,
    MoveLineStart,
    MoveLineEnd,
    MoveFileStart,
    MoveFileEnd,
    // Selection
    ExtendSelectionLeft,
    ExtendSelectionRight,
    ExtendSelectionUp,
    ExtendSelectionDown,
    CollapseSelection,
    VisualMode,
    SelectLine,
    // Editing
    DeleteSelection,
    ChangeSelection,
    YankSelection,
    PasteBefore,
    PasteAfter,
    OpenLineAbove,
    OpenLineBelow,
    ToggleCase,
    IndentSelection,
    UnindentSelection,
    JumpMatchingPair,
    // Mode transitions
    EnterNormalMode,
    EnterInsertMode,
    EnterAppendMode,
    EnterCommandMode,
    EnterSearchMode,
    // File / buffer
    OpenFile(String),
    SaveFile,
    SaveFileAs(String),
    Quit,
    ForceQuit,
    // Search
    SearchForward(String),
    SearchBackward(String),
    SearchNext,
    SearchPrevious,
    // Undo / redo
    Undo,
    Redo,
    // SKK
    SkkToggle,
    SkkConfirm,
    SkkCancel,
    SkkNextCandidate,
    SkkPreviousCandidate,
}

/// Why a command line could not be parsed.
#[derive(Debug, Clone, PartialEq, Eq)]
pub enum ParseCommandError {
    UnknownCommand(String),
    MissingArgument(String),
}

impl Command {
    /// An identical copy of the command.
    pub fn duplicate(&self) -> (r: Command)
        ensures
            r == *self,
    {
        match self {
            Command::MoveLeft => Command::MoveLeft,
            Command::MoveRight => Command::MoveRight,
            Command::MoveUp => Command::MoveUp,
            Command::MoveDown => Command::MoveDown,
            Command::PageUp => Command::PageUp,
            Command::PageDown => Command::PageDown,
            Command::MoveWordForward => Command::MoveWordForward,
            Command::MoveWordBackward => Command::MoveWordBackward,
            Command::MoveLineStart => Command::MoveLineStart,
            Command::MoveLineEnd => Command::MoveLineEnd,
            Command::MoveFileStart => Command::MoveFileStart,
            Command::MoveFileEnd => Command::MoveFileEnd,
            Command::ExtendSelectionLeft => Command::ExtendSelectionLeft,
            Command::ExtendSelectionRight => Command::ExtendSelectionRight,
            Command::ExtendSelectionUp => Command::ExtendSelectionUp,
            Command::ExtendSelectionDown => Command::ExtendSelectionDown,
            Command::CollapseSelection => Command::CollapseSelection,
            Command::VisualMode => Command::VisualMode,
            Command::SelectLine => Command::SelectLine,
            Command::DeleteSelection => Command::DeleteSelection,
            Command::ChangeSelection => Command::ChangeSelection,
            Command::YankSelection => Command::YankSelection,
            Command::PasteBefore => Command::PasteBefore,
            Command::PasteAfter => Command::PasteAfter,
            Command::OpenLineAbove => Command::OpenLineAbove,
            Command::OpenLineBelow => Command::OpenLineBelow,
            Command::ToggleCase => Command::ToggleCase,
            Command::IndentSelection => Command::IndentSelection,
            Command::UnindentSelection => Command::UnindentSelection,
            Command::JumpMatchingPair => Command::JumpMatchingPair,
            Command::EnterNormalMode => Command::EnterNormalMode,
            Command::EnterInsertMode => Command::EnterInsertMode,
            Command::EnterAppendMode => Command::EnterAppendMode,
            Command::EnterCommandMode => Command::EnterCommandMode,
            Command::EnterSearchMode => Command::EnterSearchMode,
            Command::SaveFile => Command::SaveFile,
            Command::Quit => Command::Quit,
            Command::ForceQuit => Command::ForceQuit,
            Command::SearchNext => Command::SearchNext,
            Command::SearchPrevious => Command::SearchPrevious,
            Command::Undo => Command::Undo,
            Command::Redo => Command::Redo,
            Command::SkkToggle => Command::SkkToggle,
            Command::SkkConfirm => Command::SkkConfirm,
            Command::SkkCancel => Command::SkkCancel,
            Command::SkkNextCandidate => Command::SkkNextCandidate,
            Command::SkkPreviousCandidate => Command::SkkPreviousCandidate,
            Command::OpenFile(s) => Command::OpenFile(s.clone()),
            Command::SaveFileAs(s) => Command::SaveFileAs(s.clone()),
            Command::SearchForward(s) => Command::SearchForward(s.clone()),
            Command::SearchBackward(s) => Command::SearchBackward(s.clone()),
        }
    }
}

/// A character of Unicode's `White_Space` property.
pub open spec fn is_white(c: char) -> bool {
    let v = c as u32;
    ||| 0x09 <= v <= 0x0D
    ||| v == 0x20
    ||| v == 0x85
    ||| v == 0xA0
    ||| v == 0x1680
    ||| 0x2000 <= v <= 0x200A
    ||| v == 0x2028
    ||| v == 0x2029
    ||| v == 0x202F
    ||| v == 0x205F
    ||| v == 0x3000
}

/// The first index from `i` on that is not white space (or the end).
pub open spec fn skip_white(s: Seq<char>, i: int) -> int
    decreases s.len() - i,
{
    if i < 0 || i >= s.len() {
        i
    } else if is_white(s[i]) {
        skip_white(s, i + 1)
    } else {
        i
    }
}

/// The end of `s[..j]` once trailing white space is dropped.
pub open spec fn drop_white_end(s: Seq<char>, j: int) -> int
    decreases j,
{
    if j <= 0 {
        0
    } else if is_white(s[j - 1]) {
        drop_white_end(s, j - 1)
    } else {
        j
    }
}

/// `s` without leading and trailing white space.
pub open spec fn trim_spec(s: Seq<char>) -> Seq<char> {
    let a = skip_white(s, 0);
    if a >= s.len() {
        Seq::<char>::empty()
    } else {
        s.subrange(a, drop_white_end(s, s.len() as int))
    }
}

/// The index of the first space in `t` from `i` on (or its end).
pub open spec fn first_space(t: Seq<char>, i: int) -> int
    decreases t.len() - i,
{
    if i < 0 || i >= t.len() {
        i
    } else if t[i] == ' ' {
        i
    } else {
        first_space(t, i + 1)
    }
}

/// The command name: `t` up to its first space.
pub open spec fn command_name(t: Seq<char>) -> Seq<char> {
    t.subrange(0, first_space(t, 0))
}

/// The argument: what follows the first space of `t`, if it has one.
pub open spec fn command_arg(t: Seq<char>) -> Option<Seq<char>> {
    let k = first_space(t, 0);
    if k < t.len() {
        Some(t.subrange(k + 1, t.len() as int))
    } else {
        None
    }
}

/// The first index of `table` whose name is `name`, if any, searching
/// from `i`.
pub open spec fn find_name(table: Seq<(Seq<char>, Command)>, name: Seq<char>, i: int) -> Option<int>
    decreases table.len() - i,
{
    if i < 0 || i >= table.len() {
        None
    } else if table[i].0 == name {
        Some(i)
    } else {
        find_name(table, name, i + 1)
    }
}

/// `r` is the command built from `template` and the argument `arg`: a
/// file command takes the argument as its path and needs one; any other
/// command is the template itself.
pub open spec fn instantiated(template: Command, arg: Option<Seq<char>>, r: Result<Command, ParseCommandError>) -> bool {
    match template {
        Command::OpenFile(_) => match arg {
            Some(a) => r matches Ok(Command::OpenFile(p)) && p@ == a,
            None => r matches Err(ParseCommandError::MissingArgument(m)) && m@
                == "open requires a file path"@,
        },
        Command::SaveFileAs(_) => match arg {
            Some(a) => r matches Ok(Command::SaveFileAs(p)) && p@ == a,
            None => r matches Err(ParseCommandError::MissingArgument(m)) && m@
                == "save-as requires a file path"@,
        },
        _ => r == Ok::<Command, ParseCommandError>(template),
    }
}

/// What parsing the command line `input` against `table` gives.
pub open spec fn parsed(table: Seq<(Seq<char>, Command)>, input: Seq<char>, r: Result<Command, ParseCommandError>) -> bool {
    let t = trim_spec(input);
    if t.len() == 0 {
        r matches Err(ParseCommandError::UnknownCommand(m)) && m@.len() == 0
    } else {
        match find_name(table, command_name(t), 0) {
            None => r matches Err(ParseCommandError::UnknownCommand(m)) && m@ == command_name(t),
            Some(i) => instantiated(table[i].1, command_arg(t), r),
        }
    }
}

/// The built-in command names, in lookup order: `write`/`w`, `quit`/`q`,
/// `wq`, `force-quit`/`q!`, `open`, `undo` and `redo`.
pub open spec fn standard_table(t: Seq<(Seq<char>, Command)>) -> bool {
    &&& t.len() == 10
    &&& t[0] == ("write"@, Command::SaveFile)
    &&& t[1] == ("w"@, Command::SaveFile)
    &&& t[2] == ("quit"@, Command::Quit)
    &&& t[3] == ("q"@, Command::Quit)
    &&& t[4] == ("wq"@, Command::SaveFile)
    &&& t[5] == ("force-quit"@, Command::ForceQuit)
    &&& t[6] == ("q!"@, Command::ForceQuit)
    &&& t[7].0 == "open"@
    &&& t[7].1 is OpenFile
    &&& t[8] == ("undo"@, Command::Undo)
    &&& t[9] == ("redo"@, Command::Redo)
}

/// The ex commands: names and the commands they stand for.
pub struct CommandRegistry {
    commands: Vec<(&'static str, Command)>,
}

fn white(c: char) -> (b: bool)
    ensures
        b == is_white(c),
{
    let v = c as u32;
    (0x09 <= v && v <= 0x0D) || v == 0x20 || v == 0x85 || v == 0xA0 || v == 0x1680 || (0x2000 <= v
        && v <= 0x200A) || v == 0x2028 || v == 0x2029 || v == 0x202F || v == 0x205F || v == 0x3000
}

impl CommandRegistry {
    /// The names and commands, in lookup order.
    pub closed spec fn table(&self) -> Seq<(Seq<char>, Command)> {
        self.commands@.map_values(|p: (&'static str, Command)| (p.0@, p.1))
    }

    /// The registry of `write`/`w`, `quit`/`q`, `wq`, `force-quit`/`q!`,
    /// `open`, `undo` and `redo`.
    pub fn new() -> (r: Self)
        ensures
            standard_table(r.table()),
            r.table().len() == 10,
            r.table()[0] == ("write"@, Command::SaveFile),
            r.table()[1] == ("w"@, Command::SaveFile),
            r.table()[2] == ("quit"@, Command::Quit),
            r.table()[3] == ("q"@, Command::Quit),
            r.table()[4] == ("wq"@, Command::SaveFile),
            r.table()[5] == ("force-quit"@, Command::ForceQuit),
            r.table()[6] == ("q!"@, Command::ForceQuit),
            r.table()[7].0 == "open"@,
            r.table()[7].1 is OpenFile,
            r.table()[8] == ("undo"@, Command::Undo),
            r.table()[9] == ("redo"@, Command::Redo),
    {
        let mut commands: Vec<(&'static str, Command)> = Vec::new();
        commands.push(("write", Command::SaveFile));
        commands.push(("w", Command::SaveFile));
        commands.push(("quit", Command::Quit));
        commands.push(("q", Command::Quit));
        commands.push(("wq", Command::SaveFile));
        commands.push(("force-quit", Command::ForceQuit));
        commands.push(("q!", Command::ForceQuit));
        commands.push(("open", Command::OpenFile(String::new())));
        commands.push(("undo", Command::Undo));
        commands.push(("redo", Command::Redo));
        CommandRegistry { commands }
    }

    /// Parses a command line: the first word (after trimming white space)
    /// names the command, the rest after one space is its argument (see
    /// `parsed`).
    pub fn parse(&self, input: &str) -> (r: Result<Command, ParseCommandError>)
        ensures
            parsed(self.table(), input@, r),
    {
        let cs = to_chars(input);
        let n = cs.len();
        let mut a: usize = 0;
        while a < n && white(cs[a])
            invariant
                a <= n == cs@.len(),
                skip_white(cs@, a as int) == skip_white(cs@, 0),
            decreases n - a,
        {
            a = a + 1;
        }
        if a >= n {
            return Err(ParseCommandError::UnknownCommand(String::new()));
        }
        let mut b: usize = n;
        while b > 0 && white(cs[b - 1])
            invariant
                a < n == cs@.len(),
                a < b <= n,
                !is_white(cs@[a as int]),
                drop_white_end(cs@, b as int) == drop_white_end(cs@, n as int),
            decreases b,
        {
            b = b - 1;
        }
        let ghost t = trim_spec(cs@);
        proof {
            assert(skip_white(cs@, a as int) == a);
            assert(drop_white_end(cs@, b as int) == b);
            assert(t == cs@.subrange(a as int, b as int));
        }
        let mut k = a;
        while k < b && cs[k] != ' '
            invariant
                a <= k <= b <= n == cs@.len(),
                t == cs@.subrange(a as int, b as int),
                first_space(t, k - a) == first_space(t, 0),
            decreases b - k,
        {
            k = k + 1;
        }
        let name = string_of(&cs, a, k);
        let arg: Option<String> = if k < b {
            Some(string_of(&cs, k + 1, b))
        } else {
            None
        };
        proof {
            assert(first_space(t, k - a) == k - a);
            assert(first_space(t, 0) == k - a);
            assert(name@ =~= command_name(t));
            assert(t.len() > 0);
            if k < b {
                assert(arg->0@ =~= command_arg(t)->0);
            }
        }
        let mut i: usize = 0;
        while i < self.commands.len()
            invariant
                i <= self.commands@.len(),
                self.table().len() == self.commands@.len(),
                name@ == command_name(t),
                t == trim_spec(input@),
                t.len() > 0,
                arg is Some <==> command_arg(t) is Some,
                arg is Some ==> arg->0@ == command_arg(t)->0,
                find_name(self.table(), name@, i as int) == find_name(self.table(), name@, 0),
            decreases self.commands@.len() - i,
        {
            let entry = &self.commands[i];
            proof {
                assert(self.table()[i as int] == (entry.0@, entry.1));
            }
            if str_eq(entry.0, name.as_str()) {
                proof {
                    assert(find_name(self.table(), name@, i as int) == Some(i as int));
                }
                return match &entry.1 {
                    Command::OpenFile(_) => match arg {
                        Some(p) => Ok(Command::OpenFile(p)),
                        None => Err(ParseCommandError::MissingArgument("open requires a file path".to_string())),
                    },
                    Command::SaveFileAs(_) => match arg {
                        Some(p) => Ok(Command::SaveFileAs(p)),
                        None => Err(ParseCommandError::MissingArgument("save-as requires a file path".to_string())),
                    },
                    other => Ok(other.duplicate()),
                };
            }
            i = i + 1;
        }
        Err(ParseCommandError::UnknownCommand(name))
    }
}

} // verus!
