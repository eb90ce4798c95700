//! The interactive session: each input line is parsed into a command, and the
//! command is carried out on the keychain; what remains to do outside (print,
//! save, re-initialise, stop) is returned as an action.
use vstd::prelude::*;
use vstd::slice::slice_subrange;
use crate::storage::{lists_keys_in_order, Keychain};
use crate::text::{
    chars_eq, chars_of, find_char, find_whitespace, first_index, is_char, string_from_chars, trim,
    trim_bounds, white_space,
};

verus! {

/// A command of the interactive session, as a line reads.
pub enum CommandSpec {
    Blank,
    Help,
    Exit,
    List,
    Get(Seq<char>),
    SetSecret(Seq<char>, Seq<char>),
    Delete(Seq<char>),
    Init,
    Usage(Seq<char>),
    Unknown(Seq<char>),
}

/// A parsed input line.
pub enum Command {
    /// An empty line.
    Blank,
    /// `help` or `?`.
    Help,
    /// `exit` or `quit`.
    Exit,
    /// `list`.
    List,
    /// `get <key>`.
    Get(String),
    /// `set <key> <value>`.
    SetSecret(String, String),
    /// `delete <key>`.
    Delete(String),
    /// `init`.
    Init,
    /// A known command used wrongly; holds the usage message.
    Usage(String),
    /// An unknown command; holds its name.
    Unknown(String),
}

impl View for Command {
    type V = CommandSpec;

    open spec fn view(&self) -> CommandSpec {
        match self {
            Command::Blank => CommandSpec::Blank,
            Command::Help => CommandSpec::Help,
            Command::Exit => CommandSpec::Exit,
            Command::List => CommandSpec::List,
            Command::Get(k) => CommandSpec::Get(k@),
            Command::SetSecret(k, v) => CommandSpec::SetSecret(k@, v@),
            Command::Delete(k) => CommandSpec::Delete(k@),
            Command::Init => CommandSpec::Init,
            Command::Usage(m) => CommandSpec::Usage(m@),
            Command::Unknown(c) => CommandSpec::Unknown(c@),
        }
    }
}

/// What is left to do after a command, as a line reads.
pub enum ActionSpec {
    Continue,
    Print(Seq<Seq<char>>),
    Save,
    Init,
    Exit,
}

/// What is left to do after a command.
pub enum Action {
    /// Nothing; read the next line.
    Continue,
    /// Print these lines.
    Print(Vec<String>),
    /// The keychain changed: save it.
    Save,
    /// Re-initialise the keychain file.
    Init,
    /// Leave the session.
    Exit,
}

impl View for Action {
    type V = ActionSpec;

    open spec fn view(&self) -> ActionSpec {
        match self {
            Action::Continue => ActionSpec::Continue,
            Action::Print(lines) => ActionSpec::Print(lines@.map_values(|l: String| l@)),
            Action::Save => ActionSpec::Save,
            Action::Init => ActionSpec::Init,
            Action::Exit => ActionSpec::Exit,
        }
    }
}

/// The help line of the session.
pub open spec fn help_text() -> Seq<char> {
    "Commands: get <key>, set <key> <value>, list, delete <key>, init, help, exit"@
}

/// The message for a missing key.
pub open spec fn key_not_found(key: Seq<char>) -> Seq<char> {
    "error: key not found: "@ + key
}

/// The message for an unknown command.
pub open spec fn unknown_command(command: Seq<char>) -> Seq<char> {
    "unknown command: "@ + command + ". Type 'help' for commands."@
}

/// The argument of a one-argument command: present and free of whitespace,
/// or else the usage message.
pub open spec fn one_argument_spec(args: Seq<char>, usage: Seq<char>) -> Result<Seq<char>, Seq<char>> {
    if args.len() == 0 || first_index(args, white_space()) < args.len() {
        Err("usage: "@ + usage)
    } else {
        Ok(args)
    }
}

/// The arguments of a trimmed line: what follows the first space, trimmed.
pub open spec fn line_args(t: Seq<char>) -> Seq<char> {
    let i = first_index(t, is_char(' '));
    if i < t.len() {
        trim(t.skip(i + 1int))
    } else {
        Seq::empty()
    }
}

/// The command that a line of input stands for.
pub open spec fn parse_command_spec(line: Seq<char>) -> CommandSpec {
    let t = trim(line);
    let command = t.take(first_index(t, is_char(' ')) as int);
    let args = line_args(t);
    if t.len() == 0 {
        CommandSpec::Blank
    } else if command == "help"@ || command == "?"@ {
        CommandSpec::Help
    } else if command == "exit"@ || command == "quit"@ {
        CommandSpec::Exit
    } else if command == "list"@ {
        if args.len() == 0 {
            CommandSpec::List
        } else {
            CommandSpec::Usage("usage: list"@)
        }
    } else if command == "get"@ {
        match one_argument_spec(args, "get <key>"@) {
            Ok(k) => CommandSpec::Get(k),
            Err(m) => CommandSpec::Usage(m),
        }
    } else if command == "set"@ {
        let j = first_index(args, white_space());
        if j < args.len() && j > 0 && trim(args.skip(j + 1int)).len() > 0 {
            CommandSpec::SetSecret(args.take(j as int), trim(args.skip(j + 1int)))
        } else {
            CommandSpec::Usage("usage: set <key> <value>"@)
        }
    } else if command == "delete"@ {
        match one_argument_spec(args, "delete <key>"@) {
            Ok(k) => CommandSpec::Delete(k),
            Err(m) => CommandSpec::Usage(m),
        }
    } else if command == "init"@ {
        CommandSpec::Init
    } else {
        CommandSpec::Unknown(command)
    }
}

/// What carrying out `c` on a keychain `m` does: `m2` is the keychain after,
/// `a` what is left to do.
pub open spec fn step_spec(
    m: Map<Seq<char>, Seq<char>>,
    c: CommandSpec,
    m2: Map<Seq<char>, Seq<char>>,
    a: ActionSpec,
) -> bool {
    match c {
        CommandSpec::Blank => m2 == m && a == ActionSpec::Continue,
        CommandSpec::Help => m2 == m && a == ActionSpec::Print(seq![help_text()]),
        CommandSpec::Exit => m2 == m && a == ActionSpec::Exit,
        CommandSpec::List => m2 == m && (a matches ActionSpec::Print(ls) && lists_keys_in_order(m, ls)),
        CommandSpec::Get(k) => m2 == m && a == ActionSpec::Print(
            seq![if m.contains_key(k) { m[k] } else { key_not_found(k) }],
        ),
        CommandSpec::SetSecret(k, v) => m2 == m.insert(k, v) && a == ActionSpec::Save,
        CommandSpec::Delete(k) => m2 == m.remove(k) && a == (if m.contains_key(k) {
            ActionSpec::Save
        } else {
            ActionSpec::Print(seq![key_not_found(k)])
        }),
        CommandSpec::Init => m2 == m && a == ActionSpec::Init,
        CommandSpec::Usage(msg) => m2 == m && a == ActionSpec::Print(seq![msg]),
        CommandSpec::Unknown(cmd) => m2 == m && a == ActionSpec::Print(seq![unknown_command(cmd)]),
    }
}

/// The argument of a one-argument command, or the usage message
/// `usage: <usage>` when it is missing or holds whitespace.
pub fn one_argument<'a>(args: &'a str, usage: &str) -> (r: Result<&'a str, String>)
    ensures
        match r {
            Ok(a) => one_argument_spec(args@, usage@) == Ok::<Seq<char>, Seq<char>>(a@),
            Err(m) => one_argument_spec(args@, usage@) == Err::<Seq<char>, Seq<char>>(m@),
        },
{
    let cs = chars_of(args);
    let w = find_whitespace(cs.as_slice());
    if cs.len() == 0 || w < cs.len() {
        let mut m = "usage: ".to_owned();
        m.append(usage);
        Err(m)
    } else {
        Ok(args)
    }
}

/// A string holding `s[a..b]`.
fn sub_string(s: &[char], a: usize, b: usize) -> (r: String)
    requires
        a <= b <= s.len(),
    ensures
        r@ == s@.subrange(a as int, b as int),
{
    string_from_chars(slice_subrange(s, a, b))
}

/// Parses a line of the interactive session.
pub fn parse_command(line: &str) -> (c: Command)
    ensures
        c@ == parse_command_spec(line@),
{
    let chars = chars_of(line);
    let (a, b) = trim_bounds(chars.as_slice());
    if a == b {
        return Command::Blank;
    }
    let t = slice_subrange(chars.as_slice(), a, b);
    let i = find_char(t, ' ');
    let command = slice_subrange(t, 0, i);
    assert(command@ =~= t@.take(i as int));
    let rest = if i < t.len() {
        slice_subrange(t, i + 1, t.len())
    } else {
        slice_subrange(t, t.len(), t.len())
    };
    assert(i < t.len() ==> rest@ =~= t@.skip(i + 1));
    let (c0, c1) = trim_bounds(rest);
    let args = slice_subrange(rest, c0, c1);
    proof {
        if i >= t.len() {
            assert(rest@.len() == 0);
            assert(args@ =~= Seq::<char>::empty());
        }
        assert(args@ == line_args(t@));
    }
    if chars_eq(command, "help") || chars_eq(command, "?") {
        Command::Help
    } else if chars_eq(command, "exit") || chars_eq(command, "quit") {
        Command::Exit
    } else if chars_eq(command, "list") {
        if args.len() == 0 {
            Command::List
        } else {
            Command::Usage("usage: list".to_owned())
        }
    } else if chars_eq(command, "get") {
        let args_string = string_from_chars(args);
        match one_argument(args_string.as_str(), "get <key>") {
            Ok(k) => Command::Get(k.to_owned()),
            Err(m) => Command::Usage(m),
        }
    } else if chars_eq(command, "set") {
        let j = find_whitespace(args);
        if j < args.len() && j > 0 {
            let value_all = slice_subrange(args, j + 1, args.len());
            assert(value_all@ =~= args@.skip(j + 1));
            let (v0, v1) = trim_bounds(value_all);
            if v0 < v1 {
                Command::SetSecret(sub_string(args, 0, j), sub_string(value_all, v0, v1))
            } else {
                Command::Usage("usage: set <key> <value>".to_owned())
            }
        } else {
            Command::Usage("usage: set <key> <value>".to_owned())
        }
    } else if chars_eq(command, "delete") {
        let args_string = string_from_chars(args);
        match one_argument(args_string.as_str(), "delete <key>") {
            Ok(k) => Command::Delete(k.to_owned()),
            Err(m) => Command::Usage(m),
        }
    } else if chars_eq(command, "init") {
        Command::Init
    } else {
        Command::Unknown(string_from_chars(command))
    }
}

/// A one-line print action.
fn print_line(line: String) -> (a: Action)
    ensures
        a@ == ActionSpec::Print(seq![line@]),
{
    let mut lines: Vec<String> = Vec::new();
    lines.push(line);
    assert(lines@.map_values(|l: String| l@) =~= seq![line@]);
    Action::Print(lines)
}

/// Carries out a parsed command on the keychain.
pub fn execute(kc: &mut Keychain, command: Command) -> (a: Action)
    ensures
        step_spec(old(kc)@, command@, final(kc)@, a@),
        command@ matches CommandSpec::SetSecret(k, v) ==> final(kc)@ == old(kc)@.insert(k, v)
            && a@ == ActionSpec::Save,
        command@ matches CommandSpec::SetSecret(k, v) ==> final(kc)@.contains_key(k) && final(kc)@[k] == v,
{
    match command {
        Command::Blank => Action::Continue,
        Command::Help => print_line(
            "Commands: get <key>, set <key> <value>, list, delete <key>, init, help, exit".to_owned(),
        ),
        Command::Exit => Action::Exit,
        Command::List => {
            let keys = kc.keys();
            let mut lines: Vec<String> = Vec::new();
            let mut i: usize = 0;
            while i < keys.len()
                invariant
                    i <= keys.len(),
                    lines@.len() == i,
                    forall|j: int| 0 <= j < i ==> (#[trigger] lines@[j])@ == keys@[j]@,
                decreases keys.len() - i,
            {
                lines.push(keys[i].to_owned());
                i = i + 1;
            }
            assert(lines@.map_values(|l: String| l@) =~= keys@.map_values(|k: &str| k@));
            Action::Print(lines)
        },
        Command::Get(key) => {
            match kc.get(key.as_str()) {
                Some(v) => print_line(v.clone()),
                None => {
                    let mut m = "error: key not found: ".to_owned();
                    m.append(key.as_str());
                    print_line(m)
                },
            }
        },
        Command::SetSecret(key, value) => {
            kc.set(key.as_str(), value);
            Action::Save
        },
        Command::Delete(key) => {
            if kc.delete(key.as_str()) {
                Action::Save
            } else {
                let mut m = "error: key not found: ".to_owned();
                m.append(key.as_str());
                print_line(m)
            }
        },
        Command::Init => Action::Init,
        Command::Usage(m) => print_line(m),
        Command::Unknown(c) => {
            let mut m = "unknown command: ".to_owned();
            m.append(c.as_str());
            m.append(". Type 'help' for commands.");
            print_line(m)
        },
    }
}

/// Reads one line of the interactive session and carries it out.
pub fn session_step(kc: &mut Keychain, line: &str) -> (a: Action)
    ensures
        step_spec(old(kc)@, parse_command_spec(line@), final(kc)@, a@),
        parse_command_spec(line@) matches CommandSpec::SetSecret(k, v) ==> final(kc)@ == old(kc)@.insert(k, v)
            && a@ == ActionSpec::Save,
{
    let command = parse_command(line);
    execute(kc, command)
}

/// Only `set` and a `delete` of a present key change the keychain, and only
/// they ask for a save; every other line (help, list, get, usage errors,
/// unknown commands, a missing key) leaves it as it was.
pub proof fn law_only_changes_are_saved(
    m: Map<Seq<char>, Seq<char>>,
    c: CommandSpec,
    m2: Map<Seq<char>, Seq<char>>,
    a: ActionSpec,
)
    requires
        step_spec(m, c, m2, a),
    ensures
        a != ActionSpec::Save ==> m2 == m,
        a == ActionSpec::Save ==> (c is SetSecret || (c matches CommandSpec::Delete(k) && m.contains_key(k))),
        !(c is SetSecret) && !(c is Delete) ==> m2 == m && a != ActionSpec::Save,
{
    if let CommandSpec::Delete(k) = c {
        if !m.contains_key(k) {
            assert(m.remove(k) =~= m);
        }
    }
}

/// A line whose command word is `exit` or `quit` ends the session.
pub proof fn law_exit_ends_session(line: Seq<char>)
    requires
        ({
            let t = trim(line);
            let word = t.take(first_index(t, is_char(' ')) as int);
            word == "exit"@ || word == "quit"@
        }),
    ensures
        parse_command_spec(line) == CommandSpec::Exit,
{
    reveal_strlit("exit");
    reveal_strlit("quit");
    reveal_strlit("help");
    reveal_strlit("?");
    let t = trim(line);
    let word = t.take(first_index(t, is_char(' ')) as int);
    assert(word.len() == 4);
    assert(t.len() > 0);
    assert(word != "help"@) by {
        if word == "help"@ {
            assert(word[0] == "help"@[0]);
        }
    }
}

/// A `set k v` line stores `v` under `k` whether or not `k` was there: the
/// keychain after is the one before with `k` set to `v`, `k` now maps to `v`,
/// every other key keeps its value, and a save is asked for.
pub proof fn law_session_set_replaces(
    m: Map<Seq<char>, Seq<char>>,
    k: Seq<char>,
    v: Seq<char>,
    m2: Map<Seq<char>, Seq<char>>,
    a: ActionSpec,
)
    requires
        step_spec(m, CommandSpec::SetSecret(k, v), m2, a),
    ensures
        m2 == m.insert(k, v),
        m2.contains_key(k) && m2[k] == v,
        forall|j: Seq<char>| j != k ==> (m2.contains_key(j) == m.contains_key(j) && (m.contains_key(j) ==> m2[j] == m[j])),
        a == ActionSpec::Save,
{
}

/// After `set k v`, a `get k` prints `v` and changes nothing.
pub proof fn law_session_get_after_set(
    m: Map<Seq<char>, Seq<char>>,
    k: Seq<char>,
    v: Seq<char>,
    m2: Map<Seq<char>, Seq<char>>,
    a: ActionSpec,
    m3: Map<Seq<char>, Seq<char>>,
    b: ActionSpec,
)
    requires
        step_spec(m, CommandSpec::SetSecret(k, v), m2, a),
        step_spec(m2, CommandSpec::Get(k), m3, b),
    ensures
        m3 == m2,
        b == ActionSpec::Print(seq![v]),
{
}

/// A `delete k` line removes `k` exactly when it is there, asking for a save;
/// otherwise it reports the missing key and changes nothing.
pub proof fn law_session_delete(
    m: Map<Seq<char>, Seq<char>>,
    k: Seq<char>,
    m2: Map<Seq<char>, Seq<char>>,
    a: ActionSpec,
)
    requires
        step_spec(m, CommandSpec::Delete(k), m2, a),
    ensures
        !m2.contains_key(k),
        forall|j: Seq<char>| j != k ==> (m2.contains_key(j) == m.contains_key(j) && (m.contains_key(j) ==> m2[j] == m[j])),
        m.contains_key(k) ==> a == ActionSpec::Save,
        !m.contains_key(k) ==> m2 == m && a == ActionSpec::Print(seq!["error: key not found: "@ + k]),
{
    if !m.contains_key(k) {
        assert(m.remove(k) =~= m);
    }
}

} // verus!
