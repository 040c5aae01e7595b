//! The command line: which action to take, on which file.

use vstd::prelude::*;
use vstd::string::StrSliceExecFns;

verus! {

/// What the command line asks for.
pub struct Config {
    pub file_path: String,
    pub file_explorer: bool,
    pub create_file: bool,
    pub delete_file: bool,
    pub rename_file: bool,
    pub dark: bool,
    pub light: bool,
    pub new_file_name: String,
    pub help: bool,
    pub keybinds: bool,
}

/// A `Config` as mathematical values.
pub struct ConfigView {
    pub file_path: Seq<char>,
    pub file_explorer: bool,
    pub create_file: bool,
    pub delete_file: bool,
    pub rename_file: bool,
    pub dark: bool,
    pub light: bool,
    pub new_file_name: Seq<char>,
    pub help: bool,
    pub keybinds: bool,
}

impl View for Config {
    type V = ConfigView;

    open spec fn view(&self) -> ConfigView {
        ConfigView {
            file_path: self.file_path@,
            file_explorer: self.file_explorer,
            create_file: self.create_file,
            delete_file: self.delete_file,
            rename_file: self.rename_file,
            dark: self.dark,
            light: self.light,
            new_file_name: self.new_file_name@,
            help: self.help,
            keybinds: self.keybinds,
        }
    }
}

/// Which flag a `ConfigView` sets.
pub enum Action {
    Edit,
    Files,
    Help,
    Keybinds,
    Create,
    Delete,
    Rename,
    Dark,
    Light,
}

/// The configuration that sets `action` alone, on `path`, with `new_name`.
pub open spec fn config_for(action: Action, path: Seq<char>, new_name: Seq<char>) -> ConfigView {
    ConfigView {
        file_path: path,
        file_explorer: action is Files,
        create_file: action is Create,
        delete_file: action is Delete,
        rename_file: action is Rename,
        dark: action is Dark,
        light: action is Light,
        new_file_name: new_name,
        help: action is Help,
        keybinds: action is Keybinds,
    }
}

/// Whether `a` is the short or the long form of a flag.
pub open spec fn is_flag(a: Seq<char>, short: Seq<char>, long: Seq<char>) -> bool {
    a == short || a == long
}

/// The action of the modifier `m` that follows a file path, if it is one.
pub open spec fn modifier_action(m: Seq<char>) -> Option<Action> {
    if is_flag(m, "-c"@, "--create"@) {
        Some(Action::Create)
    } else if is_flag(m, "-d"@, "--delete"@) {
        Some(Action::Delete)
    } else if is_flag(m, "-r"@, "--rename"@) {
        Some(Action::Rename)
    } else if is_flag(m, "-b"@, "--dark"@) {
        Some(Action::Dark)
    } else if is_flag(m, "-l"@, "--light"@) {
        Some(Action::Light)
    } else {
        None
    }
}

/// What the arguments (the program's name first) ask for, or the message
/// that rejects them.
pub open spec fn parse_args(args: Seq<Seq<char>>) -> Result<ConfigView, Seq<char>> {
    if args.len() <= 1 {
        Err("Not enough arguments"@)
    } else if args.len() == 2 {
        if is_flag(args[1], "-f"@, "--files"@) {
            Ok(config_for(Action::Files, Seq::empty(), Seq::empty()))
        } else if is_flag(args[1], "-h"@, "--help"@) {
            Ok(config_for(Action::Help, Seq::empty(), Seq::empty()))
        } else if is_flag(args[1], "-k"@, "--keybinds"@) {
            Ok(config_for(Action::Keybinds, Seq::empty(), Seq::empty()))
        } else {
            Ok(config_for(Action::Edit, args[1], Seq::empty()))
        }
    } else if args.len() == 3 {
        match modifier_action(args[2]) {
            Some(a) => Ok(config_for(a, args[1], Seq::empty())),
            None => Err("Invalid modifier"@),
        }
    } else if args.len() == 4 && is_flag(args[2], "-r"@, "--rename"@) {
        Ok(config_for(Action::Rename, args[1], args[3]))
    } else {
        Err("Too many arguments"@)
    }
}

/// Whether two strings hold the same characters.
pub fn str_eq(a: &str, b: &str) -> (r: bool)
    ensures
        r == (a@ == b@),
{
    let n = a.unicode_len();
    if n != b.unicode_len() {
        return false;
    }
    let mut i: usize = 0;
    while i < n
        invariant
            n == a@.len(),
            n == b@.len(),
            i <= n,
            a@.take(i as int) == b@.take(i as int),
        decreases n - i,
    {
        if a.get_char(i) != b.get_char(i) {
            assert(a@[i as int] != b@[i as int]);
            return false;
        }
        assert(a@.take(i + 1) =~= a@.take(i as int).push(a@[i as int]));
        assert(b@.take(i + 1) =~= b@.take(i as int).push(b@[i as int]));
        i += 1;
    }
    assert(a@ =~= a@.take(n as int));
    assert(b@ =~= b@.take(n as int));
    true
}

fn is_flag_exec(a: &String, short: &str, long: &str) -> (r: bool)
    ensures
        r == is_flag(a@, short@, long@),
{
    str_eq(a.as_str(), short) || str_eq(a.as_str(), long)
}

impl Config {
    /// The configuration that sets no flag, with empty paths.
    pub fn default() -> (c: Config)
        ensures
            c@ == config_for(Action::Edit, Seq::empty(), Seq::empty()),
    {
        Config {
            file_path: String::new(),
            file_explorer: false,
            create_file: false,
            delete_file: false,
            rename_file: false,
            dark: false,
            light: false,
            new_file_name: String::new(),
            help: false,
            keybinds: false,
        }
    }

    fn with_action(action: Action, path: &String, new_name: &String) -> (c: Config)
        ensures
            c@ == config_for(action, path@, new_name@),
    {
        Config {
            file_path: path.clone(),
            file_explorer: matches!(action, Action::Files),
            create_file: matches!(action, Action::Create),
            delete_file: matches!(action, Action::Delete),
            rename_file: matches!(action, Action::Rename),
            dark: matches!(action, Action::Dark),
            light: matches!(action, Action::Light),
            new_file_name: new_name.clone(),
            help: matches!(action, Action::Help),
            keybinds: matches!(action, Action::Keybinds),
        }
    }

    /// Reads the arguments, the program's name first: a file path alone
    /// opens it for editing; `-f`, `-h` or `-k` alone asks for the file
    /// picker, the help or the key bindings; a path and one modifier asks to
    /// create, delete, rename, or edit in dark or light colours; a path, `-r`
    /// and a name asks to rename to that name.
    pub fn build(args: &[String]) -> (r: Result<Config, &'static str>)
        ensures
            match (r, parse_args(args@.map_values(|s: String| s@))) {
                (Ok(c), Ok(v)) => c@ == v,
                (Err(e), Err(m)) => e@ == m,
                _ => false,
            },
    {
        let ghost av = args@.map_values(|s: String| s@);
        let empty = String::new();
        if args.len() <= 1 {
            return Err("Not enough arguments");
        }
        if args.len() == 2 {
            if is_flag_exec(&args[1], "-f", "--files") {
                return Ok(Config::with_action(Action::Files, &empty, &empty));
            }
            if is_flag_exec(&args[1], "-h", "--help") {
                return Ok(Config::with_action(Action::Help, &empty, &empty));
            }
            if is_flag_exec(&args[1], "-k", "--keybinds") {
                return Ok(Config::with_action(Action::Keybinds, &empty, &empty));
            }
            return Ok(Config::with_action(Action::Edit, &args[1], &empty));
        }
        if args.len() == 3 {
            let m = &args[2];
            let action = if is_flag_exec(m, "-c", "--create") {
                Action::Create
            } else if is_flag_exec(m, "-d", "--delete") {
                Action::Delete
            } else if is_flag_exec(m, "-r", "--rename") {
                Action::Rename
            } else if is_flag_exec(m, "-b", "--dark") {
                Action::Dark
            } else if is_flag_exec(m, "-l", "--light") {
                Action::Light
            } else {
                return Err("Invalid modifier");
            };
            return Ok(Config::with_action(action, &args[1], &empty));
        }
        if args.len() == 4 && is_flag_exec(&args[2], "-r", "--rename") {
            return Ok(Config::with_action(Action::Rename, &args[1], &args[3]));
        }
        Err("Too many arguments")
    }
}

} // verus!
