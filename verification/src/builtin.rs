//! The builtin dispatcher: the commands that the interpreter runs itself, and
//! what each of them asks for.
//!
//! A builtin never creates a process. What it does to the interpreter's own
//! process (leave, change directory, print) is handed out as a
//! `BuiltinAction` for the driver to carry out.

use crate::number::{parse_decimal, parse_i32};
use crate::shell::Shell;
use crate::text::{chars_of, same_text, substring};
use vstd::prelude::*;
use vstd::string::*;

verus! {

/// The commands that the interpreter runs itself.
#[derive(Clone, Copy, PartialEq, Eq, Debug)]
pub enum Builtin {
    /// Leave the interpreter.
    Exit,
    /// Change the working directory.
    Cd,
    /// Print the stored history.
    History,
}

/// Where `cd` goes.
#[derive(PartialEq, Eq, Debug)]
pub enum DirTarget {
    /// To this directory, taken as it is written.
    Path(String),
    /// To the home directory that the user database records for the real
    /// user id.
    UserDatabase,
}

/// What a builtin asks the driver to do.
#[derive(PartialEq, Eq, Debug)]
pub enum BuiltinAction {
    /// End the interpreter's process with status `code`.
    Exit { code: i32 },
    /// Change the working directory to `target`.
    ChangeDir { target: DirTarget },
    /// Print the listing of the history store.
    History,
}

/// A `DirTarget` with its text as a sequence of characters.
pub enum DirTargetView {
    Path(Seq<char>),
    UserDatabase,
}

/// A `BuiltinAction` with its text as a sequence of characters.
pub enum BuiltinActionView {
    Exit { code: i32 },
    ChangeDir { target: DirTargetView },
    History,
}

impl View for DirTarget {
    type V = DirTargetView;

    open spec fn view(&self) -> DirTargetView {
        match self {
            DirTarget::Path(path) => DirTargetView::Path(path@),
            DirTarget::UserDatabase => DirTargetView::UserDatabase,
        }
    }
}

impl View for BuiltinAction {
    type V = BuiltinActionView;

    open spec fn view(&self) -> BuiltinActionView {
        match self {
            BuiltinAction::Exit { code } => BuiltinActionView::Exit { code: *code },
            BuiltinAction::ChangeDir { target } => BuiltinActionView::ChangeDir { target: target@ },
            BuiltinAction::History => BuiltinActionView::History,
        }
    }
}

/// The builtin that `name` names, if it names one.
pub open spec fn builtin_of(name: Seq<char>) -> Option<Builtin> {
    if name == "exit"@ {
        Some(Builtin::Exit)
    } else if name == "cd"@ {
        Some(Builtin::Cd)
    } else if name == "history"@ {
        Some(Builtin::History)
    } else {
        None
    }
}

/// Where `cd` goes for the argument vector `dir`, whose element 0 is the
/// command's name, when the home variable of the environment has the value
/// `home`. With an argument it goes there; without one it goes to the home
/// variable's value, or, when that variable is not set, to the directory in
/// the user database.
pub open spec fn cd_target(dir: Seq<Seq<char>>, home: Option<Seq<char>>) -> DirTargetView {
    if dir.len() <= 1 {
        match home {
            Some(path) => DirTargetView::Path(path),
            None => DirTargetView::UserDatabase,
        }
    } else {
        DirTargetView::Path(dir[1])
    }
}

/// Whether the interpreter can act on `argv` as an `exit` command: `exit`
/// with an argument that is no 32-bit decimal integer is a fatal error.
pub open spec fn exit_request_valid(argv: Seq<Seq<char>>) -> bool {
    argv.len() > 1 && builtin_of(argv[0]) == Some(Builtin::Exit) ==> parse_i32(argv[1]) is Some
}

/// The status that `exit` leaves with: its argument, or 0 without one.
pub open spec fn exit_code(argv: Seq<Seq<char>>) -> i32 {
    if argv.len() > 1 {
        parse_i32(argv[1]).unwrap()
    } else {
        0
    }
}

/// What running `argv` as a builtin comes to: the action of the builtin that
/// element 0 names, error 0 for an empty vector, and error -1 when element 0
/// names no builtin.
pub open spec fn builtin_outcome(argv: Seq<Seq<char>>, home: Option<Seq<char>>) -> Result<
    BuiltinActionView,
    isize,
> {
    if argv.len() == 0 {
        Err(0)
    } else {
        match builtin_of(argv[0]) {
            Some(Builtin::Exit) => Ok(BuiltinActionView::Exit { code: exit_code(argv) }),
            Some(Builtin::Cd) => Ok(BuiltinActionView::ChangeDir { target: cd_target(argv, home) }),
            Some(Builtin::History) => Ok(BuiltinActionView::History),
            None => Err(-1isize),
        }
    }
}

/// What `cd` returns once the system was asked to change directory and
/// answered `status`, which is 0 for success and the system's error code
/// otherwise: success for 0, else the code as the error.
pub open spec fn cd_outcome(status: i32) -> Result<(), isize> {
    if status == 0 {
        Ok(())
    } else {
        Err(status as isize)
    }
}

/// What the `history` builtin prints for a history store that holds
/// `contents`: the contents without the four characters of the version
/// marker that the store starts with.
pub open spec fn history_listing(contents: Seq<char>) -> Seq<char> {
    if contents.len() <= 4 {
        Seq::empty()
    } else {
        contents.skip(4)
    }
}

/// The builtin dispatcher handles exactly the commands that bear a builtin's
/// name: for those it returns the builtin's action, and for every other name
/// the error -1, which tells the caller to launch an external program.
pub proof fn law_builtins_are_handled(argv: Seq<Seq<char>>, home: Option<Seq<char>>)
    requires
        argv.len() > 0,
    ensures
        builtin_of(argv[0]) is Some <==> builtin_outcome(argv, home) is Ok,
        builtin_of(argv[0]) is None <==> builtin_outcome(argv, home) == Err::<
            BuiltinActionView,
            isize,
        >(-1isize),
{
}

/// The builtin that `name` names, if it names one.
pub fn builtin_named(name: &str) -> (r: Option<Builtin>)
    ensures
        r == builtin_of(name@),
{
    if same_text(name, "exit") {
        Some(Builtin::Exit)
    } else if same_text(name, "cd") {
        Some(Builtin::Cd)
    } else if same_text(name, "history") {
        Some(Builtin::History)
    } else {
        None
    }
}

/// Decides whether the interpreter can act on `argv` as an `exit` command.
pub fn exit_request_ok(argv: &Vec<String>) -> (ok: bool)
    ensures
        ok == exit_request_valid(argv.deep_view()),
{
    if argv.len() > 1 {
        assert(argv.deep_view()[0] == argv[0]@);
        assert(argv.deep_view()[1] == argv[1]@);
        match builtin_named(argv[0].as_str()) {
            Some(Builtin::Exit) => {
                let digits = chars_of(argv[1].as_str());
                parse_decimal(&digits).is_some()
            },
            _ => true,
        }
    } else {
        true
    }
}

impl Shell {
    /// Runs `argv` as a builtin, as far as deciding what it asks for. `home`
    /// is the value of the home variable of the environment, if it is set.
    pub fn do_builtin(&self, argv: Vec<String>, home: Option<String>) -> (r: Result<
        BuiltinAction,
        isize,
    >)
        requires
            exit_request_valid(argv.deep_view()),
        ensures
            match r {
                Ok(action) => builtin_outcome(argv.deep_view(), home.deep_view()) == Ok::<
                    BuiltinActionView,
                    isize,
                >(action@),
                Err(code) => builtin_outcome(argv.deep_view(), home.deep_view()) == Err::<
                    BuiltinActionView,
                    isize,
                >(code),
            },
    {
        if argv.len() == 0 {
            return Err(0);
        }
        assert(argv.deep_view()[0] == argv[0]@);
        match builtin_named(argv[0].as_str()) {
            Some(Builtin::Exit) => {
                if argv.len() > 1 {
                    assert(argv.deep_view()[1] == argv[1]@);
                    let digits = chars_of(argv[1].as_str());
                    Ok(BuiltinAction::Exit { code: parse_decimal(&digits).unwrap() })
                } else {
                    Ok(BuiltinAction::Exit { code: 0 })
                }
            },
            Some(Builtin::Cd) => {
                let target = Shell::change_dir(argv, home);
                Ok(BuiltinAction::ChangeDir { target })
            },
            Some(Builtin::History) => Ok(BuiltinAction::History),
            None => Err(-1),
        }
    }

    /// Where `cd` goes for the argument vector `dir`, whose element 0 is the
    /// command's name. `home` is the value of the home variable of the
    /// environment, if it is set.
    pub fn change_dir(dir: Vec<String>, home: Option<String>) -> (target: DirTarget)
        ensures
            target@ == cd_target(dir.deep_view(), home.deep_view()),
    {
        if dir.len() <= 1 {
            match home {
                Some(path) => DirTarget::Path(path),
                None => DirTarget::UserDatabase,
            }
        } else {
            assert(dir.deep_view()[1] == dir[1]@);
            DirTarget::Path(dir[1].clone())
        }
    }

    /// What `cd` returns once the system was asked to change directory and
    /// answered `status`.
    pub fn change_dir_result(status: i32) -> (r: Result<(), isize>)
        ensures
            r == cd_outcome(status),
    {
        if status == 0 {
            Ok(())
        } else {
            Err(status as isize)
        }
    }

    /// What the `history` builtin prints for a history store that holds
    /// `contents`.
    pub fn history_text(contents: String) -> (listing: String)
        ensures
            listing@ == history_listing(contents@),
    {
        let text = contents.as_str();
        let n = text.unicode_len();
        if n <= 4 {
            String::new()
        } else {
            assert(text@.subrange(4, n as int) =~= text@.skip(4));
            substring(text, 4, n)
        }
    }
}

} // verus!
