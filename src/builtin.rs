//! The closed set of built-in commands and the handlers that are pure text.
use vstd::prelude::*;
use vstd::string::{StrSliceExecFns, StringExecFns};
use crate::text::{joined, same_text, spaced, texts, join_spaced, opt_text};

verus! {

/// A command that the shell carries out itself.
#[derive(Debug, Clone, Copy, PartialEq, Eq, Structural)]
pub enum Builtin {
    Exit,
    Echo,
    Type,
    Pwd,
    Cd,
}

/// The builtin that a command name denotes, by exact equality.
pub open spec fn builtin_named(s: Seq<char>) -> Option<Builtin> {
    if s == "exit"@ {
        Some(Builtin::Exit)
    } else if s == "echo"@ {
        Some(Builtin::Echo)
    } else if s == "type"@ {
        Some(Builtin::Type)
    } else if s == "pwd"@ {
        Some(Builtin::Pwd)
    } else if s == "cd"@ {
        Some(Builtin::Cd)
    } else {
        None
    }
}

/// The name under which each builtin is invoked.
pub open spec fn spec_name(b: Builtin) -> Seq<char> {
    match b {
        Builtin::Exit => "exit"@,
        Builtin::Echo => "echo"@,
        Builtin::Type => "type"@,
        Builtin::Pwd => "pwd"@,
        Builtin::Cd => "cd"@,
    }
}

impl Builtin {
    /// The builtin named `s`, if any.
    pub fn from_name(s: &str) -> (r: Option<Builtin>)
        ensures
            r == builtin_named(s@),
    {
        if same_text(s, "exit") {
            Some(Builtin::Exit)
        } else if same_text(s, "echo") {
            Some(Builtin::Echo)
        } else if same_text(s, "type") {
            Some(Builtin::Type)
        } else if same_text(s, "pwd") {
            Some(Builtin::Pwd)
        } else if same_text(s, "cd") {
            Some(Builtin::Cd)
        } else {
            None
        }
    }

    /// The name under which this builtin is invoked.
    pub fn name(&self) -> (r: &'static str)
        ensures
            r@ == spec_name(*self),
    {
        match self {
            Builtin::Exit => "exit",
            Builtin::Echo => "echo",
            Builtin::Type => "type",
            Builtin::Pwd => "pwd",
            Builtin::Cd => "cd",
        }
    }
}

impl core::str::FromStr for Builtin {
    type Err = &'static str;

    fn from_str(s: &str) -> (r: Result<Builtin, &'static str>)
        ensures
            r is Ok <==> builtin_named(s@) is Some,
            r is Ok ==> r->Ok_0 == builtin_named(s@)->0,
            r is Err ==> r->Err_0@ == "Not a builtin command"@,
    {
        match Builtin::from_name(s) {
            Some(b) => Ok(b),
            None => Err("Not a builtin command"),
        }
    }
}

/// `echo`: the arguments joined by single spaces.
pub fn run_echo(args: &[String]) -> (r: String)
    ensures
        r@ == spaced(texts(args@)),
{
    join_spaced(args)
}

/// What `type` reports of `name`, where `found` is what the search path
/// gives for it.
pub open spec fn type_report(name: Seq<char>, found: Option<Seq<char>>) -> Seq<char> {
    if builtin_named(name) is Some {
        name + " is a shell builtin"@
    } else if found is Some {
        name + " is "@ + found->0
    } else {
        name + ": not found"@
    }
}

/// `type`: whether the first argument names a builtin, a program found on
/// the search path (`found`, the resolver's answer for it), or nothing.
pub fn run_type(args: &[String], found: &Option<String>) -> (r: String)
    requires
        args@.len() >= 1,
    ensures
        r@ == type_report(args@[0]@, opt_text(*found)),
{
    let name = args[0].as_str();
    if Builtin::from_name(name).is_some() {
        joined(name, " is a shell builtin")
    } else {
        match found {
            Some(p) => {
                let mut r = joined(name, " is ");
                r.append(p.as_str());
                r
            },
            None => joined(name, ": not found"),
        }
    }
}

/// Whether `cd` with these arguments needs the home directory.
pub open spec fn needs_home(args: Seq<Seq<char>>) -> bool {
    args.len() == 0 || (args[0].len() > 0 && args[0][0] == '~')
}

/// The directory that `cd` goes to: the home directory without an argument,
/// the home directory followed by the rest of an argument that starts with
/// `~`, else the argument itself.
pub open spec fn cd_path(args: Seq<Seq<char>>, home: Seq<char>) -> Seq<char> {
    if args.len() == 0 {
        home
    } else if needs_home(args) {
        home + args[0].drop_first()
    } else {
        args[0]
    }
}

/// Whether `cd` with these arguments needs the home directory.
pub fn cd_needs_home(args: &[String]) -> (r: bool)
    ensures
        r == needs_home(texts(args@)),
{
    args.len() == 0 || (args[0].as_str().unicode_len() > 0 && args[0].as_str().get_char(0) == '~')
}

/// The directory that `cd` goes to, given the home directory.
pub fn cd_target(args: &[String], home: &str) -> (r: String)
    ensures
        r@ == cd_path(texts(args@), home@),
{
    if args.len() == 0 {
        return String::from_str(home);
    }
    let arg = args[0].as_str();
    let n = arg.unicode_len();
    if n > 0 && arg.get_char(0) == '~' {
        let rest = arg.substring_char(1, n);
        proof {
            assert(rest@ =~= arg@.drop_first());
        }
        joined(home, rest)
    } else {
        args[0].clone()
    }
}

/// `cd ~` goes to exactly the home directory.
pub proof fn lemma_tilde_is_home(home: Seq<char>)
    ensures
        cd_path(seq![seq!['~']], home) == home,
{
    assert(seq!['~'].drop_first() =~= Seq::<char>::empty());
    assert(home + Seq::<char>::empty() =~= home);
}

} // verus!
