//! The decisions of the command line: which flag an argument is, and how
//! the chosen action and options combine.
use vstd::prelude::*;
use crate::err::Error;
use crate::text::str_eq;

verus! {

/// What the program is asked to do.
#[derive(Debug)]
pub enum Action {
    /// Show the help.
    Help,
    /// Encode the album in the given directory.
    Encode(String),
}

/// What one command-line argument asks for.
#[derive(Clone, Copy, Debug, PartialEq, Eq, Structural)]
pub enum Flag {
    /// `-h`, `--help` or `-?`.
    Help,
    /// `-e` or `--encode`, followed by the album directory.
    Encode,
    /// `-o` or `--output`, followed by the output directory.
    Output,
    /// `-i` or `--interactive`.
    Interactive,
    /// An argument that does not start with `-`: the output directory.
    Positional,
    /// Any other argument starting with `-`.
    Unknown,
}

/// The flag that the argument `a` is.
pub open spec fn flag_of(a: Seq<char>) -> Flag {
    if a == "-h"@ || a == "--help"@ || a == "-?"@ {
        Flag::Help
    } else if a == "-e"@ || a == "--encode"@ {
        Flag::Encode
    } else if a == "-o"@ || a == "--output"@ {
        Flag::Output
    } else if a == "-i"@ || a == "--interactive"@ {
        Flag::Interactive
    } else if a.len() == 0 || a[0] != '-' {
        Flag::Positional
    } else {
        Flag::Unknown
    }
}

/// Which flag the argument `arg` is.
pub fn classify_arg(arg: &str) -> (r: Flag)
    ensures
        r == flag_of(arg@),
{
    if str_eq(arg, "-h") || str_eq(arg, "--help") || str_eq(arg, "-?") {
        Flag::Help
    } else if str_eq(arg, "-e") || str_eq(arg, "--encode") {
        Flag::Encode
    } else if str_eq(arg, "-o") || str_eq(arg, "--output") {
        Flag::Output
    } else if str_eq(arg, "-i") || str_eq(arg, "--interactive") {
        Flag::Interactive
    } else {
        let v = crate::text::chars_of(arg);
        if v.len() == 0 || v[0] != '-' {
            Flag::Positional
        } else {
            Flag::Unknown
        }
    }
}

/// The parsed command line.
#[derive(Debug)]
pub struct Args {
    action: Option<Action>,
    output: Option<String>,
    pub interactive: bool,
}

impl Args {
    /// The action chosen so far.
    pub closed spec fn action_of(&self) -> Option<Action> {
        self.action
    }

    /// The output directory given so far.
    pub closed spec fn output_of(&self) -> Option<Seq<char>> {
        self.output.deep_view()
    }

    /// Whether interactive editing was asked for.
    pub closed spec fn interactive_of(&self) -> bool {
        self.interactive
    }

    /// No action, no output directory, not interactive.
    pub fn new() -> (r: Args)
        ensures
            r.action_of() is None,
            r.output_of() is None,
            !r.interactive_of(),
    {
        Args { action: None, output: None, interactive: false }
    }

    /// The output directory; the current one (`.`) where none was given.
    pub fn output(&self) -> (r: &str)
        ensures
            r@ == (match self.output_of() {
                Some(o) => o,
                None => "."@,
            }),
    {
        match &self.output {
            Some(o) => o.as_str(),
            None => ".",
        }
    }

    /// The chosen action.
    pub fn action(&self) -> (r: &Action)
        requires
            self.action_of() is Some,
        ensures
            self.action_of() == Some(*r),
    {
        match &self.action {
            Some(a) => a,
            None => {
                proof {
                    assert(false);
                }
                &self.action.as_ref().unwrap()
            },
        }
    }

    /// Sets the output directory.
    pub fn set_output(&mut self, output: String)
        ensures
            final(self).output_of() == Some(output@),
            final(self).action_of() == old(self).action_of(),
            final(self).interactive_of() == old(self).interactive_of(),
    {
        self.output = Some(output);
    }

    /// Chooses to encode the album in `path`; fails where an action was
    /// already chosen.
    pub fn set_encode(&mut self, path: String) -> (r: Result<(), Error>)
        ensures
            final(self).output_of() == old(self).output_of(),
            final(self).interactive_of() == old(self).interactive_of(),
            match old(self).action_of() {
                Some(_) => final(self).action_of() == old(self).action_of() && (r matches Err(
                    Error::InvalidUsage(m),
                ) && m@ == "Multiple actions specified."@),
                None => r is Ok && final(self).action_of() == Some(Action::Encode(path)),
            },
    {
        if self.action.is_some() {
            Err(Error::InvalidUsage("Multiple actions specified.".to_owned()))
        } else {
            self.action = Some(Action::Encode(path));
            Ok(())
        }
    }

    /// Chooses to show the help; fails where an action was already chosen.
    pub fn set_help(&mut self) -> (r: Result<(), Error>)
        ensures
            final(self).output_of() == old(self).output_of(),
            final(self).interactive_of() == old(self).interactive_of(),
            match old(self).action_of() {
                Some(_) => final(self).action_of() == old(self).action_of() && (r matches Err(
                    Error::InvalidUsage(m),
                ) && m@ == "Multiple actions specified."@),
                None => r is Ok && final(self).action_of() == Some(Action::Help),
            },
    {
        if self.action.is_some() {
            Err(Error::InvalidUsage("Multiple actions specified.".to_owned()))
        } else {
            self.action = Some(Action::Help);
            Ok(())
        }
    }

    /// Checks that an action was chosen. On success, gives the flags that
    /// the chosen action does not use: `-i` and `-o` where help was asked
    /// for and they were given.
    pub fn validate(&self) -> (r: Result<Vec<String>, Error>)
        ensures
            match self.action_of() {
                None => r matches Err(Error::InvalidUsage(m)) && m@ == "Missing action."@,
                Some(Action::Help) => r matches Ok(u) && u.deep_view() == (if self.interactive_of() {
                    seq!["-i"@]
                } else {
                    Seq::empty()
                }) + (if self.output_of() is Some {
                    seq!["-o"@]
                } else {
                    Seq::empty()
                }),
                Some(Action::Encode(_)) => r matches Ok(u) && u@.len() == 0,
            },
    {
        let mut useless: Vec<String> = Vec::new();
        match &self.action {
            None => {
                return Err(Error::InvalidUsage("Missing action.".to_owned()));
            },
            Some(Action::Help) => {
                if self.interactive {
                    useless.push("-i".to_owned());
                }
                if self.output.is_some() {
                    useless.push("-o".to_owned());
                }
                proof {
                    assert(useless.deep_view() =~= (if self.interactive {
                        seq!["-i"@]
                    } else {
                        Seq::empty()
                    }) + (if self.output_of() is Some {
                        seq!["-o"@]
                    } else {
                        Seq::empty()
                    }));
                }
            },
            Some(Action::Encode(_)) => {},
        }
        Ok(useless)
    }
}

} // verus!
