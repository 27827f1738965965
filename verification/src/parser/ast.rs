//! The parsed form of a simple command.
use vstd::prelude::*;
use crate::text::views;

verus! {

/// Where an output stream of a command goes.
pub enum Redirect {
    /// The stream is not redirected.
    Inherit,
    Overwrite(String),
    Append(String),
}

/// The model of a [`Redirect`]: the same choice, over character sequences.
pub enum RedirectModel {
    Inherit,
    Overwrite(Seq<char>),
    Append(Seq<char>),
}

impl View for Redirect {
    type V = RedirectModel;

    open spec fn view(&self) -> RedirectModel {
        match self {
            Redirect::Inherit => RedirectModel::Inherit,
            Redirect::Overwrite(p) => RedirectModel::Overwrite(p@),
            Redirect::Append(p) => RedirectModel::Append(p@),
        }
    }
}

impl Redirect {
    /// A copy of this redirect.
    pub fn duplicate(&self) -> (r: Redirect)
        ensures
            r@ == self@,
    {
        match self {
            Redirect::Inherit => Redirect::Inherit,
            Redirect::Overwrite(p) => Redirect::Overwrite(p.clone()),
            Redirect::Append(p) => Redirect::Append(p.clone()),
        }
    }

    /// Whether output is sent to a file.
    pub fn is_file(&self) -> (b: bool)
        ensures
            b == !(self@ is Inherit),
    {
        !matches!(self, Redirect::Inherit)
    }
}

/// A simple command: its name, its arguments and the redirects of its two output streams.
pub struct Command {
    pub name: String,
    pub args: Vec<String>,
    pub stdout: Redirect,
    pub stderr: Redirect,
}

/// The model of a [`Command`].
pub struct CommandModel {
    pub name: Seq<char>,
    pub args: Seq<Seq<char>>,
    pub stdout: RedirectModel,
    pub stderr: RedirectModel,
}

impl View for Command {
    type V = CommandModel;

    open spec fn view(&self) -> CommandModel {
        CommandModel {
            name: self.name@,
            args: views(self.args@),
            stdout: self.stdout@,
            stderr: self.stderr@,
        }
    }
}

} // verus!
