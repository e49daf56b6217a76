//! The command line of the compiler, as plain data, and the decisions that
//! the driver takes from it.
use vstd::prelude::*;

verus! {

/// The options of the command line.
#[derive(Debug)]
pub struct Cli {
    /// Configuration file for pretty printing or the project root.
    pub config: Option<String>,
    /// Turn on debugging information.
    pub debug: bool,
    /// Show warning messages.
    pub warning: bool,
    /// Disable colors in error messages.
    pub no_color: bool,
    /// How many threads the evaluator may use.
    pub tids: Option<usize>,
    /// Print every function and its evaluation.
    pub trace: bool,
    /// Only ASCII characters in error messages.
    pub ascii: bool,
    /// An entry point that the erasure checker keeps besides `Main`.
    pub entrypoint: Option<String>,
    pub root: Option<String>,
    pub command: Command,
}

/// The subcommands; each names the file it works on.
#[derive(Debug)]
pub enum Command {
    Check { file: String },
    Eval { file: String },
    ToKindCore { file: String },
    Erase { file: String },
    Run { file: String },
    GenChecker { file: String },
    Show { file: String },
    ToKDL { file: String, namespace: Option<String> },
    ToHVM { file: String },
}

impl Command {
    pub open spec fn file_spec(&self) -> Seq<char> {
        match self {
            Command::Check { file } => file@,
            Command::Eval { file } => file@,
            Command::ToKindCore { file } => file@,
            Command::Erase { file } => file@,
            Command::Run { file } => file@,
            Command::GenChecker { file } => file@,
            Command::Show { file } => file@,
            Command::ToKDL { file, .. } => file@,
            Command::ToHVM { file } => file@,
        }
    }

    /// The file that the command works on.
    pub fn file(&self) -> (r: &String)
        ensures
            r@ == self.file_spec(),
    {
        match self {
            Command::Check { file } => file,
            Command::Eval { file } => file,
            Command::ToKindCore { file } => file,
            Command::Erase { file } => file,
            Command::Run { file } => file,
            Command::GenChecker { file } => file,
            Command::Show { file } => file,
            Command::ToKDL { file, .. } => file,
            Command::ToHVM { file } => file,
        }
    }
}

impl Cli {
    /// The entry points to keep: `Main`, then the one given, if any.
    pub fn entrypoints(&self) -> (r: Vec<String>)
        ensures
            r@.len() == if self.entrypoint is Some { 2int } else { 1int },
            r@[0]@ == "Main"@,
            self.entrypoint matches Some(e) ==> r@[1]@ == e@,
    {
        let mut v: Vec<String> = Vec::new();
        v.push(String::from_str("Main"));
        match &self.entrypoint {
            Some(e) => v.push(e.clone()),
            None => {},
        }
        v
    }

    /// The project root: the one given, else the current directory.
    pub fn root_dir(&self) -> (r: String)
        ensures
            self.root matches Some(d) ==> r@ == d@,
            self.root is None ==> r@ == "."@,
    {
        match &self.root {
            Some(d) => d.clone(),
            None => String::from_str("."),
        }
    }

    /// The namespace of a compilation to Kindelia: the one given, else
    /// none.
    pub fn namespace(&self) -> (r: String)
        ensures
            self.command matches Command::ToKDL { namespace: Some(n), .. } ==> r@ == n@,
            !(self.command matches Command::ToKDL { namespace: Some(_), .. }) ==> r@ == ""@,
    {
        match &self.command {
            Command::ToKDL { namespace: Some(n), .. } => n.clone(),
            _ => {
                proof {
                    reveal_strlit("");
                }
                String::new()
            },
        }
    }
}

} // verus!
