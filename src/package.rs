use vstd::prelude::*;

verus! {

/// Archive formats that an `Extract` step knows how to unpack.
#[derive(Clone, Copy, Debug, PartialEq, Eq, Structural)]
pub enum ExtractCommand {
    TarGz,
    TarXz,
    TarBz2,
    Zip,
}

/// One installation step.
#[derive(Clone, Debug, PartialEq)]
pub enum Command {
    /// Fetch the archive at this URL into the download directory.
    Download(String),
    /// Unpack the last downloaded file.
    Extract(ExtractCommand),
    /// Copy the current staging directory into the package directory.
    Copy(),
    /// Run this script text under a shell.
    Shell(String),
}

/// A package compiled into its ordered installation steps.
#[derive(Clone, Debug, PartialEq)]
pub struct Package {
    pub id: String,
    pub commands: Vec<Command>,
}

/// Mathematical model of a `Command`.
pub enum Step {
    Download(Seq<char>),
    Extract(ExtractCommand),
    Copy,
    Shell(Seq<char>),
}

impl View for Command {
    type V = Step;

    open spec fn view(&self) -> Step {
        match self {
            Command::Download(url) => Step::Download(url@),
            Command::Extract(e) => Step::Extract(*e),
            Command::Copy() => Step::Copy,
            Command::Shell(s) => Step::Shell(s@),
        }
    }
}

/// Mathematical model of a `Package`.
pub struct PackageView {
    pub id: Seq<char>,
    pub steps: Seq<Step>,
}

impl View for Package {
    type V = PackageView;

    open spec fn view(&self) -> PackageView {
        PackageView { id: self.id@, steps: self.commands@.map_values(|c: Command| c@) }
    }
}

/// The compiled form of the sample definition `mypackage@0.1.0`, fetched as a `.tar.gz`.
pub fn mypackage() -> (r: Package)
    ensures
        r@.id == "mypackage@0.1.0"@,
        r@.steps == seq![
            Step::Download("http://localhost:8000/mypackage-0.1.0-x86_64-linux.tar.gz"@),
            Step::Extract(ExtractCommand::TarGz),
            Step::Copy,
        ],
{
    let url = String::from_str("http://localhost:8000/mypackage-0.1.0-x86_64-linux.tar.gz");
    let commands = vec![Command::Download(url), Command::Extract(ExtractCommand::TarGz), Command::Copy()];
    proof {
        assert(commands@.map_values(|c: Command| c@) =~= seq![
            Step::Download("http://localhost:8000/mypackage-0.1.0-x86_64-linux.tar.gz"@),
            Step::Extract(ExtractCommand::TarGz),
            Step::Copy,
        ]);
    }
    Package { id: String::from_str("mypackage@0.1.0"), commands }
}

} // verus!
