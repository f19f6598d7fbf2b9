use vstd::prelude::*;

use crate::package::{Command, ExtractCommand, Package, PackageView, Step};
use crate::parser::{id_of, Definition, PackageDef};
use crate::text::{has_suffix, str_ends_with};

verus! {

/// An error located in the database text.
#[derive(Clone, Debug, PartialEq)]
pub struct CompileError {
    pub offset: usize,
    pub message: String,
}

/// The archive format that a URL's suffix announces, if any.
pub open spec fn extract_for(url: Seq<char>) -> Option<ExtractCommand> {
    if has_suffix(url, ".tar.gz"@) || has_suffix(url, ".tgz"@) {
        Some(ExtractCommand::TarGz)
    } else if has_suffix(url, ".tar.xz"@) {
        Some(ExtractCommand::TarXz)
    } else if has_suffix(url, ".tar.bz2"@) {
        Some(ExtractCommand::TarBz2)
    } else if has_suffix(url, ".zip"@) {
        Some(ExtractCommand::Zip)
    } else {
        None
    }
}

/// The steps that fetch and unpack `url`.
pub open spec fn fetch_steps(url: Option<Seq<char>>) -> Seq<Step> {
    match url {
        Some(u) => match extract_for(u) {
            Some(e) => seq![Step::Download(u), Step::Extract(e)],
            None => seq![Step::Download(u)],
        },
        None => seq![],
    }
}

/// The steps that fill the package directory: the build script, or else a copy.
pub open spec fn install_steps(build: Option<Seq<char>>) -> Seq<Step> {
    match build {
        Some(b) => seq![Step::Shell(b)],
        None => seq![Step::Copy],
    }
}

/// The compiled form of a definition.
pub open spec fn compiled(d: Definition) -> PackageView {
    PackageView { id: id_of(d.name, d.version), steps: fetch_steps(d.url) + install_steps(d.build) }
}

impl ExtractCommand {
    /// The `Extract` step for the archive format that `url` ends with.
    pub fn get(url: &str) -> (r: Option<Command>)
        ensures
            match r {
                Some(c) => extract_for(url@) == Some(c->Extract_0) && c is Extract,
                None => extract_for(url@) is None,
            },
    {
        if str_ends_with(url, ".tar.gz") || str_ends_with(url, ".tgz") {
            Some(Command::Extract(ExtractCommand::TarGz))
        } else if str_ends_with(url, ".tar.xz") {
            Some(Command::Extract(ExtractCommand::TarXz))
        } else if str_ends_with(url, ".tar.bz2") {
            Some(Command::Extract(ExtractCommand::TarBz2))
        } else if str_ends_with(url, ".zip") {
            Some(Command::Extract(ExtractCommand::Zip))
        } else {
            None
        }
    }
}

impl PackageDef {
    /// The installation steps of this definition: download and extract when it has a
    /// URL, then its build script, or a copy of the staging directory when it has none.
    pub fn compile(&self) -> (r: Package)
        ensures
            r@ == compiled(self@),
    {
        let mut commands: Vec<Command> = Vec::new();
        if let Some(url) = &self.url {
            commands.push(Command::Download(url.clone()));
            if let Some(extract_command) = ExtractCommand::get(url.as_str()) {
                commands.push(extract_command);
            }
        }
        if let Some(build) = &self.build {
            commands.push(Command::Shell(build.clone()));
        }
        if self.build.is_none() {
            commands.push(Command::Copy());
        }
        let id = self.name.clone().concat("@").concat(self.version.as_str());
        let r = Package { id, commands };
        proof {
            assert(r@.steps =~= fetch_steps(self@.url) + install_steps(self@.build));
        }
        r
    }
}

/// A definition fetched as a `.tar.gz` archive, with no build script, compiles to
/// download, extract as gzip-compressed tar, and copy.
pub proof fn lemma_tar_gz_without_build(d: Definition, url: Seq<char>)
    requires
        d.url == Some(url),
        has_suffix(url, ".tar.gz"@),
        d.build is None,
    ensures
        compiled(d).steps == seq![
            Step::Download(url),
            Step::Extract(ExtractCommand::TarGz),
            Step::Copy,
        ],
{
    assert(compiled(d).steps =~= seq![
        Step::Download(url),
        Step::Extract(ExtractCommand::TarGz),
        Step::Copy,
    ]);
}

/// A definition with a URL in a known archive format and a build script compiles to
/// download, extract and run the script, with no copy after it.
pub proof fn lemma_archive_with_build(d: Definition, url: Seq<char>, format: ExtractCommand, build: Seq<char>)
    requires
        d.url == Some(url),
        extract_for(url) == Some(format),
        d.build == Some(build),
    ensures
        compiled(d).steps == seq![Step::Download(url), Step::Extract(format), Step::Shell(build)],
{
    assert(compiled(d).steps =~= seq![
        Step::Download(url),
        Step::Extract(format),
        Step::Shell(build),
    ]);
}

/// A definition with a build script and no URL compiles to running the script alone.
pub proof fn lemma_build_without_url(d: Definition, build: Seq<char>)
    requires
        d.url is None,
        d.build == Some(build),
    ensures
        compiled(d).steps == seq![Step::Shell(build)],
{
    assert(compiled(d).steps =~= seq![Step::Shell(build)]);
}

/// A definition whose URL ends in no known archive suffix, with no build script,
/// compiles to download and copy, with no extraction.
pub proof fn lemma_plain_url_without_build(d: Definition, url: Seq<char>)
    requires
        d.url == Some(url),
        !has_suffix(url, ".tar.gz"@),
        !has_suffix(url, ".tgz"@),
        !has_suffix(url, ".tar.xz"@),
        !has_suffix(url, ".tar.bz2"@),
        !has_suffix(url, ".zip"@),
        d.build is None,
    ensures
        compiled(d).steps == seq![Step::Download(url), Step::Copy],
{
    assert(compiled(d).steps =~= seq![Step::Download(url), Step::Copy]);
}

} // verus!
