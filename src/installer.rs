use vstd::prelude::*;

use std::io::Read;

use crate::package::{ExtractCommand, Package};
use crate::text::{trim, trimmed};

verus! {

/// The path `name` joined onto the directory `base`, as `Path::join` builds it.
pub uninterp spec fn joined(base: Seq<char>, name: Seq<char>) -> Seq<char>;

/// The last component of a path, as `Path::file_name` finds it.
pub uninterp spec fn file_name_of(path: Seq<char>) -> Option<Seq<char>>;

/// A path with the extension of its last component removed, as
/// `PathBuf::set_extension("")` leaves it.
pub uninterp spec fn without_extension(path: Seq<char>) -> Seq<char>;

/// What decoding `data` as one or more xz streams (or `.lzma` data) yields, if it is valid.
pub uninterp spec fn xz_decoded(data: Seq<u8>) -> Option<Seq<u8>>;

/// What decoding `data` as a bzip2 stream yields, if it is valid.
pub uninterp spec fn bz2_decoded(data: Seq<u8>) -> Option<Seq<u8>>;

/// Relies on `Path::join`: the joined path depends on the two paths alone.
#[verifier::external_body]
pub(crate) fn join_path(base: &str, name: &str) -> (r: String)
    ensures
        r@ == joined(base@, name@),
{
    std::path::Path::new(base).join(name).to_string_lossy().into_owned()
}

/// Relies on `Path::file_name`: the last normal component, `None` when the path
/// ends in `..` or has no component.
#[verifier::external_body]
pub(crate) fn path_file_name(path: &str) -> (r: Option<String>)
    ensures
        r matches Some(n) ==> file_name_of(path@) == Some(n@),
        r is None ==> file_name_of(path@) is None,
{
    std::path::Path::new(path).file_name().map(|n| n.to_string_lossy().into_owned())
}

/// Relies on `PathBuf::set_extension` with an empty extension: the last extension of
/// the file name is dropped.
#[verifier::external_body]
pub(crate) fn path_without_extension(path: &str) -> (r: String)
    ensures
        r@ == without_extension(path@),
{
    let mut p = std::path::PathBuf::from(path);
    p.set_extension("");
    p.to_string_lossy().into_owned()
}

/// Relies on xz2's `XzDecoder::new_multi_decoder`, read to the end: its automatic
/// decoder takes every xz stream of `data` (or legacy `.lzma` data); invalid data is an
/// error.
#[verifier::external_body]
fn decode_xz(data: &[u8]) -> (r: Result<Vec<u8>, String>)
    ensures
        r matches Ok(v) ==> xz_decoded(data@) == Some(v@),
        r is Err ==> xz_decoded(data@) is None,
{
    let mut out = Vec::new();
    match xz2::read::XzDecoder::new_multi_decoder(data).read_to_end(&mut out) {
        Ok(_) => Ok(out),
        Err(e) => Err(e.to_string()),
    }
}

/// Relies on bzip2's `BzDecoder`, read to the end: the bzip2 stream of `data` is
/// decoded; an invalid stream is an error.
#[verifier::external_body]
fn decode_bz2(data: &[u8]) -> (r: Result<Vec<u8>, String>)
    ensures
        r matches Ok(v) ==> bz2_decoded(data@) == Some(v@),
        r is Err ==> bz2_decoded(data@) is None,
{
    let mut out = Vec::new();
    match bzip2::read::BzDecoder::new(data).read_to_end(&mut out) {
        Ok(_) => Ok(out),
        Err(e) => Err(e.to_string()),
    }
}

/// A failed installation step of one package.
#[derive(Clone, Debug, PartialEq)]
pub struct InstallerError {
    pub package_id: String,
    pub message: String,
}

/// What changes while the steps of one package run.
#[derive(Clone, Debug, PartialEq)]
pub struct InstallerState {
    /// The last downloaded archive.
    pub download_file: Option<String>,
    /// Where copies and build scripts start from.
    pub current_dir: String,
}

/// The directories of one package's installation and its running state.
#[derive(Clone, Debug, PartialEq)]
pub struct Installer {
    pub package_id: String,
    /// Root of all installed packages.
    pub packages_dir: String,
    /// Final destination of this package.
    pub package_dir: String,
    /// Scratch directory of this package, which holds the build script.
    pub installer_dir: String,
    pub download_dir: String,
    pub extract_dir: String,
    pub state: InstallerState,
}

/// A root entry of the extraction directory: its name, and whether it is a directory.
pub type Entry = (String, bool);

/// The directory that copies and scripts start from after unpacking into `extract_dir`,
/// given its root entries: the single top-level directory if that is all there is,
/// else the extraction root.
pub open spec fn settled_dir(extract_dir: Seq<char>, entries: Seq<(Seq<char>, bool)>) -> Seq<char> {
    if entries.len() == 1 && entries[0].1 {
        joined(extract_dir, entries[0].0)
    } else {
        extract_dir
    }
}

pub open spec fn entries_view(v: Seq<Entry>) -> Seq<(Seq<char>, bool)> {
    v.map_values(|e: Entry| (e.0@, e.1))
}

/// What the decoder for `format` makes of `data`; `None` for a format that is not
/// decompressed to an intermediate file, or for invalid data.
pub open spec fn decompressed(format: ExtractCommand, data: Seq<u8>) -> Option<Seq<u8>> {
    match format {
        ExtractCommand::TarXz => xz_decoded(data),
        ExtractCommand::TarBz2 => bz2_decoded(data),
        _ => None,
    }
}

/// The environment that a build script runs with.
pub open spec fn script_env(
    package_dir: Seq<char>,
    packages_dir: Seq<char>,
    download_file: Option<Seq<char>>,
) -> Seq<(Seq<char>, Seq<char>)> {
    let base = seq![("PACKAGE_DIR"@, package_dir), ("PACKAGES_DIR"@, packages_dir)];
    match download_file {
        Some(f) => base.push(("DOWNLOAD_FILE"@, f)),
        None => base,
    }
}

pub open spec fn pairs_view(v: Seq<(String, String)>) -> Seq<(Seq<char>, Seq<char>)> {
    v.map_values(|p: (String, String)| (p.0@, p.1@))
}

/// How a build script is run: the file it is written to, the directory it runs in,
/// and the environment variables it is given.
#[derive(Clone, Debug, PartialEq)]
pub struct ShellContext {
    pub script_file: String,
    pub working_dir: String,
    pub env: Vec<(String, String)>,
}

/// Whether an HTTP status is a success (2xx).
pub fn is_success_status(status: u16) -> (r: bool)
    ensures
        r == (200 <= status && status < 300),
{
    200 <= status && status < 300
}

/// The outcome of a build script: success, or the trimmed text it wrote to its
/// error stream.
pub fn script_outcome(success: bool, stderr: &str) -> (r: Result<(), String>)
    ensures
        success ==> r is Ok,
        !success ==> (r matches Err(m) && m@ == trimmed(stderr@)),
{
    if success {
        Ok(())
    } else {
        Err(trim(stderr))
    }
}

/// Decompresses an xz or bzip2 archive into the tar archive it holds.
pub fn uncompress(format: ExtractCommand, data: &Vec<u8>) -> (r: Result<Vec<u8>, String>)
    requires
        format == ExtractCommand::TarXz || format == ExtractCommand::TarBz2,
    ensures
        r matches Ok(v) ==> decompressed(format, data@) == Some(v@),
        r is Err ==> decompressed(format, data@) is None,
{
    match format {
        ExtractCommand::TarXz => decode_xz(data.as_slice()),
        _ => decode_bz2(data.as_slice()),
    }
}

impl Installer {
    /// Both installers have the same package and directories.
    pub open spec fn same_layout(self, other: Installer) -> bool {
        &&& self.package_id == other.package_id
        &&& self.packages_dir == other.packages_dir
        &&& self.package_dir == other.package_dir
        &&& self.installer_dir == other.installer_dir
        &&& self.download_dir == other.download_dir
        &&& self.extract_dir == other.extract_dir
    }

    /// The installation layout of `package` under the packages root and the work root:
    /// `<packages_dir>/<id>`, and `<work_dir>/<id>` with `download` and `extract` in it.
    pub fn layout(packages_dir: &str, work_dir: &str, package: &Package) -> (r: Installer)
        ensures
            r.package_id@ == package.id@,
            r.packages_dir@ == packages_dir@,
            r.package_dir@ == joined(packages_dir@, package.id@),
            r.installer_dir@ == joined(work_dir@, package.id@),
            r.download_dir@ == joined(joined(work_dir@, package.id@), "download"@),
            r.extract_dir@ == joined(joined(work_dir@, package.id@), "extract"@),
            r.state.download_file is None,
            r.state.current_dir@ == r.extract_dir@,
    {
        let package_id = package.id.clone();
        let package_dir = join_path(packages_dir, package_id.as_str());
        let installer_dir = join_path(work_dir, package_id.as_str());
        let download_dir = join_path(installer_dir.as_str(), "download");
        let extract_dir = join_path(installer_dir.as_str(), "extract");
        let state = InstallerState { download_file: None, current_dir: extract_dir.clone() };
        Installer {
            package_id,
            packages_dir: String::from_str(packages_dir),
            package_dir,
            installer_dir,
            download_dir,
            extract_dir,
            state,
        }
    }

    /// The file that the archive at `url` is downloaded to: its last path component in
    /// the download directory; `None` when the URL has no last component.
    pub fn download_target(&self, url: &str) -> (r: Option<String>)
        ensures
            match file_name_of(url@) {
                Some(n) => r matches Some(f) && f@ == joined(self.download_dir@, n),
                None => r is None,
            },
    {
        match path_file_name(url) {
            Some(name) => Some(join_path(self.download_dir.as_str(), name.as_str())),
            None => None,
        }
    }

    /// Records `file` as the downloaded archive; `cached` tells that it was already
    /// there, so that nothing was fetched.
    pub fn record_download(&mut self, file: String, cached: bool) -> (r: String)
        ensures
            final(self).state.download_file == Some(file),
            final(self).state.current_dir == old(self).state.current_dir,
            final(self).same_layout(*old(self)),
            cached ==> r@ == "File "@ + file@ + " already downloaded"@,
            !cached ==> r@ == "File "@ + file@ + " has been written"@,
    {
        let message = if cached {
            String::from_str("File ").concat(file.as_str()).concat(" already downloaded")
        } else {
            String::from_str("File ").concat(file.as_str()).concat(" has been written")
        };
        self.state.download_file = Some(file);
        message
    }

    /// The archive to unpack: the last downloaded file.
    pub fn extract_source(&self) -> (r: Result<String, String>)
        ensures
            match self.state.download_file {
                Some(f) => r matches Ok(s) && s@ == f@,
                None => r matches Err(m) && m@ == "Download file has not been set"@,
            },
    {
        match &self.state.download_file {
            Some(f) => Ok(f.clone()),
            None => Err(String::from_str("Download file has not been set")),
        }
    }

    /// Where an xz or bzip2 archive is decompressed to before it is unpacked:
    /// the archive's path without its compression suffix.
    pub fn intermediate_file(download_file: &str) -> (r: String)
        ensures
            r@ == without_extension(download_file@),
    {
        path_without_extension(download_file)
    }

    /// After unpacking: enters the single top-level directory of the archive if that is
    /// all it holds, else stays at the extraction root.
    pub fn enter_single_directory(&mut self, entries: &Vec<Entry>) -> (r: String)
        ensures
            final(self).state.current_dir@ == settled_dir(old(self).extract_dir@, entries_view(entries@)),
            final(self).state.download_file == old(self).state.download_file,
            final(self).same_layout(*old(self)),
            r@ == "Extracted file in "@ + final(self).state.current_dir@,
    {
        if entries.len() == 1 && entries[0].1 {
            self.state.current_dir = join_path(self.extract_dir.as_str(), entries[0].0.as_str());
        } else {
            self.state.current_dir = self.extract_dir.clone();
        }
        String::from_str("Extracted file in ").concat(self.state.current_dir.as_str())
    }

    /// The copies that fill the package directory: each root entry of the current
    /// directory, from there to the same name in the package directory.
    pub fn copy_plan(&self, names: &Vec<String>) -> (r: Vec<(String, String)>)
        ensures
            r@.len() == names@.len(),
            forall|i: int|
                0 <= i < names@.len() ==> (#[trigger] pairs_view(r@)[i]) == (
                    joined(self.state.current_dir@, names@[i]@),
                    joined(self.package_dir@, names@[i]@),
                ),
    {
        let mut plan: Vec<(String, String)> = Vec::new();
        let mut i: usize = 0;
        while i < names.len()
            invariant
                i <= names.len(),
                plan@.len() == i,
                forall|j: int|
                    0 <= j < i ==> (#[trigger] pairs_view(plan@)[j]) == (
                        joined(self.state.current_dir@, names@[j]@),
                        joined(self.package_dir@, names@[j]@),
                    ),
            decreases names.len() - i,
        {
            let source = join_path(self.state.current_dir.as_str(), names[i].as_str());
            let target = join_path(self.package_dir.as_str(), names[i].as_str());
            let ghost prev = pairs_view(plan@);
            plan.push((source, target));
            proof {
                assert(pairs_view(plan@) =~= prev.push((source@, target@)));
            }
            i = i + 1;
        }
        plan
    }

    /// How the build script runs: written to `build.sh` in the installer directory, run
    /// in the current directory, with the package directory, the packages root and the
    /// downloaded archive, if any, in its environment.
    pub fn shell_context(&self) -> (r: ShellContext)
        ensures
            r.script_file@ == joined(self.installer_dir@, "build.sh"@),
            r.working_dir@ == self.state.current_dir@,
            pairs_view(r.env@) == script_env(
                self.package_dir@,
                self.packages_dir@,
                match self.state.download_file {
                    Some(f) => Some(f@),
                    None => None,
                },
            ),
    {
        let mut env: Vec<(String, String)> = Vec::new();
        env.push((String::from_str("PACKAGE_DIR"), self.package_dir.clone()));
        env.push((String::from_str("PACKAGES_DIR"), self.packages_dir.clone()));
        if let Some(f) = &self.state.download_file {
            env.push((String::from_str("DOWNLOAD_FILE"), f.clone()));
        }
        proof {
            assert(pairs_view(env@) =~= script_env(
                self.package_dir@,
                self.packages_dir@,
                match self.state.download_file {
                    Some(f) => Some(f@),
                    None => None,
                },
            ));
        }
        ShellContext {
            script_file: join_path(self.installer_dir.as_str(), "build.sh"),
            working_dir: self.state.current_dir.clone(),
            env,
        }
    }
}

} // verus!
