pub mod compiler;
pub mod dependencies;
pub mod exit;
pub mod installer;
pub mod listing;
pub mod package;
pub mod parser;
pub mod pipeline;
pub mod pos;
pub mod selection;
pub mod text;

pub use compiler::CompileError;
pub use dependencies::{find_package, resolve, resolve as resolve_dependencies, DependencyError};
pub use exit::ExitCode;
pub use installer::{Entry, Installer, InstallerError, InstallerState, ShellContext};
pub use listing::{info_row, name_width, InfoRow};
pub use package::{mypackage, Command, ExtractCommand, Package, PackageView, Step};
pub use parser::{my_package_def, CharClass, Definition, Failure, PackageDef, ParseError, Parser};
pub use pipeline::{Action, Pipeline, Stage};
pub use pos::Pos;
pub use selection::{find_packages, resolve_packages, same_definition};
