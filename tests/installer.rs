use std::io::Write;

use store::installer::{is_success_status, script_outcome, uncompress};
use store::{ExtractCommand, Installer, Package};

fn installer() -> Installer {
    let package = Package { id: "p@1".to_string(), commands: vec![] };
    Installer::layout("/store", "/tmp/work", &package)
}

#[test]
fn layout_places_directories_by_id() {
    let inst = installer();
    assert_eq!(inst.package_id, "p@1");
    assert_eq!(inst.packages_dir, "/store");
    assert_eq!(inst.package_dir, "/store/p@1");
    assert_eq!(inst.installer_dir, "/tmp/work/p@1");
    assert_eq!(inst.download_dir, "/tmp/work/p@1/download");
    assert_eq!(inst.extract_dir, "/tmp/work/p@1/extract");
    assert_eq!(inst.state.download_file, None);
    assert_eq!(inst.state.current_dir, "/tmp/work/p@1/extract");
}

#[test]
fn download_target_is_last_url_component() {
    let inst = installer();
    assert_eq!(
        inst.download_target("http://localhost:8000/files/p-1.0.tar.gz"),
        Some("/tmp/work/p@1/download/p-1.0.tar.gz".to_string())
    );
    assert_eq!(inst.download_target("http://host/.."), None);
}

#[test]
fn second_download_of_same_url_uses_the_cached_file() {
    let mut inst = installer();
    let file = inst.download_target("http://h/p.zip").unwrap();
    assert_eq!(
        inst.record_download(file.clone(), false),
        "File /tmp/work/p@1/download/p.zip has been written"
    );
    assert_eq!(inst.download_target("http://h/p.zip"), Some(file.clone()));
    assert_eq!(
        inst.record_download(file.clone(), true),
        "File /tmp/work/p@1/download/p.zip already downloaded"
    );
    assert_eq!(inst.state.download_file, Some(file));
}

#[test]
fn extract_needs_a_download() {
    let mut inst = installer();
    assert_eq!(inst.extract_source(), Err("Download file has not been set".to_string()));
    inst.record_download("/d/p.tar.gz".to_string(), true);
    assert_eq!(inst.extract_source(), Ok("/d/p.tar.gz".to_string()));
}

#[test]
fn intermediate_file_drops_compression_suffix() {
    assert_eq!(Installer::intermediate_file("/d/p-1.0.tar.xz"), "/d/p-1.0.tar");
    assert_eq!(Installer::intermediate_file("/d/p.tar.bz2"), "/d/p.tar");
}

#[test]
fn single_root_directory_is_entered() {
    let mut inst = installer();
    let message = inst.enter_single_directory(&vec![("p-1.0".to_string(), true)]);
    assert_eq!(inst.state.current_dir, "/tmp/work/p@1/extract/p-1.0");
    assert_eq!(message, "Extracted file in /tmp/work/p@1/extract/p-1.0");
}

#[test]
fn tarbomb_stays_at_extraction_root() {
    let mut inst = installer();
    inst.enter_single_directory(&vec![("bin".to_string(), true), ("lib".to_string(), true)]);
    assert_eq!(inst.state.current_dir, "/tmp/work/p@1/extract");
    inst.enter_single_directory(&vec![("README".to_string(), false)]);
    assert_eq!(inst.state.current_dir, "/tmp/work/p@1/extract");
    inst.enter_single_directory(&vec![]);
    assert_eq!(inst.state.current_dir, "/tmp/work/p@1/extract");
}

#[test]
fn copy_plan_maps_current_dir_to_package_dir() {
    let mut inst = installer();
    inst.enter_single_directory(&vec![("p".to_string(), true)]);
    let plan = inst.copy_plan(&vec!["bin".to_string(), "README".to_string()]);
    assert_eq!(
        plan,
        vec![
            ("/tmp/work/p@1/extract/p/bin".to_string(), "/store/p@1/bin".to_string()),
            ("/tmp/work/p@1/extract/p/README".to_string(), "/store/p@1/README".to_string()),
        ]
    );
}

#[test]
fn shell_context_sets_directories_and_environment() {
    let mut inst = installer();
    let context = inst.shell_context();
    assert_eq!(context.script_file, "/tmp/work/p@1/build.sh");
    assert_eq!(context.working_dir, "/tmp/work/p@1/extract");
    assert_eq!(
        context.env,
        vec![
            ("PACKAGE_DIR".to_string(), "/store/p@1".to_string()),
            ("PACKAGES_DIR".to_string(), "/store".to_string()),
        ]
    );
    inst.record_download("/tmp/work/p@1/download/p.tgz".to_string(), false);
    let context = inst.shell_context();
    assert_eq!(context.env.len(), 3);
    assert_eq!(
        context.env[2],
        ("DOWNLOAD_FILE".to_string(), "/tmp/work/p@1/download/p.tgz".to_string())
    );
}

#[test]
fn script_failure_reports_trimmed_stderr() {
    assert_eq!(script_outcome(true, "ignored"), Ok(()));
    assert_eq!(
        script_outcome(false, "  build.sh: line 4: /xxx: No such file or directory\n"),
        Err("build.sh: line 4: /xxx: No such file or directory".to_string())
    );
    assert_eq!(script_outcome(false, ""), Err(String::new()));
}

#[test]
fn success_statuses_are_2xx() {
    assert!(is_success_status(200));
    assert!(is_success_status(204));
    assert!(!is_success_status(199));
    assert!(!is_success_status(301));
    assert!(!is_success_status(404));
}

#[test]
fn uncompress_xz_and_bz2() {
    let tar = b"pretend this is a tar archive".to_vec();

    let mut xz = xz2::write::XzEncoder::new(Vec::new(), 6);
    xz.write_all(&tar).unwrap();
    let xz = xz.finish().unwrap();
    assert_eq!(uncompress(ExtractCommand::TarXz, &xz), Ok(tar.clone()));

    let mut bz = bzip2::write::BzEncoder::new(Vec::new(), bzip2::Compression::default());
    bz.write_all(&tar).unwrap();
    let bz = bz.finish().unwrap();
    assert_eq!(uncompress(ExtractCommand::TarBz2, &bz), Ok(tar.clone()));

    assert!(uncompress(ExtractCommand::TarXz, &tar).is_err());
    assert!(uncompress(ExtractCommand::TarBz2, &tar).is_err());
}
