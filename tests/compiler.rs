use store::{my_package_def, mypackage, Command, ExtractCommand, PackageDef};

fn def(url: Option<&str>, build: Option<&str>) -> PackageDef {
    PackageDef {
        name: "p".to_string(),
        version: "1.0".to_string(),
        url: url.map(|u| u.to_string()),
        build: build.map(|b| b.to_string()),
        depends: vec![],
    }
}

#[test]
pub fn test_url_only() {
    assert_eq!(my_package_def().compile(), mypackage())
}

#[test]
fn tar_gz_without_build_downloads_extracts_and_copies() {
    let p = def(Some("http://h/p-1.0.tar.gz"), None).compile();
    assert_eq!(p.id, "p@1.0");
    assert_eq!(
        p.commands,
        vec![
            Command::Download("http://h/p-1.0.tar.gz".to_string()),
            Command::Extract(ExtractCommand::TarGz),
            Command::Copy(),
        ]
    );
}

#[test]
fn build_with_url_has_no_copy() {
    let p = def(Some("http://h/p.tar.xz"), Some("make\n")).compile();
    assert_eq!(
        p.commands,
        vec![
            Command::Download("http://h/p.tar.xz".to_string()),
            Command::Extract(ExtractCommand::TarXz),
            Command::Shell("make\n".to_string()),
        ]
    );
}

#[test]
fn build_without_url_is_only_shell() {
    let p = def(None, Some("echo hi\n")).compile();
    assert_eq!(p.commands, vec![Command::Shell("echo hi\n".to_string())]);
}

#[test]
fn unknown_suffix_has_no_extract() {
    let p = def(Some("http://h/p.bin"), None).compile();
    assert_eq!(
        p.commands,
        vec![Command::Download("http://h/p.bin".to_string()), Command::Copy()]
    );
}

#[test]
fn suffixes_select_formats() {
    let cases = [
        ("a.tgz", Some(ExtractCommand::TarGz)),
        ("a.tar.gz", Some(ExtractCommand::TarGz)),
        ("a.tar.xz", Some(ExtractCommand::TarXz)),
        ("a.tar.bz2", Some(ExtractCommand::TarBz2)),
        ("a.zip", Some(ExtractCommand::Zip)),
        ("a.gz", None),
        ("a.zip.sig", None),
        ("", None),
    ];
    for (url, format) in cases {
        assert_eq!(ExtractCommand::get(url), format.map(Command::Extract), "{}", url);
    }
}
