use store::{info_row, name_width, InfoRow};

#[test]
fn row_of_installed_defined_package() {
    assert_eq!(
        info_row("hurl@1.6.0", Some(2048), true),
        InfoRow {
            name: "hurl".to_string(),
            version: "1.6.0".to_string(),
            size: "2 KB".to_string(),
            obsolete: false,
        }
    );
}

#[test]
fn row_of_defined_package_not_installed() {
    let row = info_row("ruby@2.7.0", None, true);
    assert_eq!(row.size, "-");
    assert!(!row.obsolete);
}

#[test]
fn row_of_obsolete_directory_without_version() {
    let row = info_row("leftover", Some(20), false);
    assert_eq!(row.name, "leftover");
    assert_eq!(row.version, "");
    assert_eq!(row.size, "20 B");
    assert!(row.obsolete);
}

#[test]
fn human_sizes_use_binary_multiples() {
    assert_eq!(info_row("a@1", Some(0), true).size, "0 B");
    assert_eq!(info_row("a@1", Some(1536), true).size, "1.50 KB");
    assert_eq!(info_row("a@1", Some(1024 * 1024), true).size, "1 MB");
}

#[test]
fn width_is_longest_name() {
    let ids = vec!["a@1".to_string(), "openjdk@11.0.2".to_string(), "ruby@2.7.0".to_string()];
    assert_eq!(name_width(&ids), 7);
    assert_eq!(name_width(&vec![]), 0);
}
