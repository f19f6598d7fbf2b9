use store::{find_package, find_packages, resolve, resolve_packages, same_definition, PackageDef};

fn def(name: &str, version: &str, depends: &[&str]) -> PackageDef {
    PackageDef {
        name: name.to_string(),
        version: version.to_string(),
        url: Some(format!("http://h/{}-{}.zip", name, version)),
        build: None,
        depends: depends.iter().map(|d| d.to_string()).collect(),
    }
}

#[test]
fn query_by_name_or_id_resolves() {
    let defs = vec![def("a", "1", &[]), def("b", "2", &[])];
    assert_eq!(find_package(&defs, "b").unwrap(), defs[1]);
    assert_eq!(find_package(&defs, "a@1").unwrap(), defs[0]);
}

#[test]
fn query_with_two_versions_is_ambiguous() {
    let defs = vec![def("a", "1", &[]), def("a", "2", &[])];
    assert_eq!(
        find_package(&defs, "a").err().unwrap(),
        "Package dependency a cannot be uniquely resolved"
    );
    assert_eq!(find_package(&defs, "a@2").unwrap(), defs[1]);
}

#[test]
fn query_matching_nothing_is_not_found() {
    let defs = vec![def("a", "1", &[])];
    assert_eq!(find_package(&defs, "z").err().unwrap(), "Package dependency z cannot be found");
    assert_eq!(find_package(&defs, "a@2").err().unwrap(), "Package dependency a@2 cannot be found");
}

#[test]
fn resolve_pairs_each_query_with_its_definition() {
    let defs = vec![def("app", "1", &["lib", "tool@3"]), def("lib", "1", &[]), def("tool", "3", &["lib@1"])];
    let edges = resolve(&defs).unwrap();
    assert_eq!(
        edges,
        vec![
            ("app@1".to_string(), defs[1].clone()),
            ("app@1".to_string(), defs[2].clone()),
            ("tool@3".to_string(), defs[1].clone()),
        ]
    );
}

#[test]
fn resolve_stops_at_first_failure() {
    let defs = vec![def("app", "1", &["missing", "lib"]), def("lib", "1", &[]), def("lib", "2", &[])];
    assert_eq!(resolve(&defs).err().unwrap(), "Package dependency missing cannot be found");
    let defs = vec![def("app", "1", &["lib", "missing"]), def("lib", "1", &[]), def("lib", "2", &[])];
    assert_eq!(
        resolve(&defs).err().unwrap(),
        "Package dependency lib cannot be uniquely resolved"
    );
}

#[test]
fn find_packages_takes_every_match_per_query() {
    let defs = vec![def("a", "1", &[]), def("b", "1", &[]), def("a", "2", &[])];
    let queries = vec!["a".to_string(), "b@1".to_string()];
    assert_eq!(
        find_packages(&defs, &queries).unwrap(),
        vec![defs[0].clone(), defs[2].clone(), defs[1].clone()]
    );
    let queries = vec!["a".to_string(), "c".to_string()];
    assert_eq!(find_packages(&defs, &queries).err().unwrap(), "Package c is not defined");
}

#[test]
fn resolve_packages_puts_dependencies_first_once() {
    let defs = vec![def("app", "1", &["lib"]), def("lib", "1", &[]), def("cli", "1", &["lib"])];
    let edges = resolve(&defs).unwrap();
    let selected = vec![defs[0].clone(), defs[2].clone(), defs[1].clone()];
    assert_eq!(
        resolve_packages(&selected, &edges),
        vec![defs[1].clone(), defs[0].clone(), defs[2].clone()]
    );
}

#[test]
fn same_definition_compares_every_field() {
    let a = def("a", "1", &["x"]);
    assert!(same_definition(&a, &a.clone()));
    assert!(!same_definition(&a, &def("a", "1", &["y"])));
    assert!(!same_definition(&a, &def("a", "2", &["x"])));
    let mut b = a.clone();
    b.build = Some("make\n".to_string());
    assert!(!same_definition(&a, &b));
}

#[test]
fn duplicate_keeps_every_field() {
    let a = def("a", "1", &["x", "y"]);
    assert_eq!(a.duplicate(), a);
}
