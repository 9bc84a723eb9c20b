use slatedb_benchmark::names::validate_name;
use slatedb_benchmark::paths::append_path;

#[test]
fn names_reject_path_components() {
    assert!(validate_name("golden-1", "golden").is_ok());
    assert!(validate_name("../golden", "golden").is_err());
    assert!(validate_name("golden/one", "golden").is_err());
}

#[test]
fn artifact_paths_reject_parent_components() {
    assert!(append_path(vec!["root".to_string()], "../result.json").is_err());
}
