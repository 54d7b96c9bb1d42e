use vendor_integrity::lockfile::{
    cargo_lock_deps, download_url, eligible_records, instruction_line, instruction_lines,
    is_eligible, read_lockfile, resolve, resolve_all, vendor_dir_name, DependencyRecord,
    LockfileError, PackageTable,
};

const REGISTRY: &str = "registry+https://github.com/rust-lang/crates.io-index";

const SAMPLE: &str = r#"
version = 3

[[package]]
name = "local-tool"
version = "0.1.0"
dependencies = ["foo"]

[[package]]
name = "foo"
version = "1.2.3"
source = "registry+https://github.com/rust-lang/crates.io-index"
checksum = "abc123"

[[package]]
name = "forked"
version = "0.3.0"
source = "git+https://example.org/forked.git#0123456"

[[package]]
name = "bar"
version = "0.9.0"
source = "registry+https://github.com/rust-lang/crates.io-index"
checksum = "def456"
"#;

fn table(
    name: Option<&str>,
    version: Option<&str>,
    source: Option<&str>,
    checksum: Option<&str>,
) -> PackageTable {
    PackageTable {
        name: name.map(str::to_owned),
        version: version.map(str::to_owned),
        source: source.map(str::to_owned),
        checksum: checksum.map(str::to_owned),
    }
}

fn record(name: &str, version: &str, checksum: Option<&str>) -> DependencyRecord {
    DependencyRecord {
        name: name.to_owned(),
        version: version.to_owned(),
        source: REGISTRY.to_owned(),
        checksum: checksum.map(str::to_owned),
    }
}

#[test]
fn download_url_has_the_registry_endpoint() {
    assert_eq!(
        download_url("foo", "1.2.3"),
        "https://crates.io/api/v1/crates/foo/1.2.3/download"
    );
}

#[test]
fn vendor_dir_name_joins_with_a_hyphen() {
    assert_eq!(vendor_dir_name("foo", "1.2.3"), "foo-1.2.3");
    assert_eq!(vendor_dir_name("", ""), "-");
}

#[test]
fn instruction_line_is_url_directory_checksum() {
    let line = instruction_line(&record("foo", "1.2.3", Some("abc123")));
    assert_eq!(
        line.as_deref(),
        Some("https://crates.io/api/v1/crates/foo/1.2.3/download foo-1.2.3 abc123")
    );
}

#[test]
fn instruction_line_needs_a_checksum() {
    assert_eq!(instruction_line(&record("foo", "1.2.3", None)), None);
}

#[test]
fn instruction_lines_skip_records_without_checksum() {
    let records = vec![
        record("a", "1.0.0", Some("11")),
        record("b", "2.0.0", None),
        record("c", "3.0.0", Some("33")),
    ];
    assert_eq!(
        instruction_lines(&records),
        vec![
            "https://crates.io/api/v1/crates/a/1.0.0/download a-1.0.0 11".to_owned(),
            "https://crates.io/api/v1/crates/c/3.0.0/download c-3.0.0 33".to_owned(),
        ]
    );
    assert!(instruction_lines(&Vec::new()).is_empty());
}

#[test]
fn eligibility_is_exact_equality_with_the_registry_source() {
    assert!(is_eligible(&table(Some("a"), Some("1"), Some(REGISTRY), None)));
    assert!(!is_eligible(&table(Some("a"), Some("1"), None, None)));
    assert!(!is_eligible(&table(
        Some("a"),
        Some("1"),
        Some("registry+https://github.com/rust-lang/crates.io-index/"),
        None
    )));
    assert!(!is_eligible(&table(Some("a"), Some("1"), Some(""), None)));
    assert!(!is_eligible(&table(
        Some("a"),
        Some("1"),
        Some("git+https://example.org/a.git"),
        None
    )));
}

#[test]
fn eligible_records_keep_registry_packages_in_order() {
    let tables = vec![
        table(Some("path-dep"), Some("0.1.0"), None, None),
        table(Some("foo"), Some("1.2.3"), Some(REGISTRY), Some("abc123")),
        table(Some("other"), Some("0.2.0"), Some("registry+https://example.org/index"), Some("ff")),
        table(Some("bar"), Some("0.9.0"), Some(REGISTRY), None),
    ];
    let records = eligible_records(&tables).unwrap();
    assert_eq!(records.len(), 2);
    assert_eq!(records[0].name, "foo");
    assert_eq!(records[0].version, "1.2.3");
    assert_eq!(records[0].source, REGISTRY);
    assert_eq!(records[0].checksum.as_deref(), Some("abc123"));
    assert_eq!(records[1].name, "bar");
    assert_eq!(records[1].version, "0.9.0");
    assert_eq!(records[1].checksum, None);
}

#[test]
fn eligible_records_of_nothing_are_none() {
    assert!(eligible_records(&Vec::new()).unwrap().is_empty());
}

#[test]
fn registry_package_without_version_fails_the_read() {
    let tables = vec![
        table(None, None, None, None),
        table(Some("foo"), None, Some(REGISTRY), Some("abc123")),
        table(None, Some("1.0.0"), Some(REGISTRY), Some("abc123")),
    ];
    assert!(matches!(
        eligible_records(&tables),
        Err(LockfileError::MissingField { index: 1 })
    ));
}

#[test]
fn registry_package_without_name_fails_the_read() {
    let tables = vec![table(None, Some("1.0.0"), Some(REGISTRY), Some("abc123"))];
    assert!(matches!(
        eligible_records(&tables),
        Err(LockfileError::MissingField { index: 0 })
    ));
}

#[test]
fn package_without_source_may_lack_every_field() {
    let tables = vec![table(None, None, None, None)];
    assert!(eligible_records(&tables).unwrap().is_empty());
}

#[test]
fn read_lockfile_filters_the_sample() {
    let records = read_lockfile(SAMPLE).unwrap();
    assert_eq!(records.len(), 2);
    assert_eq!(records[0].name, "foo");
    assert_eq!(records[0].version, "1.2.3");
    assert_eq!(records[0].checksum.as_deref(), Some("abc123"));
    assert_eq!(records[1].name, "bar");
    assert_eq!(records[1].version, "0.9.0");
    assert_eq!(records[1].checksum.as_deref(), Some("def456"));
}

#[test]
fn read_lockfile_rejects_text_that_is_no_toml() {
    match read_lockfile("[[package]\nname = ") {
        Err(LockfileError::Syntax { message }) => assert!(!message.is_empty()),
        other => panic!("unexpected: {:?}", other),
    }
}

#[test]
fn read_lockfile_needs_a_package_array() {
    assert!(matches!(read_lockfile("version = 3\n"), Err(LockfileError::NoPackages)));
    assert!(matches!(read_lockfile(""), Err(LockfileError::NoPackages)));
    assert!(matches!(
        read_lockfile("package = \"not an array\"\n"),
        Err(LockfileError::NoPackages)
    ));
}

#[test]
fn read_lockfile_reports_the_malformed_table() {
    let text = "[[package]]\nname = \"a\"\nversion = \"1.0.0\"\n\n[[package]]\nname = \"b\"\nsource = \"registry+https://github.com/rust-lang/crates.io-index\"\n";
    assert!(matches!(
        read_lockfile(text),
        Err(LockfileError::MissingField { index: 1 })
    ));
}

#[test]
fn read_lockfile_treats_a_field_that_is_no_string_as_missing() {
    let text = "[[package]]\nname = \"a\"\nversion = 7\nsource = \"registry+https://github.com/rust-lang/crates.io-index\"\n";
    assert!(matches!(
        read_lockfile(text),
        Err(LockfileError::MissingField { index: 0 })
    ));
    let other = "[[package]]\nname = \"a\"\nversion = \"1.0.0\"\nsource = 5\n";
    assert!(read_lockfile(other).unwrap().is_empty());
}

#[test]
fn resolve_builds_url_directory_and_checksum() {
    let dep = resolve(&record("foo", "1.2.3", Some("abc123"))).unwrap();
    assert_eq!(dep.download_url, "https://crates.io/api/v1/crates/foo/1.2.3/download");
    assert_eq!(dep.vendor_dir_name, "foo-1.2.3");
    assert_eq!(dep.expected_checksum, "abc123");
    assert!(resolve(&record("foo", "1.2.3", None)).is_none());
}

#[test]
fn resolve_all_fails_on_the_first_missing_checksum() {
    let records = vec![
        record("a", "1.0.0", Some("11")),
        record("b", "2.0.0", None),
        record("c", "3.0.0", None),
    ];
    assert!(matches!(
        resolve_all(&records),
        Err(LockfileError::MissingChecksum { index: 1 })
    ));
}

#[test]
fn cargo_lock_deps_resolves_the_sample_in_file_order() {
    let deps = cargo_lock_deps(SAMPLE).unwrap();
    assert_eq!(deps.len(), 2);
    assert_eq!(deps[0].download_url, "https://crates.io/api/v1/crates/foo/1.2.3/download");
    assert_eq!(deps[0].vendor_dir_name, "foo-1.2.3");
    assert_eq!(deps[0].expected_checksum, "abc123");
    assert_eq!(deps[1].download_url, "https://crates.io/api/v1/crates/bar/0.9.0/download");
    assert_eq!(deps[1].vendor_dir_name, "bar-0.9.0");
    assert_eq!(deps[1].expected_checksum, "def456");
}

#[test]
fn cargo_lock_deps_passes_errors_on() {
    assert!(matches!(cargo_lock_deps("= ="), Err(LockfileError::Syntax { .. })));
    assert!(matches!(cargo_lock_deps("version = 3"), Err(LockfileError::NoPackages)));
    let text = "[[package]]\nname = \"a\"\nversion = \"1.0.0\"\nsource = \"registry+https://github.com/rust-lang/crates.io-index\"\n";
    assert!(matches!(
        cargo_lock_deps(text),
        Err(LockfileError::MissingChecksum { index: 0 })
    ));
}

#[test]
fn read_lockfile_rejects_a_package_element_that_is_no_table() {
    assert!(matches!(
        read_lockfile("package = [1]\n"),
        Err(LockfileError::NotATable { index: 0 })
    ));
    assert!(matches!(
        read_lockfile("package = [\"foo\", \"bar\"]\n"),
        Err(LockfileError::NotATable { index: 0 })
    ));
    assert!(matches!(
        read_lockfile("package = [[1]]\n"),
        Err(LockfileError::NotATable { index: 0 })
    ));
}

#[test]
fn cargo_lock_deps_rejects_a_package_element_that_is_no_table() {
    assert!(matches!(
        cargo_lock_deps("package = [1]\n"),
        Err(LockfileError::NotATable { index: 0 })
    ));
}

#[test]
fn an_empty_package_array_reads_as_no_records() {
    assert!(read_lockfile("package = []\n").unwrap().is_empty());
    assert!(cargo_lock_deps("package = []\n").unwrap().is_empty());
}

#[test]
fn the_first_element_that_is_no_table_is_reported() {
    let text = "package = [{ name = \"a\", version = \"1.0.0\" }, 1, 2]\n";
    assert!(matches!(read_lockfile(text), Err(LockfileError::NotATable { index: 1 })));
}
