use vendor_integrity::digest::file_digest;
use vendor_integrity::manifest::{
    build_manifest, generate_file_checksums, is_ignored, is_ignored_path, plan_entry, EntryKind,
    FileChecksumManifest, ManifestError, TreeEntry, Visit,
};
use vendor_integrity::text::{join_components, same_text};

const EMPTY_DIGEST: &str = "e3b0c44298fc1c149afbf4c8996fb92427ae41e4649b934ca495991b7852b855";
const ABC_DIGEST: &str = "ba7816bf8f01cfea414140de5dae2223b00361a396177a9cb410ff61f20015ad";

fn parts(path: &[&str]) -> Vec<String> {
    path.iter().map(|p| (*p).to_owned()).collect()
}

fn file(path: &[&str], contents: &[u8]) -> TreeEntry {
    TreeEntry { components: parts(path), kind: EntryKind::File, contents: contents.to_vec() }
}

fn dir(path: &[&str]) -> TreeEntry {
    TreeEntry { components: parts(path), kind: EntryKind::Directory, contents: Vec::new() }
}

fn other(path: &[&str]) -> TreeEntry {
    TreeEntry { components: parts(path), kind: EntryKind::Other, contents: Vec::new() }
}

fn digest_at(files: &serde_json::Map<String, serde_json::Value>, path: &str) -> Option<String> {
    files.get(path).and_then(|v| v.as_str()).map(str::to_owned)
}

#[test]
fn digest_of_no_bytes_is_the_known_one() {
    assert_eq!(file_digest(&Vec::new()), EMPTY_DIGEST);
}

#[test]
fn digest_of_abc_is_the_known_one() {
    assert_eq!(file_digest(&b"abc".to_vec()), ABC_DIGEST);
}

#[test]
fn same_text_compares_characters() {
    assert!(same_text("a/b", "a/b"));
    assert!(!same_text("a/b", "a/B"));
    assert!(same_text("", ""));
}

#[test]
fn join_components_uses_forward_slashes() {
    assert_eq!(join_components(&parts(&["src", "lib.rs"])), "src/lib.rs");
    assert_eq!(join_components(&parts(&["Cargo.toml"])), "Cargo.toml");
    assert_eq!(join_components(&parts(&[])), "");
    assert_eq!(join_components(&parts(&["a", "b", "c"])), "a/b/c");
}

#[test]
fn the_ignored_names_are_the_seven() {
    for name in [
        ".",
        "..",
        ".gitattributes",
        ".gitignore",
        ".cargo-ok",
        ".cargo-checksum.json",
        ".cargo_vcs_info.json",
    ] {
        assert!(is_ignored(name), "{}", name);
    }
    for name in [".git", "Cargo.toml", "", ".cargo", "gitignore", ".GITIGNORE"] {
        assert!(!is_ignored(name), "{}", name);
    }
}

#[test]
fn a_path_is_ignored_by_any_of_its_components() {
    assert!(is_ignored_path(&parts(&["src", ".gitignore"])));
    assert!(is_ignored_path(&parts(&[".cargo-ok", "inner"])));
    assert!(!is_ignored_path(&parts(&["src", "lib.rs"])));
    assert!(!is_ignored_path(&parts(&[])));
}

#[test]
fn every_regular_file_is_listed_once_under_its_relative_path() {
    let entries = vec![
        file(&["Cargo.toml"], b"abc"),
        dir(&["src"]),
        file(&["src", "lib.rs"], b""),
        file(&[".cargo-checksum.json"], b"{}"),
        file(&["src", ".gitignore"], b"target"),
        other(&[".cargo-ok", "link"]),
    ];
    let files = generate_file_checksums(&entries).unwrap();
    assert_eq!(files.len(), 2);
    assert_eq!(digest_at(&files, "Cargo.toml").as_deref(), Some(ABC_DIGEST));
    assert_eq!(digest_at(&files, "src/lib.rs").as_deref(), Some(EMPTY_DIGEST));
    let keys: Vec<&String> = files.keys().collect();
    assert_eq!(keys, vec!["Cargo.toml", "src/lib.rs"]);
}

#[test]
fn an_empty_tree_has_an_empty_manifest() {
    assert_eq!(generate_file_checksums(&Vec::new()).unwrap().len(), 0);
}

#[test]
fn the_order_of_the_entries_does_not_change_the_mapping() {
    let forward = vec![file(&["a"], b"1"), file(&["b", "c"], b"2"), file(&["d"], b"3")];
    let backward = vec![file(&["d"], b"3"), file(&["b", "c"], b"2"), file(&["a"], b"1")];
    let first = generate_file_checksums(&forward).unwrap();
    let second = generate_file_checksums(&backward).unwrap();
    assert_eq!(first, second);
    assert_eq!(first, generate_file_checksums(&forward).unwrap());
}

#[test]
fn two_entries_with_one_relative_path_collide() {
    let entries = vec![
        file(&["a", "b"], b"1"),
        file(&["c"], b"2"),
        file(&["a/b"], b"3"),
    ];
    assert!(matches!(
        generate_file_checksums(&entries),
        Err(ManifestError::PathCollision { index: 2 })
    ));
    assert!(matches!(
        build_manifest(&entries, "00".to_owned()),
        Err(ManifestError::PathCollision { index: 2 })
    ));
}

#[test]
fn a_repeated_file_collides_with_itself() {
    let entries = vec![file(&["a"], b"1"), file(&["a"], b"1")];
    assert!(matches!(
        generate_file_checksums(&entries),
        Err(ManifestError::PathCollision { index: 1 })
    ));
}

#[test]
fn an_entry_that_is_neither_file_nor_directory_stops_the_build() {
    let entries = vec![file(&["a"], b"1"), other(&["link"]), file(&["a"], b"1")];
    assert!(matches!(
        generate_file_checksums(&entries),
        Err(ManifestError::UnsupportedEntry { index: 1 })
    ));
}

#[test]
fn build_manifest_stores_the_package_digest_as_given() {
    let entries = vec![file(&["src", "main.rs"], b"abc")];
    let manifest = build_manifest(&entries, "Not-Hex".to_owned()).unwrap();
    assert_eq!(manifest.package_checksum(), "Not-Hex");
    assert_eq!(manifest.file_checksums().len(), 1);
    assert_eq!(digest_at(manifest.file_checksums(), "src/main.rs").as_deref(), Some(ABC_DIGEST));
}

#[test]
fn insert_refuses_a_key_that_is_present() {
    let mut manifest = FileChecksumManifest::new("pkg".to_owned());
    assert!(manifest.insert("a".to_owned(), "11".to_owned()).is_ok());
    assert!(manifest.insert("b".to_owned(), "22".to_owned()).is_ok());
    assert!(manifest.insert("a".to_owned(), "33".to_owned()).is_err());
    assert_eq!(manifest.file_checksums().len(), 2);
    assert_eq!(digest_at(manifest.file_checksums(), "a").as_deref(), Some("11"));
    assert_eq!(digest_at(manifest.file_checksums(), "b").as_deref(), Some("22"));
}

#[test]
fn render_writes_files_then_package() {
    let entries = vec![file(&["b.txt"], b""), file(&["a", "x.rs"], b"abc")];
    let manifest = build_manifest(&entries, "feed".to_owned()).unwrap();
    let expected = format!(
        "{{\n  \"files\": {{\n    \"b.txt\": \"{}\",\n    \"a/x.rs\": \"{}\"\n  }},\n  \"package\": \"feed\"\n}}",
        EMPTY_DIGEST, ABC_DIGEST
    );
    assert_eq!(manifest.render(), expected);
}

#[test]
fn render_of_an_empty_manifest() {
    let manifest = FileChecksumManifest::new("00".to_owned());
    assert_eq!(manifest.render(), "{\n  \"files\": {},\n  \"package\": \"00\"\n}");
}

#[test]
fn render_reads_back_as_two_members() {
    let entries = vec![file(&["k"], b"abc")];
    let manifest = build_manifest(&entries, "p".to_owned()).unwrap();
    let value: serde_json::Value = serde_json::from_str(&manifest.render()).unwrap();
    let object = value.as_object().unwrap();
    assert_eq!(object.len(), 2);
    assert_eq!(object.get("package").and_then(|v| v.as_str()), Some("p"));
    let files = object.get("files").and_then(|v| v.as_object()).unwrap();
    assert_eq!(files, manifest.file_checksums());
}

#[test]
fn plan_entry_decides_by_name_first_and_then_by_kind() {
    assert_eq!(plan_entry(".gitignore", EntryKind::File), Visit::Skip);
    assert_eq!(plan_entry(".cargo-ok", EntryKind::Directory), Visit::Skip);
    assert_eq!(plan_entry("..", EntryKind::Other), Visit::Skip);
    assert_eq!(plan_entry("src", EntryKind::Directory), Visit::Descend);
    assert_eq!(plan_entry("lib.rs", EntryKind::File), Visit::Hash);
    assert_eq!(plan_entry("link", EntryKind::Other), Visit::Reject);
}

#[test]
fn digests_are_sixty_four_lowercase_hexadecimal_digits() {
    for contents in [&b""[..], &b"abc"[..], &[0u8, 255, 17][..]] {
        let digest = file_digest(&contents.to_vec());
        assert_eq!(digest.len(), 64);
        assert!(digest.chars().all(|c| matches!(c, '0'..='9' | 'a'..='f')));
    }
}
