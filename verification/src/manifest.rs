//! The checksum manifest of a vendored directory: one digest per regular
//! file, keyed by the file's path below the directory.

use crate::digest::{digest_shaped, file_digest, sha256_hex_digest};
use crate::json::{
    all_text, as_text_members, clone_object, contains_key, distinct_keys, has_key, insert_object,
    insert_text, json_members, json_pretty, new_object, text_pairs, to_pretty, Member,
};
use crate::text::{join_components, joined, same_text, views};
use vstd::prelude::*;

verus! {

/// What kind of thing a directory entry is.
#[derive(Clone, Copy, Debug, PartialEq, Eq)]
pub enum EntryKind {
    /// A regular file.
    File,
    /// A directory.
    Directory,
    /// Anything else: a symbolic link, a device, a socket.
    Other,
}

/// One entry found below the root of a vendored directory.
pub struct TreeEntry {
    /// The names on the way from the root to the entry, the entry's own
    /// name last.
    pub components: Vec<String>,
    /// The kind of the entry.
    pub kind: EntryKind,
    /// The bytes of a regular file; empty for the other kinds.
    pub contents: Vec<u8>,
}

/// A [`TreeEntry`] as plain mathematical values.
pub struct EntryModel {
    pub components: Seq<Seq<char>>,
    pub kind: EntryKind,
    pub contents: Seq<u8>,
}

impl View for TreeEntry {
    type V = EntryModel;

    open spec fn view(&self) -> EntryModel {
        EntryModel {
            components: views(self.components@),
            kind: self.kind,
            contents: self.contents@,
        }
    }
}

/// The models of a sequence of entries, one for one.
pub open spec fn models(entries: Seq<TreeEntry>) -> Seq<EntryModel> {
    Seq::new(entries.len(), |i: int| entries[i]@)
}

/// Why a manifest could not be built.
#[derive(Debug)]
pub enum ManifestError {
    /// The entry at `index` is neither a regular file nor a directory.
    UnsupportedEntry { index: usize },
    /// The entry at `index` has the relative path of an earlier file.
    PathCollision { index: usize },
}

/// The path that was to be inserted is already a key of the manifest.
#[derive(Debug)]
pub struct DuplicatePath {}

/// The names that are never hashed: the directory's own markers, version
/// control metadata and earlier checksum manifests.
pub open spec fn ignored_name(name: Seq<char>) -> bool {
    ||| name == "."@
    ||| name == ".."@
    ||| name == ".gitattributes"@
    ||| name == ".gitignore"@
    ||| name == ".cargo-ok"@
    ||| name == ".cargo-checksum.json"@
    ||| name == ".cargo_vcs_info.json"@
}

/// Whether any name on the way to the entry is ignored.
pub open spec fn ignored_path(components: Seq<Seq<char>>) -> bool {
    exists|i: int| 0 <= i < components.len() && ignored_name(#[trigger] components[i])
}

/// Whether the entry is a regular file that the manifest lists.
pub open spec fn hashed(entry: EntryModel) -> bool {
    !ignored_path(entry.components) && entry.kind is File
}

/// Whether the entry stops the build: it is not ignored and is neither a
/// file nor a directory.
pub open spec fn unsupported(entry: EntryModel) -> bool {
    !ignored_path(entry.components) && entry.kind is Other
}

/// The manifest line of a regular file: its relative path with forward
/// slashes and the digest of its bytes.
pub open spec fn line_of(entry: EntryModel) -> (Seq<char>, Seq<char>) {
    (joined(entry.components), sha256_hex_digest(entry.contents))
}

/// The lines after the entry at `index` has been visited.
pub open spec fn visit(
    files: Seq<(Seq<char>, Seq<char>)>,
    entry: EntryModel,
    index: int,
) -> Result<Seq<(Seq<char>, Seq<char>)>, ManifestError> {
    if unsupported(entry) {
        Err(ManifestError::UnsupportedEntry { index: index as usize })
    } else if !hashed(entry) {
        Ok(files)
    } else if has_key(files, joined(entry.components)) {
        Err(ManifestError::PathCollision { index: index as usize })
    } else {
        Ok(files.push(line_of(entry)))
    }
}

/// The lines of the first `n` entries, visited in order, or the first
/// error on the way.
pub open spec fn checksums(entries: Seq<EntryModel>, n: int) -> Result<
    Seq<(Seq<char>, Seq<char>)>,
    ManifestError,
>
    decreases n,
{
    if n <= 0 {
        Ok(Seq::empty())
    } else {
        match checksums(entries, n - 1) {
            Err(e) => Err(e),
            Ok(files) => visit(files, entries[n - 1], n - 1),
        }
    }
}

/// Whether the digest of every line has the shape of a digest.
pub open spec fn digests_shaped(lines: Seq<(Seq<char>, Seq<char>)>) -> bool {
    forall|k: int| 0 <= k < lines.len() ==> digest_shaped((#[trigger] lines[k]).1)
}

/// Tells whether a file or directory name is one of the ignored names.
pub fn is_ignored(name: &str) -> (ignored: bool)
    ensures
        ignored == ignored_name(name@),
{
    same_text(name, ".") || same_text(name, "..") || same_text(name, ".gitattributes")
        || same_text(name, ".gitignore") || same_text(name, ".cargo-ok") || same_text(
        name,
        ".cargo-checksum.json",
    ) || same_text(name, ".cargo_vcs_info.json")
}

/// Tells whether any component of a path is ignored.
pub fn is_ignored_path(components: &Vec<String>) -> (ignored: bool)
    ensures
        ignored == ignored_path(views(components@)),
{
    let mut i: usize = 0;
    while i < components.len()
        invariant
            0 <= i <= components.len(),
            forall|j: int| 0 <= j < i ==> !ignored_name(#[trigger] views(components@)[j]),
        decreases components.len() - i,
    {
        if is_ignored(components[i].as_str()) {
            assert(ignored_name(views(components@)[i as int]));
            return true;
        }
        i = i + 1;
    }
    false
}

/// What is done with one entry of a directory that is being walked.
#[derive(Clone, Copy, Debug, PartialEq, Eq)]
pub enum Visit {
    /// The name is ignored: the entry is passed over, and not entered
    /// where it is a directory.
    Skip,
    /// A directory: its entries are walked in turn.
    Descend,
    /// A regular file: its bytes are read and hashed.
    Hash,
    /// Neither: the build cannot go on.
    Reject,
}

/// What is done with an entry of the given name and kind.
pub open spec fn visit_of(name: Seq<char>, kind: EntryKind) -> Visit {
    if ignored_name(name) {
        Visit::Skip
    } else {
        match kind {
            EntryKind::Directory => Visit::Descend,
            EntryKind::File => Visit::Hash,
            EntryKind::Other => Visit::Reject,
        }
    }
}

/// Decides what a walk does with one directory entry.
pub fn plan_entry(name: &str, kind: EntryKind) -> (visit: Visit)
    ensures
        visit == visit_of(name@, kind),
{
    if is_ignored(name) {
        Visit::Skip
    } else {
        match kind {
            EntryKind::Directory => Visit::Descend,
            EntryKind::File => Visit::Hash,
            EntryKind::Other => Visit::Reject,
        }
    }
}

/// Hashes every regular file among `entries` that is not ignored and
/// returns the object that maps each relative path to its digest, in the
/// order of the entries. Directories and ignored entries are passed
/// over. The first entry of another kind, or the first file whose path
/// is already a key, ends the walk with an error.
pub fn generate_file_checksums(entries: &Vec<TreeEntry>) -> (result: Result<
    serde_json::Map<String, serde_json::Value>,
    ManifestError,
>)
    ensures
        match result {
            Ok(files) => all_text(json_members(files)) && (checksums(
                models(entries@),
                entries.len() as int,
            ) matches Ok(lines) && lines == text_pairs(json_members(files))),
            Err(e) => checksums(models(entries@), entries.len() as int) matches Err(first)
                && first == e,
        },
        result is Ok <==> listable(models(entries@), entries.len() as int),
        result matches Ok(files) ==> distinct_keys(json_members(files)) && digests_shaped(
            text_pairs(json_members(files)),
        ),
{
    let mut files = new_object();
    let mut i: usize = 0;
    while i < entries.len()
        invariant
            0 <= i <= entries.len(),
            all_text(json_members(files)),
            digests_shaped(text_pairs(json_members(files))),
            checksums(models(entries@), i as int) matches Ok(lines) && lines =~= text_pairs(
                json_members(files),
            ),
        decreases entries.len() - i,
    {
        let entry = &entries[i];
        let ghost before = json_members(files);
        assert(models(entries@)[i as int] == entry@);
        if !is_ignored_path(&entry.components) {
            match entry.kind {
                EntryKind::Other => {
                    proof {
                        lemma_error_stays(models(entries@), i + 1, entries.len() as int);
                        lemma_listable(models(entries@));
                    }
                    return Err(ManifestError::UnsupportedEntry { index: i });
                },
                EntryKind::Directory => {},
                EntryKind::File => {
                    let path = join_components(&entry.components);
                    proof {
                        lemma_text_keys(before, path@);
                    }
                    if contains_key(&files, path.as_str()) {
                        proof {
                            lemma_error_stays(models(entries@), i + 1, entries.len() as int);
                            lemma_listable(models(entries@));
                        }
                        return Err(ManifestError::PathCollision { index: i });
                    }
                    let digest = file_digest(&entry.contents);
                    insert_text(&mut files, path, digest);
                    assert(text_pairs(json_members(files)) =~= text_pairs(before).push(
                        line_of(entry@),
                    ));
                },
            }
        }
        i = i + 1;
    }
    proof {
        lemma_checksums_complete(models(entries@), entries.len() as int);
        lemma_listable(models(entries@));
        lemma_text_distinct(json_members(files));
    }
    Ok(files)
}

/// The checksum manifest of one vendored package.
pub struct FileChecksumManifest {
    files: serde_json::Map<String, serde_json::Value>,
    package: String,
}

/// The members of the document that a manifest is written as: the lines
/// under `files`, then the package's own digest under `package`.
pub open spec fn manifest_document(files: Seq<(Seq<char>, Seq<char>)>, package: Seq<char>) -> Seq<
    (Seq<char>, Member),
> {
    seq![("files"@, Member::Object(files)), ("package"@, Member::Text(package))]
}

impl FileChecksumManifest {
    /// The lines of the manifest in their order: relative path and digest.
    pub closed spec fn files(&self) -> Seq<(Seq<char>, Seq<char>)> {
        text_pairs(json_members(self.files))
    }

    /// The digest of the package's tarball, as it was supplied.
    pub closed spec fn package(&self) -> Seq<char> {
        self.package@
    }

    /// Every member of the object is a digest, and no path is the key
    /// of two of them.
    pub closed spec fn well_formed(&self) -> bool {
        all_text(json_members(self.files)) && distinct_keys(json_members(self.files))
    }

    /// No relative path occurs twice in a manifest.
    pub proof fn lemma_paths_unique(&self)
        requires
            self.well_formed(),
        ensures
            distinct_keys(self.files()),
    {
        lemma_text_distinct(json_members(self.files));
    }

    /// A manifest without lines.
    pub fn new(package: String) -> (manifest: Self)
        ensures
            manifest.well_formed(),
            manifest.files() == Seq::<(Seq<char>, Seq<char>)>::empty(),
            manifest.package() == package@,
    {
        let manifest = FileChecksumManifest { files: new_object(), package };
        assert(manifest.files() =~= Seq::empty());
        manifest
    }

    /// Adds a line, unless the path is already a key: then the manifest
    /// stays as it is and the insert fails.
    pub fn insert(&mut self, path: String, digest: String) -> (result: Result<(), DuplicatePath>)
        requires
            old(self).well_formed(),
        ensures
            final(self).well_formed(),
            final(self).package() == old(self).package(),
            result is Err <==> has_key(old(self).files(), path@),
            result is Err ==> final(self).files() == old(self).files(),
            result is Ok ==> final(self).files() == old(self).files().push((path@, digest@)),
    {
        proof {
            lemma_text_keys(json_members(self.files), path@);
        }
        if contains_key(&self.files, path.as_str()) {
            return Err(DuplicatePath {});
        }
        insert_text(&mut self.files, path, digest);
        assert(self.files() =~= old(self).files().push((path@, digest@)));
        Ok(())
    }

    /// The object of the lines.
    pub fn file_checksums(&self) -> (files: &serde_json::Map<String, serde_json::Value>)
        ensures
            text_pairs(json_members(*files)) == self.files(),
    {
        &self.files
    }

    /// The digest of the package's tarball.
    pub fn package_checksum(&self) -> (package: &str)
        ensures
            package@ == self.package(),
    {
        self.package.as_str()
    }

    /// Writes the manifest as a pretty-printed JSON document with the
    /// two members `files` and `package`.
    pub fn render(&self) -> (rendered: String)
        requires
            self.well_formed(),
        ensures
            rendered@ == json_pretty(manifest_document(self.files(), self.package())),
    {
        let mut document = new_object();
        let files = clone_object(&self.files);
        insert_object(&mut document, "files".to_owned(), files);
        proof {
            reveal_strlit("files");
            reveal_strlit("package");
            assert("files"@.len() != "package"@.len());
            assert(json_members(document) =~= seq![("files"@, Member::Object(self.files()))]);
            assert(json_members(document)[0].0 == "files"@);
            assert(!has_key(json_members(document), "package"@));
        }
        insert_text(&mut document, "package".to_owned(), self.package.clone());
        assert(json_members(document) =~= manifest_document(self.files(), self.package()));
        to_pretty(&document)
    }
}

/// Builds the manifest of a vendored directory from the entries found
/// below it and the digest of the package's tarball, which is stored as
/// it is given.
pub fn build_manifest(entries: &Vec<TreeEntry>, package: String) -> (result: Result<
    FileChecksumManifest,
    ManifestError,
>)
    ensures
        match result {
            Ok(manifest) => manifest.well_formed() && manifest.package() == package@
                && digests_shaped(manifest.files()) && (checksums(
                models(entries@),
                entries.len() as int,
            ) matches Ok(lines) && lines == manifest.files()),
            Err(e) => checksums(models(entries@), entries.len() as int) matches Err(first)
                && first == e,
        },
        result is Ok <==> listable(models(entries@), entries.len() as int),
{
    match generate_file_checksums(entries) {
        Ok(files) => Ok(FileChecksumManifest { files, package }),
        Err(e) => Err(e),
    }
}

/// Text members have distinct keys exactly when their text pairs have.
pub proof fn lemma_text_distinct(members: Seq<(Seq<char>, Member)>)
    ensures
        distinct_keys(members) == distinct_keys(text_pairs(members)),
{
    if distinct_keys(members) {
        assert forall|i: int, j: int| 0 <= i < j < text_pairs(members).len() implies (
        #[trigger] text_pairs(members)[i]).0 != (#[trigger] text_pairs(members)[j]).0 by {
            assert(members[i].0 != members[j].0);
        }
    }
    if distinct_keys(text_pairs(members)) {
        assert forall|i: int, j: int| 0 <= i < j < members.len() implies (#[trigger] members[i]).0
            != (#[trigger] members[j]).0 by {
            assert(text_pairs(members)[i].0 != text_pairs(members)[j].0);
        }
    }
}

/// An error among the first `m` entries is the error of every longer
/// prefix.
pub proof fn lemma_error_stays(entries: Seq<EntryModel>, m: int, n: int)
    requires
        m <= n,
        checksums(entries, m) is Err,
    ensures
        checksums(entries, n) == checksums(entries, m),
    decreases n - m,
{
    if m < n {
        lemma_error_stays(entries, m, n - 1);
    }
}

/// The keys of the members are those of their text pairs.
pub proof fn lemma_text_keys(members: Seq<(Seq<char>, Member)>, key: Seq<char>)
    ensures
        has_key(members, key) == has_key(text_pairs(members), key),
{
    if has_key(members, key) {
        let i = choose|i: int| 0 <= i < members.len() && (#[trigger] members[i]).0 == key;
        assert(text_pairs(members)[i].0 == key);
    }
    if has_key(text_pairs(members), key) {
        let i = choose|i: int|
            0 <= i < text_pairs(members).len() && (#[trigger] text_pairs(members)[i]).0 == key;
        assert(members[i].0 == key);
    }
}

/// Whether `line` comes from a hashed entry among the first `n`.
pub open spec fn from_entry(entries: Seq<EntryModel>, n: int, line: (Seq<char>, Seq<char>)) -> bool {
    exists|j: int| 0 <= j < n && hashed(#[trigger] entries[j]) && line == line_of(entries[j])
}

/// Whether the first `n` entries can be listed: none of them is
/// unsupported, and no two hashed entries have the same relative path.
pub open spec fn listable(entries: Seq<EntryModel>, n: int) -> bool {
    &&& forall|j: int| 0 <= j < n ==> !unsupported(#[trigger] entries[j])
    &&& forall|i: int, j: int|
        0 <= i < j < n && hashed(#[trigger] entries[i]) && hashed(#[trigger] entries[j])
            ==> joined(entries[i].components) != joined(entries[j].components)
}

/// Completeness: where the walk succeeds, every regular file that is not
/// ignored has its line in the result, every line comes from such a file,
/// and no relative path occurs twice; and the walk could succeed only
/// because the entries were listable.
pub proof fn lemma_checksums_complete(entries: Seq<EntryModel>, n: int)
    requires
        0 <= n <= entries.len(),
        checksums(entries, n) is Ok,
    ensures
        distinct_keys(checksums(entries, n)->Ok_0),
        forall|j: int|
            0 <= j < n && hashed(#[trigger] entries[j]) ==> checksums(entries, n)->Ok_0.contains(
                line_of(entries[j]),
            ),
        forall|k: int|
            0 <= k < checksums(entries, n)->Ok_0.len() ==> from_entry(
                entries,
                n,
                #[trigger] checksums(entries, n)->Ok_0[k],
            ),
        listable(entries, n),
    decreases n,
{
    if n > 0 {
        let earlier = checksums(entries, n - 1)->Ok_0;
        let lines = checksums(entries, n)->Ok_0;
        let last = entries[n - 1];
        lemma_checksums_complete(entries, n - 1);
        assert forall|k: int| 0 <= k < earlier.len() implies from_entry(
            entries,
            n,
            #[trigger] earlier[k],
        ) by {
            assert(from_entry(entries, n - 1, earlier[k]));
        }
        assert forall|i: int, j: int|
            0 <= i < j < n && hashed(#[trigger] entries[i]) && hashed(
                #[trigger] entries[j],
            ) implies joined(entries[i].components) != joined(entries[j].components) by {
            if j == n - 1 && joined(entries[i].components) == joined(last.components) {
                assert(earlier.contains(line_of(entries[i])));
                let k = choose|k: int| 0 <= k < earlier.len() && earlier[k] == line_of(entries[i]);
                assert(earlier[k].0 == joined(last.components));
                assert(has_key(earlier, joined(last.components)));
            }
        }
        if hashed(last) {
            assert(lines == earlier.push(line_of(last)));
            assert(lines[earlier.len() as int] == line_of(last));
            assert forall|j: int| 0 <= j < n && hashed(#[trigger] entries[j]) implies lines.contains(
                line_of(entries[j]),
            ) by {
                if j < n - 1 {
                    let k = choose|k: int|
                        0 <= k < earlier.len() && earlier[k] == line_of(entries[j]);
                    assert(lines[k] == line_of(entries[j]));
                }
            }
            assert forall|k: int| 0 <= k < lines.len() implies from_entry(
                entries,
                n,
                #[trigger] lines[k],
            ) by {
                if k < earlier.len() {
                    assert(lines[k] == earlier[k]);
                }
            }
        }
    }
}

/// Success is owed: the walk over listable entries succeeds.
pub proof fn lemma_checksums_ok(entries: Seq<EntryModel>, n: int)
    requires
        0 <= n <= entries.len(),
        listable(entries, n),
    ensures
        checksums(entries, n) is Ok,
    decreases n,
{
    if n > 0 {
        lemma_checksums_ok(entries, n - 1);
        lemma_checksums_complete(entries, n - 1);
        let earlier = checksums(entries, n - 1)->Ok_0;
        let last = entries[n - 1];
        if hashed(last) && has_key(earlier, joined(last.components)) {
            let k = choose|k: int|
                0 <= k < earlier.len() && (#[trigger] earlier[k]).0 == joined(last.components);
            assert(from_entry(entries, n - 1, earlier[k]));
            let j = choose|j: int|
                0 <= j < n - 1 && hashed(#[trigger] entries[j]) && earlier[k] == line_of(
                    entries[j],
                );
            assert(joined(entries[j].components) == joined(last.components));
            assert(false);
        }
    }
}

/// Where the walk fails, the error names the first entry that cannot be
/// passed: an unsupported entry, or a file whose relative path an earlier
/// file already has.
pub proof fn lemma_error_place(entries: Seq<EntryModel>, n: int)
    requires
        0 <= n <= entries.len() <= usize::MAX,
        checksums(entries, n) is Err,
    ensures
        match checksums(entries, n)->Err_0 {
            ManifestError::UnsupportedEntry { index } => index < n && unsupported(
                entries[index as int],
            ) && checksums(entries, index as int) is Ok,
            ManifestError::PathCollision { index } => index < n && hashed(entries[index as int])
                && (checksums(entries, index as int) matches Ok(lines) && has_key(
                lines,
                joined(entries[index as int].components),
            )),
        },
    decreases n,
{
    if n > 0 && checksums(entries, n - 1) is Err {
        lemma_error_place(entries, n - 1);
    }
}

/// Collision detection: two listed files with one relative path fail the
/// walk, and where no entry is unsupported the failure is the collision.
pub proof fn lemma_collision_detected(entries: Seq<EntryModel>, i: int, j: int)
    requires
        entries.len() <= usize::MAX,
        0 <= i < j < entries.len(),
        hashed(entries[i]),
        hashed(entries[j]),
        joined(entries[i].components) == joined(entries[j].components),
    ensures
        checksums(entries, entries.len() as int) is Err,
        (forall|k: int| 0 <= k < entries.len() ==> !unsupported(#[trigger] entries[k]))
            ==> checksums(entries, entries.len() as int)->Err_0 is PathCollision,
{
    lemma_listable(entries);
    lemma_error_place(entries, entries.len() as int);
}

/// The walk over all entries succeeds exactly when they are listable.
pub proof fn lemma_listable(entries: Seq<EntryModel>)
    ensures
        checksums(entries, entries.len() as int) is Ok <==> listable(entries, entries.len() as int),
{
    if checksums(entries, entries.len() as int) is Ok {
        lemma_checksums_complete(entries, entries.len() as int);
    }
    if listable(entries, entries.len() as int) {
        lemma_checksums_ok(entries, entries.len() as int);
    }
}

/// Determinism: two walks that succeed over the same entries, in
/// whatever order each met them, list the same lines.
pub proof fn lemma_order_independent(first: Seq<EntryModel>, second: Seq<EntryModel>)
    requires
        forall|e: EntryModel| first.contains(e) <==> second.contains(e),
        checksums(first, first.len() as int) is Ok,
        checksums(second, second.len() as int) is Ok,
    ensures
        checksums(first, first.len() as int)->Ok_0.to_set() == checksums(
            second,
            second.len() as int,
        )->Ok_0.to_set(),
{
    let a = checksums(first, first.len() as int)->Ok_0;
    let b = checksums(second, second.len() as int)->Ok_0;
    lemma_checksums_complete(first, first.len() as int);
    lemma_checksums_complete(second, second.len() as int);
    assert forall|line: (Seq<char>, Seq<char>)| a.contains(line) implies b.contains(line) by {
        lemma_carried_over(first, second, line);
    }
    assert forall|line: (Seq<char>, Seq<char>)| b.contains(line) implies a.contains(line) by {
        lemma_carried_over(second, first, line);
    }
    assert(a.to_set() =~= b.to_set());
}

/// A line of one successful walk is a line of any successful walk that
/// met every entry of the first.
pub proof fn lemma_carried_over(
    first: Seq<EntryModel>,
    second: Seq<EntryModel>,
    line: (Seq<char>, Seq<char>),
)
    requires
        forall|e: EntryModel| first.contains(e) ==> second.contains(e),
        checksums(first, first.len() as int) is Ok,
        checksums(second, second.len() as int) is Ok,
        checksums(first, first.len() as int)->Ok_0.contains(line),
    ensures
        checksums(second, second.len() as int)->Ok_0.contains(line),
{
    let a = checksums(first, first.len() as int)->Ok_0;
    lemma_checksums_complete(first, first.len() as int);
    lemma_checksums_complete(second, second.len() as int);
    let k = choose|k: int| 0 <= k < a.len() && a[k] == line;
    assert(from_entry(first, first.len() as int, a[k]));
    let j = choose|j: int|
        0 <= j < first.len() && hashed(#[trigger] first[j]) && line == line_of(first[j]);
    assert(first.contains(first[j]));
    assert(second.contains(first[j]));
    let m = choose|m: int| 0 <= m < second.len() && second[m] == first[j];
    assert(hashed(second[m]));
}

} // verus!
