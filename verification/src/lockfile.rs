//! Reading a dependency lockfile: which packages come from the public
//! registry, where each is downloaded from, and the line that says so.

use crate::text::same_text;
use crate::toml_value::{
    as_items, as_text, error_text, is_table, member, parse_document, toml_is_table, toml_items,
    toml_member, toml_parsed, toml_text,
};
use vstd::prelude::*;
use vstd::string::StringExecFns;

verus! {

/// The source that marks a package of the public registry.
pub open spec fn registry_source() -> Seq<char> {
    "registry+https://github.com/rust-lang/crates.io-index"@
}

/// The view of an optional string.
pub open spec fn text_of(field: Option<String>) -> Option<Seq<char>> {
    match field {
        Some(s) => Some(s@),
        None => None,
    }
}

/// One table of the lockfile's `package` array: the string under each of
/// the four keys that are read, where the key is there and holds a string.
pub struct PackageTable {
    pub name: Option<String>,
    pub version: Option<String>,
    pub source: Option<String>,
    pub checksum: Option<String>,
}

/// A [`PackageTable`] as plain mathematical values.
pub struct PackageFields {
    pub name: Option<Seq<char>>,
    pub version: Option<Seq<char>>,
    pub source: Option<Seq<char>>,
    pub checksum: Option<Seq<char>>,
}

impl View for PackageTable {
    type V = PackageFields;

    open spec fn view(&self) -> PackageFields {
        PackageFields {
            name: text_of(self.name),
            version: text_of(self.version),
            source: text_of(self.source),
            checksum: text_of(self.checksum),
        }
    }
}

/// A package of the public registry, as the lockfile records it.
#[derive(Debug)]
pub struct DependencyRecord {
    pub name: String,
    pub version: String,
    pub source: String,
    pub checksum: Option<String>,
}

/// A [`DependencyRecord`] as plain mathematical values.
pub struct RecordModel {
    pub name: Seq<char>,
    pub version: Seq<char>,
    pub source: Seq<char>,
    pub checksum: Option<Seq<char>>,
}

impl View for DependencyRecord {
    type V = RecordModel;

    open spec fn view(&self) -> RecordModel {
        RecordModel {
            name: self.name@,
            version: self.version@,
            source: self.source@,
            checksum: text_of(self.checksum),
        }
    }
}

/// Why a lockfile could not be read.
#[derive(Debug)]
pub enum LockfileError {
    /// The text is no TOML document; the parser's message.
    Syntax { message: String },
    /// The document has no array under the key `package`.
    NoPackages,
    /// The element at `index` of the `package` array is no table.
    NotATable { index: usize },
    /// The registry package at `index` of the array lacks its name or
    /// its version.
    MissingField { index: usize },
    /// The eligible record at `index` has no checksum to verify against.
    MissingChecksum { index: usize },
}

/// The views of tables, one for one.
pub open spec fn table_models(tables: Seq<PackageTable>) -> Seq<PackageFields> {
    Seq::new(tables.len(), |i: int| tables[i]@)
}

/// The views of records, one for one.
pub open spec fn record_models(records: Seq<DependencyRecord>) -> Seq<RecordModel> {
    Seq::new(records.len(), |i: int| records[i]@)
}

/// A table is eligible when its source is there and is the registry's.
pub open spec fn eligible(table: PackageFields) -> bool {
    table.source == Some(registry_source())
}

/// An eligible table without a name or without a version.
pub open spec fn malformed(table: PackageFields) -> bool {
    eligible(table) && (table.name is None || table.version is None)
}

/// The record of an eligible table that has its name and version.
pub open spec fn record_of(table: PackageFields) -> RecordModel {
    RecordModel {
        name: table.name->Some_0,
        version: table.version->Some_0,
        source: registry_source(),
        checksum: table.checksum,
    }
}

/// The records of the eligible tables among the first `n`, in the order
/// of the tables.
pub open spec fn records_of(tables: Seq<PackageFields>, n: int) -> Seq<RecordModel>
    decreases n,
{
    if n <= 0 {
        Seq::empty()
    } else if eligible(tables[n - 1]) {
        records_of(tables, n - 1).push(record_of(tables[n - 1]))
    } else {
        records_of(tables, n - 1)
    }
}

/// What reading `tables` gives: the records of the eligible tables, or
/// the place of the first malformed one.
pub open spec fn reads_as(
    tables: Seq<PackageFields>,
    result: Result<Vec<DependencyRecord>, LockfileError>,
) -> bool {
    match result {
        Ok(records) => {
            &&& forall|j: int| 0 <= j < tables.len() ==> !malformed(#[trigger] tables[j])
            &&& record_models(records@) == records_of(tables, tables.len() as int)
        },
        Err(LockfileError::MissingField { index }) => {
            &&& index < tables.len()
            &&& malformed(tables[index as int])
            &&& forall|j: int| 0 <= j < index ==> !malformed(#[trigger] tables[j])
        },
        Err(_) => false,
    }
}

/// Copies an optional string.
pub fn copy_field(field: &Option<String>) -> (copy: Option<String>)
    ensures
        text_of(copy) == text_of(*field),
{
    match field {
        Some(s) => Some(s.clone()),
        None => None,
    }
}

/// Tells whether a table is eligible for vendoring.
pub fn is_eligible(table: &PackageTable) -> (yes: bool)
    ensures
        yes == eligible(table@),
{
    match &table.source {
        Some(source) => same_text(
            source.as_str(),
            "registry+https://github.com/rust-lang/crates.io-index",
        ),
        None => false,
    }
}

/// Filters the package tables of a lockfile to the records of the public
/// registry, in the order of the file. A table with another source, or
/// with none, is passed over. An eligible table without a name or a
/// version fails the whole read.
pub fn eligible_records(tables: &Vec<PackageTable>) -> (result: Result<
    Vec<DependencyRecord>,
    LockfileError,
>)
    ensures
        reads_as(table_models(tables@), result),
{
    let mut records: Vec<DependencyRecord> = Vec::new();
    let mut i: usize = 0;
    while i < tables.len()
        invariant
            0 <= i <= tables.len(),
            forall|j: int| 0 <= j < i ==> !malformed(#[trigger] table_models(tables@)[j]),
            record_models(records@) =~= records_of(table_models(tables@), i as int),
        decreases tables.len() - i,
    {
        let table = &tables[i];
        assert(table_models(tables@)[i as int] == table@);
        if is_eligible(table) {
            let ghost before = record_models(records@);
            match (&table.name, &table.version) {
                (Some(name), Some(version)) => {
                    records.push(
                        DependencyRecord {
                            name: name.clone(),
                            version: version.clone(),
                            source: "registry+https://github.com/rust-lang/crates.io-index".to_owned(),
                            checksum: copy_field(&table.checksum),
                        },
                    );
                    assert(record_models(records@) =~= before.push(record_of(table@)));
                },
                _ => {
                    return Err(LockfileError::MissingField { index: i });
                },
            }
        }
        i = i + 1;
    }
    Ok(records)
}

/// Filtering: every record read from the first `n` tables is the record
/// of an eligible table among them and names the registry as its source,
/// and every eligible table among them has its record in the result.
pub proof fn lemma_records_are_the_eligible(tables: Seq<PackageFields>, n: int)
    requires
        0 <= n <= tables.len(),
    ensures
        forall|k: int|
            0 <= k < records_of(tables, n).len() ==> (#[trigger] records_of(tables, n)[k]).source
                == registry_source() && exists|j: int|
                0 <= j < n && eligible(#[trigger] tables[j]) && records_of(tables, n)[k]
                    == record_of(tables[j]),
        forall|j: int|
            0 <= j < n && eligible(#[trigger] tables[j]) ==> records_of(tables, n).contains(
                record_of(tables[j]),
            ),
        forall|j: int|
            0 <= j < n && !eligible(#[trigger] tables[j]) ==> records_of(tables, n) == records_of(
                tables.remove(j),
                n - 1,
            ),
    decreases n,
{
    if n > 0 {
        lemma_records_are_the_eligible(tables, n - 1);
        let earlier = records_of(tables, n - 1);
        let all = records_of(tables, n);
        assert forall|k: int| 0 <= k < all.len() implies (#[trigger] all[k]).source
            == registry_source() && exists|j: int|
            0 <= j < n && eligible(#[trigger] tables[j]) && all[k] == record_of(tables[j]) by {
            if k < earlier.len() {
                assert(all[k] == earlier[k]);
                let j = choose|j: int|
                    0 <= j < n - 1 && eligible(#[trigger] tables[j]) && earlier[k] == record_of(
                        tables[j],
                    );
                assert(0 <= j < n && eligible(tables[j]) && all[k] == record_of(tables[j]));
            } else {
                assert(eligible(tables[n - 1]) && all[k] == record_of(tables[n - 1]));
            }
        }
        assert forall|j: int| 0 <= j < n && eligible(#[trigger] tables[j]) implies all.contains(
            record_of(tables[j]),
        ) by {
            if j < n - 1 {
                let k = choose|k: int| 0 <= k < earlier.len() && earlier[k] == record_of(tables[j]);
                assert(all[k] == record_of(tables[j]));
            } else {
                assert(all[earlier.len() as int] == record_of(tables[j]));
            }
        }
        assert forall|j: int| 0 <= j < n && !eligible(#[trigger] tables[j]) implies all
            == records_of(tables.remove(j), n - 1) by {
            lemma_without_ineligible(tables, n, j);
        }
    }
}

/// Taking a table that is not eligible out of the first `n` changes
/// nothing in what is read.
pub proof fn lemma_without_ineligible(tables: Seq<PackageFields>, n: int, j: int)
    requires
        0 <= j < n <= tables.len(),
        !eligible(tables[j]),
    ensures
        records_of(tables, n) == records_of(tables.remove(j), n - 1),
    decreases n,
{
    let rest = tables.remove(j);
    if j == n - 1 {
        lemma_same_prefix(tables, rest, n - 1);
    } else {
        lemma_without_ineligible(tables, n - 1, j);
        assert(rest[n - 2] == tables[n - 1]);
    }
}

/// What is read from the first `n` tables depends on those tables alone.
pub proof fn lemma_same_prefix(first: Seq<PackageFields>, second: Seq<PackageFields>, n: int)
    requires
        0 <= n <= first.len(),
        n <= second.len(),
        forall|i: int| 0 <= i < n ==> first[i] == second[i],
    ensures
        records_of(first, n) == records_of(second, n),
    decreases n,
{
    if n > 0 {
        lemma_same_prefix(first, second, n - 1);
    }
}

/// The string under `key` of a table of the document, if there is one.
pub open spec fn field_of(table: toml::Value, key: Seq<char>) -> Option<Seq<char>> {
    match toml_member(table, key) {
        Some(value) => toml_text(value),
        None => None,
    }
}

/// The four fields that are read from one table of the `package` array.
pub open spec fn fields_of(table: toml::Value) -> PackageFields {
    PackageFields {
        name: field_of(table, "name"@),
        version: field_of(table, "version"@),
        source: field_of(table, "source"@),
        checksum: field_of(table, "checksum"@),
    }
}

/// The elements of the array under the document's key `package`, if it
/// has one.
pub open spec fn package_items(document: toml::Value) -> Option<Seq<toml::Value>> {
    match toml_member(document, "package"@) {
        Some(packages) => toml_items(packages),
        None => None,
    }
}

/// Whether every element is a table.
pub open spec fn all_tables(items: Seq<toml::Value>) -> bool {
    forall|j: int| 0 <= j < items.len() ==> toml_is_table(#[trigger] items[j])
}

/// Whether the element at `index` is the first that is no table.
pub open spec fn first_non_table(items: Seq<toml::Value>, index: int) -> bool {
    &&& 0 <= index < items.len()
    &&& !toml_is_table(items[index])
    &&& forall|j: int| 0 <= j < index ==> toml_is_table(#[trigger] items[j])
}

/// The fields of each element, one for one.
pub open spec fn tables_of(items: Seq<toml::Value>) -> Seq<PackageFields> {
    Seq::new(items.len(), |i: int| fields_of(items[i]))
}

/// What extracting the package tables of `document` gives: the fields of
/// every element where all of them are tables, the place of the first
/// element that is none, or that there is no array to read.
pub open spec fn extracts_as(
    document: toml::Value,
    result: Result<Vec<PackageTable>, LockfileError>,
) -> bool {
    match package_items(document) {
        None => result matches Err(LockfileError::NoPackages),
        Some(items) => if all_tables(items) {
            result matches Ok(found) && table_models(found@) == tables_of(items)
        } else {
            result matches Err(LockfileError::NotATable { index }) && first_non_table(
                items,
                index as int,
            )
        },
    }
}

/// Reads the string under `key` of a table.
pub fn read_field(table: &toml::Value, key: &str) -> (field: Option<String>)
    ensures
        text_of(field) == field_of(*table, key@),
{
    match member(table, key) {
        Some(value) => match as_text(value) {
            Some(text) => Some(text.to_owned()),
            None => None,
        },
        None => None,
    }
}

/// Extracts the package tables of a parsed lockfile. A document without
/// an array under `package`, or with an element in it that is no table,
/// fails the read.
pub fn package_tables(document: &toml::Value) -> (result: Result<Vec<PackageTable>, LockfileError>)
    ensures
        extracts_as(*document, result),
{
    let packages = match member(document, "package") {
        Some(packages) => packages,
        None => {
            return Err(LockfileError::NoPackages);
        },
    };
    let items = match as_items(packages) {
        Some(items) => items,
        None => {
            return Err(LockfileError::NoPackages);
        },
    };
    let mut tables: Vec<PackageTable> = Vec::new();
    let mut i: usize = 0;
    while i < items.len()
        invariant
            0 <= i <= items.len(),
            tables.len() == i,
            package_items(*document) == Some(items@),
            forall|j: int| 0 <= j < i ==> toml_is_table(#[trigger] items@[j]),
            forall|j: int| 0 <= j < i ==> (#[trigger] tables@[j])@ == fields_of(items@[j]),
        decreases items.len() - i,
    {
        let item = &items[i];
        if !is_table(item) {
            assert(!toml_is_table(items@[i as int]));
            return Err(LockfileError::NotATable { index: i });
        }
        tables.push(
            PackageTable {
                name: read_field(item, "name"),
                version: read_field(item, "version"),
                source: read_field(item, "source"),
                checksum: read_field(item, "checksum"),
            },
        );
        i = i + 1;
    }
    assert(table_models(tables@) =~= tables_of(items@));
    Ok(tables)
}

/// What reading the lockfile `text` gives: a text that is no TOML, a
/// document without a `package` array and an element of the array that
/// is no table each fail the read; otherwise the tables are read as
/// [`reads_as`] says.
pub open spec fn lockfile_reads_as(
    text: Seq<char>,
    result: Result<Vec<DependencyRecord>, LockfileError>,
) -> bool {
    match toml_parsed(text) {
        None => result matches Err(LockfileError::Syntax { .. }),
        Some(document) => match package_items(document) {
            None => result matches Err(LockfileError::NoPackages),
            Some(items) => if all_tables(items) {
                reads_as(tables_of(items), result)
            } else {
                result matches Err(LockfileError::NotATable { index }) && first_non_table(
                    items,
                    index as int,
                )
            },
        },
    }
}

/// Reads a lockfile: parses the text, takes the tables of its `package`
/// array and keeps the records of the public registry, in file order.
pub fn read_lockfile(text: &str) -> (result: Result<Vec<DependencyRecord>, LockfileError>)
    ensures
        lockfile_reads_as(text@, result),
{
    let document = match parse_document(text) {
        Ok(document) => document,
        Err(error) => {
            return Err(LockfileError::Syntax { message: error_text(&error) });
        },
    };
    match package_tables(&document) {
        Ok(tables) => eligible_records(&tables),
        Err(error) => Err(error),
    }
}

/// A package ready to be fetched: where its tarball is, the directory it
/// is unpacked into, and the digest the tarball should have.
#[derive(Debug)]
pub struct ResolvedDependency {
    pub download_url: String,
    pub vendor_dir_name: String,
    pub expected_checksum: String,
}

/// A [`ResolvedDependency`] as plain mathematical values.
pub struct ResolvedModel {
    pub download_url: Seq<char>,
    pub vendor_dir_name: Seq<char>,
    pub expected_checksum: Seq<char>,
}

impl View for ResolvedDependency {
    type V = ResolvedModel;

    open spec fn view(&self) -> ResolvedModel {
        ResolvedModel {
            download_url: self.download_url@,
            vendor_dir_name: self.vendor_dir_name@,
            expected_checksum: self.expected_checksum@,
        }
    }
}

/// The views of resolved dependencies, one for one.
pub open spec fn resolved_models(deps: Seq<ResolvedDependency>) -> Seq<ResolvedModel> {
    Seq::new(deps.len(), |i: int| deps[i]@)
}

/// The registry's download address of a package version.
pub open spec fn download_url_of(name: Seq<char>, version: Seq<char>) -> Seq<char> {
    "https://crates.io/api/v1/crates/"@ + name + "/"@ + version + "/download"@
}

/// The directory name of a package version: name, hyphen, version.
pub open spec fn vendor_dir_name_of(name: Seq<char>, version: Seq<char>) -> Seq<char> {
    name + "-"@ + version
}

/// The fetch instruction of a package: address, directory name and
/// checksum, with one space between them.
pub open spec fn instruction_of(name: Seq<char>, version: Seq<char>, checksum: Seq<char>) -> Seq<
    char,
> {
    download_url_of(name, version) + " "@ + vendor_dir_name_of(name, version) + " "@ + checksum
}

/// The resolved form of a record that has the checksum `checksum`.
pub open spec fn resolved_of(record: RecordModel, checksum: Seq<char>) -> ResolvedModel {
    ResolvedModel {
        download_url: download_url_of(record.name, record.version),
        vendor_dir_name: vendor_dir_name_of(record.name, record.version),
        expected_checksum: checksum,
    }
}

/// Builds the download address of a package version.
pub fn download_url(name: &str, version: &str) -> (url: String)
    ensures
        url@ == download_url_of(name@, version@),
{
    let mut url = "https://crates.io/api/v1/crates/".to_owned();
    url.append(name);
    url.append("/");
    url.append(version);
    url.append("/download");
    url
}

/// Builds the vendor directory name of a package version.
pub fn vendor_dir_name(name: &str, version: &str) -> (dir: String)
    ensures
        dir@ == vendor_dir_name_of(name@, version@),
{
    let mut dir = name.to_owned();
    dir.append("-");
    dir.append(version);
    dir
}

/// Resolves a record, if it carries a checksum.
pub fn resolve(record: &DependencyRecord) -> (resolved: Option<ResolvedDependency>)
    ensures
        match resolved {
            Some(dep) => record@.checksum matches Some(checksum) && dep@ == resolved_of(
                record@,
                checksum,
            ),
            None => record@.checksum is None,
        },
{
    match &record.checksum {
        Some(checksum) => Some(
            ResolvedDependency {
                download_url: download_url(record.name.as_str(), record.version.as_str()),
                vendor_dir_name: vendor_dir_name(record.name.as_str(), record.version.as_str()),
                expected_checksum: checksum.clone(),
            },
        ),
        None => None,
    }
}

/// Writes the fetch instruction of a record, if it carries a checksum.
pub fn instruction_line(record: &DependencyRecord) -> (line: Option<String>)
    ensures
        match line {
            Some(text) => record@.checksum matches Some(checksum) && text@ == instruction_of(
                record@.name,
                record@.version,
                checksum,
            ),
            None => record@.checksum is None,
        },
{
    match &record.checksum {
        Some(checksum) => {
            let mut line = download_url(record.name.as_str(), record.version.as_str());
            line.append(" ");
            let dir = vendor_dir_name(record.name.as_str(), record.version.as_str());
            line.append(dir.as_str());
            line.append(" ");
            line.append(checksum.as_str());
            Some(line)
        },
        None => None,
    }
}

/// The instructions of the first `n` records, those without a checksum
/// left out, in the order of the records.
pub open spec fn instructions_of(records: Seq<RecordModel>, n: int) -> Seq<Seq<char>>
    decreases n,
{
    if n <= 0 {
        Seq::empty()
    } else {
        match records[n - 1].checksum {
            Some(checksum) => instructions_of(records, n - 1).push(
                instruction_of(records[n - 1].name, records[n - 1].version, checksum),
            ),
            None => instructions_of(records, n - 1),
        }
    }
}

/// Writes one fetch instruction for each record that carries a checksum,
/// in the order of the records.
pub fn instruction_lines(records: &Vec<DependencyRecord>) -> (lines: Vec<String>)
    ensures
        crate::text::views(lines@) == instructions_of(
            record_models(records@),
            records.len() as int,
        ),
{
    let mut lines: Vec<String> = Vec::new();
    let mut i: usize = 0;
    while i < records.len()
        invariant
            0 <= i <= records.len(),
            crate::text::views(lines@) =~= instructions_of(record_models(records@), i as int),
        decreases records.len() - i,
    {
        let ghost before = crate::text::views(lines@);
        assert(record_models(records@)[i as int] == records@[i as int]@);
        match instruction_line(&records[i]) {
            Some(line) => {
                let ghost text = line@;
                lines.push(line);
                assert(crate::text::views(lines@) =~= before.push(text));
            },
            None => {},
        }
        i = i + 1;
    }
    lines
}

/// What resolving `records` gives: every record resolved, in order, or
/// the place of the first record without a checksum.
pub open spec fn resolves_as(
    records: Seq<RecordModel>,
    result: Result<Vec<ResolvedDependency>, LockfileError>,
) -> bool {
    match result {
        Ok(deps) => {
            &&& deps@.len() == records.len()
            &&& forall|j: int|
                0 <= j < records.len() ==> ((#[trigger] records[j]).checksum matches Some(checksum)
                    && deps@[j]@ == resolved_of(records[j], checksum))
        },
        Err(LockfileError::MissingChecksum { index }) => {
            &&& index < records.len()
            &&& records[index as int].checksum is None
            &&& forall|j: int| 0 <= j < index ==> (#[trigger] records[j]).checksum is Some
        },
        Err(_) => false,
    }
}

/// Resolves every record, in order. A record without a checksum fails
/// the whole run.
pub fn resolve_all(records: &Vec<DependencyRecord>) -> (result: Result<
    Vec<ResolvedDependency>,
    LockfileError,
>)
    ensures
        resolves_as(record_models(records@), result),
{
    let mut deps: Vec<ResolvedDependency> = Vec::new();
    let mut i: usize = 0;
    while i < records.len()
        invariant
            0 <= i <= records.len(),
            deps.len() == i,
            forall|j: int|
                0 <= j < i ==> ((#[trigger] record_models(records@)[j]).checksum matches Some(
                    checksum,
                ) && deps@[j]@ == resolved_of(record_models(records@)[j], checksum)),
        decreases records.len() - i,
    {
        assert(record_models(records@)[i as int] == records@[i as int]@);
        match resolve(&records[i]) {
            Some(dep) => {
                deps.push(dep);
            },
            None => {
                return Err(LockfileError::MissingChecksum { index: i });
            },
        }
        i = i + 1;
    }
    Ok(deps)
}

/// What `cargo_lock_deps` gives for the lockfile `text`: the failures of
/// reading it, each as [`lockfile_reads_as`] says, and otherwise what
/// resolving the records read gives.
pub open spec fn lockfile_resolves_as(
    text: Seq<char>,
    result: Result<Vec<ResolvedDependency>, LockfileError>,
) -> bool {
    match toml_parsed(text) {
        None => result matches Err(LockfileError::Syntax { .. }),
        Some(document) => match package_items(document) {
            None => result matches Err(LockfileError::NoPackages),
            Some(items) => if !all_tables(items) {
                result matches Err(LockfileError::NotATable { index }) && first_non_table(
                    items,
                    index as int,
                )
            } else if exists|j: int|
                0 <= j < items.len() && malformed(#[trigger] tables_of(items)[j]) {
                result matches Err(LockfileError::MissingField { index }) && index < items.len()
                    && malformed(tables_of(items)[index as int]) && forall|j: int|
                    0 <= j < index ==> !malformed(#[trigger] tables_of(items)[j])
            } else {
                resolves_as(records_of(tables_of(items), items.len() as int), result)
            },
        },
    }
}

/// Reads a lockfile and resolves every package of the public registry
/// in it, in file order.
pub fn cargo_lock_deps(text: &str) -> (result: Result<Vec<ResolvedDependency>, LockfileError>)
    ensures
        lockfile_resolves_as(text@, result),
{
    match read_lockfile(text) {
        Ok(records) => resolve_all(&records),
        Err(error) => {
            proof {
                if let Some(document) = toml_parsed(text@) {
                    if let Some(items) = package_items(document) {
                        if all_tables(items) {
                            let index = error->MissingField_index;
                            assert(malformed(tables_of(items)[index as int]));
                        }
                    }
                }
            }
            Err(error)
        },
    }
}

} // verus!
