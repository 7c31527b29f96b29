use db_dump::categories::CategoryId;
use db_dump::crate_owners::OwnerId;
use db_dump::crates::CrateId;
use db_dump::dependencies::DependencyKind;
use db_dump::error::{Error, ErrorKind, Expected};
use db_dump::record::{FromRecord, Layout};
use db_dump::table::Table;
use db_dump::teams::TeamId;
use db_dump::users::UserId;
use db_dump::version::{Op, Version};
use db_dump::versions as v;
use db_dump::versions::VersionId;
use db_dump::Date;

fn cells(cells: &[&str]) -> Vec<String> {
    cells.iter().map(|cell| (*cell).to_owned()).collect()
}

fn decode<T: FromRecord>(headers: &[&str], row: &[&str]) -> Result<T, Error> {
    T::from_record(&cells(row), &cells(headers))
}

const CATEGORY_HEADERS: [&str; 7] = ["category", "crates_cnt", "created_at", "description", "id", "path", "slug"];
const CATEGORY_ROW: [&str; 7] = ["Algorithms", "1234", "2017-01-17 19:13:05.112414", "Rust implementations of core algorithms.", "30", "algorithms", "algorithms"];

#[test]
fn category_row_is_decoded_by_header_name() {
    let row: db_dump::categories::Row = decode(&CATEGORY_HEADERS, &CATEGORY_ROW).unwrap();
    assert_eq!(row.id, CategoryId(30));
    assert_eq!(row.category, "Algorithms");
    assert_eq!(row.slug, "algorithms");
    assert_eq!(row.description, "Rust implementations of core algorithms.");
    assert_eq!(row.crates_cnt, 1234);
    assert_eq!(row.created_at.date(), Date::from_ymd(2017, 1, 17));
    assert_eq!(row.created_at.microsecond(), 112414);
    assert_eq!(row.path, "algorithms");
}

#[test]
fn column_order_does_not_matter() {
    let a: db_dump::crate_downloads::Row = decode(&["crate_id", "downloads"], &["7", "99"]).unwrap();
    let b: db_dump::crate_downloads::Row = decode(&["downloads", "crate_id"], &["99", "7"]).unwrap();
    assert_eq!((a.crate_id, a.downloads), (CrateId(7), 99));
    assert_eq!((b.crate_id, b.downloads), (CrateId(7), 99));
}

#[test]
fn unknown_column_is_rejected() {
    let e = decode::<db_dump::crate_downloads::Row>(&["crate_id", "downloads", "extra"], &["7", "99", "x"]).unwrap_err();
    assert_eq!(e.kind, ErrorKind::UnknownColumn { position: 2 });
    assert_eq!(e.detail, "extra");
    assert_eq!(e.table, None);
    let e = decode::<db_dump::crate_downloads::Row>(&["Crate_id", "downloads"], &["7", "99"]).unwrap_err();
    assert_eq!(e.kind, ErrorKind::UnknownColumn { position: 0 });
}

#[test]
fn duplicate_column_is_rejected() {
    let e = decode::<db_dump::crate_downloads::Row>(&["crate_id", "downloads", "crate_id"], &["7", "99", "8"]).unwrap_err();
    assert_eq!(e.kind, ErrorKind::DuplicateColumn { position: 2 });
    assert_eq!(e.detail, "crate_id");
}

#[test]
fn missing_required_column_is_rejected() {
    let e = decode::<db_dump::crate_downloads::Row>(&["crate_id"], &["7"]).unwrap_err();
    assert_eq!(e.kind, ErrorKind::MissingColumn { column: db_dump::crate_downloads::DOWNLOADS });
    assert_eq!(e.detail, "downloads");
    let e = decode::<db_dump::crate_downloads::Row>(&[], &[]).unwrap_err();
    assert_eq!(e.kind, ErrorKind::MissingColumn { column: db_dump::crate_downloads::CRATE_ID });
}

#[test]
fn first_bad_header_wins_over_missing_columns_and_bad_cells() {
    let e = decode::<db_dump::crate_downloads::Row>(&["crate_id", "nope", "crate_id"], &["x", "y", "z"]).unwrap_err();
    assert_eq!(e.kind, ErrorKind::UnknownColumn { position: 1 });
    let e = decode::<db_dump::crate_downloads::Row>(&["crate_id", "crate_id", "nope"], &["x", "y", "z"]).unwrap_err();
    assert_eq!(e.kind, ErrorKind::DuplicateColumn { position: 1 });
}

#[test]
fn row_of_another_length_is_rejected() {
    let e = decode::<db_dump::crate_downloads::Row>(&["crate_id", "downloads"], &["7"]).unwrap_err();
    assert_eq!(e.kind, ErrorKind::UnequalLengths);
    let e = decode::<db_dump::crate_downloads::Row>(&["crate_id", "downloads"], &["7", "99", "1"]).unwrap_err();
    assert_eq!(e.kind, ErrorKind::UnequalLengths);
}

#[test]
fn first_bad_cell_in_schema_order_is_reported() {
    let e = decode::<db_dump::crate_downloads::Row>(&["downloads", "crate_id"], &["many", "seven"]).unwrap_err();
    assert_eq!(e.kind, ErrorKind::Invalid { column: db_dump::crate_downloads::CRATE_ID, expected: Expected::Integer });
    assert_eq!(e.detail, "seven");
    let e = decode::<db_dump::crate_downloads::Row>(&["downloads", "crate_id"], &["many", "7"]).unwrap_err();
    assert_eq!(e.kind, ErrorKind::Invalid { column: db_dump::crate_downloads::DOWNLOADS, expected: Expected::Integer });
    let e = decode::<db_dump::categories::Row>(&CATEGORY_HEADERS, &["Algorithms", "1234", "yesterday", "d", "30", "p", "s"]).unwrap_err();
    assert_eq!(e.kind, ErrorKind::Invalid { column: db_dump::categories::CREATED_AT, expected: Expected::DateTime });
    let e = decode::<db_dump::categories::Row>(&CATEGORY_HEADERS, &["Algorithms", "4294967296", "yesterday", "d", "30", "p", "s"]).unwrap_err();
    assert_eq!(e.kind, ErrorKind::Invalid { column: db_dump::categories::CRATES_CNT, expected: Expected::Integer });
}

#[test]
fn layout_is_made_once_and_reads_many_rows() {
    let layout = Layout::resolve(Table::Keywords, &cells(&["created_at", "id", "keyword", "crates_cnt"])).unwrap();
    assert_eq!(layout.table(), Table::Keywords);
    assert_eq!(layout.width(), 4);
    let a = db_dump::keywords::Row::decode(&layout, &cells(&["2014-11-21 00:22:50.038243", "1", "http", "500"])).unwrap();
    let b = db_dump::keywords::Row::decode(&layout, &cells(&["2014-11-21 00:22:50+00", "2", "", "0"])).unwrap();
    assert_eq!((a.id.0, a.keyword.as_str(), a.crates_cnt), (1, "http", 500));
    assert_eq!((b.id.0, b.keyword.as_str(), b.crates_cnt), (2, "", 0));
    assert_eq!(layout.present(&cells(&["a", "b", "c", "d"]), db_dump::keywords::KEYWORD), Some("c"));
    assert!(layout.check_width(&cells(&["a"])).is_err());
}

#[test]
fn crates_row_with_optional_cells() {
    let headers = ["created_at", "description", "documentation", "homepage", "id", "max_features", "max_upload_size", "name", "readme", "repository", "updated_at"];
    let row: db_dump::crates::Row = decode(&headers, &["2014-11-11 02:04:13.017423", "A library.", "", "https://example.com", "42", "", "", "serde", "# serde", "", "2023-05-05 01:01:01"]).unwrap();
    assert_eq!(row.id, CrateId(42));
    assert_eq!(row.name, "serde");
    assert_eq!(row.documentation, None);
    assert_eq!(row.homepage.as_deref(), Some("https://example.com"));
    assert_eq!(row.readme.as_deref(), Some("# serde"));
    assert_eq!(row.repository, None);
    assert_eq!(row.max_upload_size, None);
    assert_eq!(row.max_features, None);
    let row: db_dump::crates::Row = decode(&["id", "name", "updated_at", "created_at", "description", "max_upload_size", "max_features"], &["1", "a", "2023-05-05 01:01:01", "2023-05-05 01:01:01", "", "10485760", "300"]).unwrap();
    assert_eq!(row.max_upload_size, Some(10485760));
    assert_eq!(row.max_features, Some(300));
    assert_eq!(row.homepage, None);
    let e = decode::<db_dump::crates::Row>(&["id", "name", "updated_at", "created_at", "description", "max_features"], &["1", "a", "2023-05-05 01:01:01", "2023-05-05 01:01:01", "", "65536"]).unwrap_err();
    assert_eq!(e.kind, ErrorKind::Invalid { column: db_dump::crates::MAX_FEATURES, expected: Expected::Integer });
}

#[test]
fn owner_is_a_user_or_a_team() {
    let headers = ["crate_id", "created_at", "created_by", "owner_id", "owner_kind"];
    let row: db_dump::crate_owners::Row = decode(&headers, &["1", "2015-01-01 00:00:00", "5", "9", "0"]).unwrap();
    assert_eq!(row.owner_id, OwnerId::User(UserId(9)));
    assert_eq!(row.created_by, Some(UserId(5)));
    let row: db_dump::crate_owners::Row = decode(&headers, &["1", "2015-01-01 00:00:00", "", "9", "1"]).unwrap();
    assert_eq!(row.owner_id, OwnerId::Team(TeamId(9)));
    assert_eq!(row.created_by, None);
    let e = decode::<db_dump::crate_owners::Row>(&headers, &["1", "2015-01-01 00:00:00", "", "9", "2"]).unwrap_err();
    assert_eq!(e.kind, ErrorKind::Invalid { column: db_dump::crate_owners::OWNER_KIND, expected: Expected::OwnerKind });
    assert_eq!(e.detail, "2");
    let e = decode::<db_dump::crate_owners::Row>(&headers, &["1", "2015-01-01 00:00:00", "", "9", "256"]).unwrap_err();
    assert_eq!(e.kind, ErrorKind::Invalid { column: db_dump::crate_owners::OWNER_KIND, expected: Expected::Integer });
    let row: db_dump::crate_owners::Row = decode(&["crate_id", "created_at", "owner_id", "owner_kind"], &["1", "2015-01-01 00:00:00", "9", "1"]).unwrap();
    assert_eq!(row.created_by, None);
}

#[test]
fn dependency_row() {
    let headers = ["id", "version_id", "crate_id", "req", "optional", "default_features", "features", "target", "kind", "explicit_name"];
    let row: db_dump::dependencies::Row = decode(&headers, &["11", "22", "33", "^1.0", "f", "t", "{derive,std}", "", "2", ""]).unwrap();
    assert_eq!((row.id, row.version_id, row.crate_id), (11, VersionId(22), CrateId(33)));
    assert_eq!(row.req.comparators.len(), 1);
    assert_eq!(row.req.comparators[0].op, Op::Caret);
    assert_eq!((row.optional, row.default_features), (false, true));
    assert_eq!(row.features, vec!["derive", "std"]);
    assert_eq!(row.target, "");
    assert_eq!(row.kind, DependencyKind::Dev);
    assert_eq!(row.explicit_name, None);
    for (kind, expected) in [("0", DependencyKind::Normal), ("1", DependencyKind::Build), ("2", DependencyKind::Dev)] {
        let row: db_dump::dependencies::Row = decode(&headers[..9], &["11", "22", "33", "~2.0-2.2", "f", "t", "{}", "cfg(unix)", kind]).unwrap();
        assert_eq!(row.kind, expected);
        assert_eq!(row.req.comparators.len(), 2);
        assert_eq!(row.target, "cfg(unix)");
    }
    let e = decode::<db_dump::dependencies::Row>(&headers, &["11", "22", "33", "^1.0", "f", "t", "{}", "", "3", ""]).unwrap_err();
    assert_eq!(e.kind, ErrorKind::Invalid { column: db_dump::dependencies::KIND, expected: Expected::DependencyKind });
    assert!(Expected::DependencyKind.describe().contains("0, 1, 2"));
    let e = decode::<db_dump::dependencies::Row>(&headers, &["11", "22", "33", "^1.0", "f", "t", "derive", "", "0", ""]).unwrap_err();
    assert_eq!(e.kind, ErrorKind::Invalid { column: db_dump::dependencies::FEATURES, expected: Expected::List });
    let e = decode::<db_dump::dependencies::Row>(&headers, &["11", "22", "33", "one", "f", "t", "{}", "", "0", ""]).unwrap_err();
    assert_eq!(e.kind, ErrorKind::Invalid { column: db_dump::dependencies::REQ, expected: Expected::VersionReq });
    let e = decode::<db_dump::dependencies::Row>(&headers, &["11", "22", "33", "1", "no", "t", "{}", "", "0", ""]).unwrap_err();
    assert_eq!(e.kind, ErrorKind::Invalid { column: db_dump::dependencies::OPTIONAL, expected: Expected::Bool });
}

#[test]
fn version_download_row() {
    let row: db_dump::version_downloads::Row = decode(&["version_id", "downloads", "date"], &["5", "1000", "2021-06-30"]).unwrap();
    assert_eq!((row.version_id, row.downloads, row.date), (VersionId(5), 1000, Date::from_ymd(2021, 6, 30)));
    let e = decode::<db_dump::version_downloads::Row>(&["version_id", "downloads", "date"], &["5", "1000", "2021-06-31"]).unwrap_err();
    assert_eq!(e.kind, ErrorKind::Invalid { column: db_dump::version_downloads::DATE, expected: Expected::Date });
}

#[test]
fn small_rows() {
    let row: db_dump::metadata::Row = decode(&["total_downloads"], &["123456789012"]).unwrap();
    assert_eq!(row.total_downloads, 123456789012);
    let row: db_dump::reserved_crate_names::Row = decode(&["name"], &["std"]).unwrap();
    assert_eq!(row.name, "std");
    let row: db_dump::crates_categories::Row = decode(&["category_id", "crate_id"], &["3", "4"]).unwrap();
    assert_eq!((row.crate_id, row.category_id), (CrateId(4), CategoryId(3)));
    let row: db_dump::crates_keywords::Row = decode(&["crate_id", "keyword_id"], &["3", "4"]).unwrap();
    assert_eq!((row.crate_id.0, row.keyword_id.0), (3, 4));
    let row: db_dump::teams::Row = decode(&["avatar", "github_id", "id", "login", "name", "org_id"], &["a.png", "77", "1", "github:rust-lang:core", "core", ""]).unwrap();
    assert_eq!((row.id, row.github_id, row.org_id), (TeamId(1), 77, None));
    assert_eq!((row.login.as_str(), row.name.as_str(), row.avatar.as_str()), ("github:rust-lang:core", "core", "a.png"));
    let row: db_dump::teams::Row = decode(&["avatar", "github_id", "id", "login", "name", "org_id"], &["", "77", "1", "l", "n", "5"]).unwrap();
    assert_eq!(row.org_id, Some(5));
    let row: db_dump::users::Row = decode(&["gh_avatar", "gh_id", "gh_login", "id", "name"], &["a.png", "-1", "ghost", "2", ""]).unwrap();
    assert_eq!((row.id, row.gh_id, row.name), (UserId(2), -1, None));
    let row: db_dump::users::Row = decode(&["gh_avatar", "gh_id", "gh_login", "id", "name"], &["a.png", "12", "alice", "2", "Alice"]).unwrap();
    assert_eq!(row.name.as_deref(), Some("Alice"));
    let e = decode::<db_dump::users::Row>(&["gh_avatar", "gh_id", "gh_login", "id", "name"], &["a.png", "2147483648", "alice", "2", "Alice"]).unwrap_err();
    assert_eq!(e.kind, ErrorKind::Invalid { column: db_dump::users::GH_ID, expected: Expected::Integer });
}

const VERSION_HEADERS: [&str; 24] = ["bin_names", "categories", "checksum", "crate_id", "crate_size", "created_at", "description", "documentation", "downloads", "edition", "features", "has_lib", "homepage", "id", "keywords", "license", "links", "num", "num_no_build", "published_by", "repository", "rust_version", "updated_at", "yanked"];
const VERSION_ROW: [&str; 24] = ["{cli,tool}", "{parsing}", "6b86b273ff34fce19d6b804eff5a3f5747ada4eaa22f1d49c01e52ddb7875b4b", "7", "2048", "2020-01-01 12:11:10.99", "A parser.", "", "31337", "2021", r#"{"default":["std"],"std":[]}"#, "t", "", "100", "{a,b}", "MIT OR Apache-2.0", "", "1.2.3+meta", "1.2.3", "9", "https://example.com/r", "1.56", "2020-01-02 12:11:10", "f"];

#[test]
fn version_row_with_every_column() {
    let row: db_dump::versions::Row = decode(&VERSION_HEADERS, &VERSION_ROW).unwrap();
    assert_eq!((row.id, row.crate_id), (VersionId(100), CrateId(7)));
    assert_eq!(row.num, Version { major: 1, minor: 2, patch: 3, pre: String::new(), build: "meta".to_owned() });
    assert_eq!(row.created_at.microsecond(), 990000);
    assert_eq!(row.updated_at.date(), Date::from_ymd(2020, 1, 2));
    assert_eq!(row.downloads, 31337);
    assert_eq!(row.features, vec![("default".to_owned(), vec!["std".to_owned()]), ("std".to_owned(), vec![])]);
    assert_eq!(row.yanked, false);
    assert_eq!(row.license, "MIT OR Apache-2.0");
    assert_eq!(row.crate_size, Some(2048));
    assert_eq!(row.published_by, Some(UserId(9)));
    assert_eq!(row.checksum.unwrap()[0], 0x6b);
    assert_eq!(row.links, None);
    assert_eq!(row.rust_version, Some(Version { major: 1, minor: 56, patch: 0, pre: String::new(), build: String::new() }));
    assert_eq!(row.has_lib, true);
    assert_eq!(row.bin_names, vec!["cli", "tool"]);
    assert_eq!(row.edition, Some(2021));
    assert_eq!(row.description.as_deref(), Some("A parser."));
    assert_eq!(row.homepage, None);
    assert_eq!(row.documentation, None);
    assert_eq!(row.repository.as_deref(), Some("https://example.com/r"));
    assert_eq!(row.categories, vec!["parsing"]);
    assert_eq!(row.keywords, vec!["a", "b"]);
}

#[test]
fn version_row_of_an_old_dump_takes_defaults() {
    let headers = ["id", "crate_id", "num", "updated_at", "created_at", "downloads", "features", "yanked", "license"];
    let row: db_dump::versions::Row = decode(&headers, &["1", "2", "0.0.1-001", "2020-01-01 00:00:00", "2020-01-01 00:00:00", "0", "{}", "t", ""]).unwrap();
    assert_eq!(row.num, Version { major: 0, minor: 0, patch: 1, pre: "1".to_owned(), build: String::new() });
    assert_eq!(row.yanked, true);
    assert_eq!(row.crate_size, None);
    assert_eq!(row.published_by, None);
    assert_eq!(row.checksum, None);
    assert_eq!(row.links, None);
    assert_eq!(row.rust_version, None);
    assert_eq!(row.has_lib, false);
    assert!(row.bin_names.is_empty());
    assert_eq!(row.edition, None);
    assert!(row.categories.is_empty());
    assert!(row.keywords.is_empty());
    assert!(row.features.is_empty());
}

fn version_with(column: &str, cell: &str) -> Result<db_dump::versions::Row, Error> {
    let mut row = VERSION_ROW;
    let at = VERSION_HEADERS.iter().position(|h| *h == column).unwrap();
    row[at] = cell;
    decode(&VERSION_HEADERS, &row)
}

#[test]
fn version_row_cells_that_may_be_empty() {
    assert_eq!(version_with("has_lib", "").unwrap().has_lib, false);
    assert_eq!(version_with("has_lib", "f").unwrap().has_lib, false);
    assert_eq!(version_with("bin_names", "").unwrap().bin_names, Vec::<String>::new());
    assert_eq!(version_with("checksum", "").unwrap().checksum, None);
    assert_eq!(version_with("rust_version", "").unwrap().rust_version, None);
    assert_eq!(version_with("rust_version", ">=1.60").unwrap().rust_version, None);
    assert_eq!(version_with("links", "z").unwrap().links.as_deref(), Some("z"));
    assert_eq!(version_with("num_no_build", "anything at all").unwrap().id, VersionId(100));
    assert_eq!(version_with("edition", "").unwrap().edition, None);
}

#[test]
fn version_row_cells_that_are_rejected() {
    for (column, cell, k, expected) in [
        ("id", "", v::ID, Expected::Integer),
        ("num", "1.2", v::NUM, Expected::Version),
        ("updated_at", "2020", v::UPDATED_AT, Expected::DateTime),
        ("features", "{a,b}", v::FEATURES, Expected::Features),
        ("yanked", "", v::YANKED, Expected::Bool),
        ("crate_size", "big", v::CRATE_SIZE, Expected::Integer),
        ("published_by", "me", v::PUBLISHED_BY, Expected::Integer),
        ("checksum", "6b86", v::CHECKSUM, Expected::Checksum),
        ("rust_version", "nightly", v::RUST_VERSION, Expected::RustVersion),
        ("has_lib", "yes", v::HAS_LIB, Expected::Bool),
        ("bin_names", "cli", v::BIN_NAMES, Expected::List),
        ("edition", "65536", v::EDITION, Expected::Integer),
        ("categories", "", v::CATEGORIES, Expected::List),
        ("keywords", "", v::KEYWORDS, Expected::List),
    ] {
        let e = version_with(column, cell).unwrap_err();
        assert_eq!(e.kind, ErrorKind::Invalid { column: k, expected }, "{}", column);
    }
}

#[test]
fn schema_matches_the_tables() {
    assert_eq!(Table::COUNT, 18);
    assert_eq!((0..Table::COUNT).filter(|i| Table::nth(*i).loadable()).count(), 14);
    assert!(!Table::Badges.loadable() && !Table::VersionAuthors.loadable());
    assert!(!Table::DefaultVersions.loadable() && !Table::DeletedCrates.loadable());
    for i in 0..Table::COUNT {
        let table = Table::nth(i);
        assert_eq!(table.index(), i);
        assert_eq!(table.file_name(), format!("{}.csv", table.name()));
        for k in 0..table.columns() {
            assert_eq!(table.find_column(table.column(k)), Some(k));
            assert!(table.has_column(table.column(k)));
        }
        assert_eq!(table.find_column("no_such_column"), None);
    }
    assert_eq!(Table::Versions.columns(), 24);
    assert_eq!(Table::Versions.column(db_dump::versions::RUST_VERSION), "rust_version");
    assert!(Table::Versions.required(db_dump::versions::NUM));
    assert!(!Table::Versions.required(db_dump::versions::NUM_NO_BUILD));
    assert!(!Table::Users.required(db_dump::users::NAME));
    assert!(Table::Users.required(db_dump::users::GH_ID));
}

#[test]
fn rows_of_tables_that_the_loader_passes_over() {
    let row: db_dump::default_versions::Row = decode(&["crate_id", "version_id"], &["1", "2"]).unwrap();
    assert_eq!((row.crate_id, row.version_id), (CrateId(1), VersionId(2)));
    let row: db_dump::version_authors::Row = decode(&["id", "version_id", "name"], &["1", "2", "Ferris <f@example.com>"]).unwrap();
    assert_eq!((row.id, row.version_id, row.name.as_str()), (1, VersionId(2), "Ferris <f@example.com>"));
    let headers = ["id", "name", "created_at", "deleted_at", "deleted_by", "message", "available_at"];
    let row: db_dump::deleted_crates::Row = decode(&headers, &["5", "gone", "2020-01-01 00:00:00", "2021-01-01 00:00:00", "", "spam", "2021-02-01 00:00:00"]).unwrap();
    assert_eq!(row.id, db_dump::deleted_crates::DeletedCrateId(5));
    assert_eq!((row.name.as_str(), row.message.as_str(), row.deleted_by), ("gone", "spam", None));
    assert_eq!(row.available_at.date(), Date::from_ymd(2021, 2, 1));
    let row: db_dump::deleted_crates::Row = decode(&headers, &["5", "gone", "2020-01-01 00:00:00", "2021-01-01 00:00:00", "8", "spam", "2021-02-01 00:00:00"]).unwrap();
    assert_eq!(row.deleted_by, Some(UserId(8)));
    let e = decode::<db_dump::deleted_crates::Row>(&headers, &["5", "gone", "2020-01-01 00:00:00", "then", "8", "spam", "soon"]).unwrap_err();
    assert_eq!(e.kind, ErrorKind::Invalid { column: db_dump::deleted_crates::DELETED_AT, expected: Expected::DateTime });
}

#[test]
fn error_message_names_table_and_cell() {
    let e = decode::<db_dump::crate_downloads::Row>(&["crate_id", "downloads"], &["7", "lots"]).unwrap_err();
    assert_eq!(e.message(), "invalid value, expected integer: lots");
    let e = e.in_table(Table::CrateDownloads);
    assert_eq!(e.table, Some(Table::CrateDownloads));
    assert_eq!(e.message(), "crate_downloads.csv: invalid value, expected integer: lots");
    let e = Error::new(ErrorKind::UnknownColumn { position: 3 }, "colour".to_owned()).in_table(Table::Crates);
    assert_eq!(e.message(), "crates.csv: unknown column: colour");
    for (kind, words) in [
        (ErrorKind::Archive, "malformed archive"),
        (ErrorKind::Tokenize, "malformed csv"),
        (ErrorKind::UnrecognizedTable, "unrecognized table"),
        (ErrorKind::UnequalLengths, "row and header differ in length"),
        (ErrorKind::DuplicateColumn { position: 0 }, "duplicate column"),
        (ErrorKind::MissingColumn { column: 0 }, "missing column"),
    ] {
        assert_eq!(kind.describe(), words);
    }
}

#[test]
fn rows_with_a_key_are_told_apart_by_it() {
    let a: db_dump::categories::Row = decode(&CATEGORY_HEADERS, &CATEGORY_ROW).unwrap();
    let mut b = a.clone();
    b.slug = "other".to_owned();
    assert!(a == b);
    assert_eq!(a.partial_cmp(&b), Some(std::cmp::Ordering::Equal));
    b.id = CategoryId(31);
    assert!(a != b);
    assert!(a < b);
    assert!(b > a);
    assert_eq!(b.partial_cmp(&a), Some(std::cmp::Ordering::Greater));
}

#[test]
fn owner_compares_with_users_and_teams() {
    let user = OwnerId::User(UserId(3));
    let team = OwnerId::Team(TeamId(3));
    assert!(user == UserId(3));
    assert!(user != UserId(4));
    assert!(user != TeamId(3));
    assert!(team == TeamId(3));
    assert!(team != TeamId(4));
    assert!(team != UserId(3));
    assert!(UserId(3) == user);
    assert!(UserId(3) != team);
    assert!(TeamId(3) == team);
    assert!(TeamId(3) != user);
    assert!(user != team);
}
