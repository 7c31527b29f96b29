use db_dump::error::{ErrorKind, Expected};
use db_dump::load::{Append, Consumer, Each, Keep};
use db_dump::plan::{select, Action, Selection};
use db_dump::table::Table;
use db_dump::{load_all, Loader};
use std::cell::RefCell;
use std::io::Write;

fn archive(files: &[(&str, &str)]) -> Vec<u8> {
    let gz = flate2::write::GzEncoder::new(Vec::new(), flate2::Compression::default());
    let mut tar = tar::Builder::new(gz);
    for (path, content) in files {
        let mut header = tar::Header::new_gnu();
        header.set_size(content.len() as u64);
        header.set_mode(0o644);
        header.set_cksum();
        tar.append_data(&mut header, path, content.as_bytes()).unwrap();
    }
    tar.into_inner().unwrap().finish().unwrap()
}

const CATEGORIES: &str = "category,crates_cnt,created_at,description,id,path,slug\nAlgorithms,3,2017-01-17 19:13:05.112414,About algorithms.,1,algorithms,algorithms\nAudio,1,2017-01-17 19:13:05.112414,\"About, audio.\",2,audio,audio\n";
const CRATES: &str = "created_at,description,documentation,homepage,id,max_features,max_upload_size,name,readme,repository,updated_at\n2014-11-11 02:04:13.017423,d,,,10,,,alpha,,,2023-05-05 01:01:01\n2014-11-11 02:04:13.017423,d,,,11,,,beta,,,2023-05-05 01:01:01\n2014-11-11 02:04:13.017423,d,,,12,,,gamma,,,2023-05-05 01:01:01\n";
const KEYWORDS: &str = "crates_cnt,created_at,id,keyword\n5,2014-11-21 00:22:50.038243,1,http\n";
const BROKEN_CATEGORIES: &str = "category,crates_cnt,created_at,description,id,path,slug\nAlgorithms,many,never,d,x,p,s\n";
const BROKEN_KEYWORDS: &str = "colour\nred\n";

#[test]
fn only_the_registered_table_is_decoded() {
    let bytes = archive(&[
        ("2020-01-01-000000/data/categories.csv", BROKEN_CATEGORIES),
        ("2020-01-01-000000/data/crates.csv", CRATES),
        ("2020-01-01-000000/data/keywords.csv", BROKEN_KEYWORDS),
    ]);
    let names = RefCell::new(Vec::new());
    let mut loader = Loader::new();
    loader.crates(Each::new(|row: db_dump::crates::Row| names.borrow_mut().push(row.name)));
    loader.load(&bytes).unwrap();
    drop(loader);
    assert_eq!(names.into_inner(), vec!["alpha", "beta", "gamma"]);
}

#[test]
fn load_stops_once_every_registered_table_is_done() {
    let mut bytes = archive(&[
        ("2020-01-01-000000/data/categories.csv", BROKEN_CATEGORIES),
        ("2020-01-01-000000/data/crates.csv", CRATES),
    ]);
    let whole = archive(&[
        ("2020-01-01-000000/data/categories.csv", BROKEN_CATEGORIES),
        ("2020-01-01-000000/data/crates.csv", CRATES),
        ("2020-01-01-000000/data/mystery.csv", "a\n1\n"),
    ]);
    let mut count = 0;
    let mut loader = Loader::new();
    loader.strict(true).crates(Each::new(|_| count += 1));
    loader.load(&whole).unwrap();
    assert!(loader.is_finished());
    assert!(!loader.is_pending(Table::Crates));
    drop(loader);
    assert_eq!(count, 3);

    // The same walk with another table still waiting reaches the file that
    // strict mode rejects.
    let mut loader = Loader::new();
    loader.strict(true).crates(Each::new(|_: db_dump::crates::Row| {})).users(Each::new(|_: db_dump::users::Row| {}));
    let e = loader.load(&whole).unwrap_err();
    assert_eq!(e.kind, ErrorKind::UnrecognizedTable);
    assert_eq!(e.detail, "2020-01-01-000000/data/mystery.csv");
    assert!(!loader.is_pending(Table::Crates));
    assert!(loader.is_pending(Table::Users));
    drop(loader);

    // A walk that must go on to the end of a cut-off archive fails.
    bytes.truncate(bytes.len() / 2);
    let mut loader = Loader::new();
    loader.users(Each::new(|_: db_dump::users::Row| {}));
    let e = loader.load(&bytes).unwrap_err();
    assert_eq!(e.kind, ErrorKind::Archive);
}

#[test]
fn a_table_is_read_once() {
    let bytes = archive(&[
        ("a/keywords.csv", KEYWORDS),
        ("b/keywords.csv", KEYWORDS),
        ("c/keywords.csv", BROKEN_KEYWORDS),
        ("a/categories.csv", CATEGORIES),
    ]);
    let mut keywords = Vec::new();
    let mut categories = Vec::new();
    let mut loader = Loader::new();
    loader.keywords(Append::new(&mut keywords)).categories(Append::new(&mut categories));
    loader.load(&bytes).unwrap();
    drop(loader);
    assert_eq!(keywords.len(), 1);
    assert_eq!(categories.len(), 2);
    assert_eq!(categories[1].description, "About, audio.");
}

#[test]
fn each_load_reads_its_archive_afresh() {
    let bytes = archive(&[("a/keywords.csv", KEYWORDS), ("b/keywords.csv", KEYWORDS)]);
    let mut keywords = Vec::new();
    let mut loader = Loader::new();
    loader.keywords(Append::new(&mut keywords));
    loader.load(&bytes).unwrap();
    assert!(loader.is_finished());
    loader.load(&bytes).unwrap();
    assert!(loader.is_finished());
    let e = loader.load(b"not an archive").unwrap_err();
    assert_eq!(e.kind, ErrorKind::Archive);
    assert!(loader.is_pending(Table::Keywords));
    drop(loader);
    assert_eq!(keywords.len(), 2);
}

#[test]
fn loader_without_consumers_reads_nothing() {
    let mut loader = Loader::new();
    assert!(loader.is_finished());
    loader.load(b"not even gzip").unwrap();
    loader.strict(true);
    loader.load(&archive(&[("a/mystery.csv", "a\n")])).unwrap();
    assert!(loader.unrecognized().is_empty());
}

#[test]
fn unrecognized_table_is_noted_by_default() {
    let bytes = archive(&[
        ("a/mystery.csv", "a,b\n1,2\n"),
        ("a/README.md", "hello"),
        ("a/badges.csv", "whatever"),
        ("a/version_authors.csv", "whatever"),
        ("a/.csv", "x"),
        ("a/xcrates.csv", "x"),
        ("a/keywords.csv", KEYWORDS),
    ]);
    let mut keywords = Vec::new();
    let mut loader = Loader::new();
    loader.keywords(Append::new(&mut keywords));
    loader.load(&bytes).unwrap();
    assert_eq!(loader.unrecognized(), &vec!["a/mystery.csv".to_owned(), "a/xcrates.csv".to_owned()]);
    drop(loader);
    assert_eq!(keywords.len(), 1);
}

#[test]
fn unrecognized_table_fails_a_strict_load() {
    let bytes = archive(&[("a/mystery.csv", "a,b\n1,2\n"), ("a/keywords.csv", KEYWORDS)]);
    let mut keywords = Vec::new();
    let mut loader = Loader::new();
    loader.keywords(Append::new(&mut keywords)).strict(true);
    let e = loader.load(&bytes).unwrap_err();
    assert_eq!(e.kind, ErrorKind::UnrecognizedTable);
    assert_eq!(e.table, None);
    assert_eq!(e.message(), "unrecognized table: a/mystery.csv");
    assert!(loader.unrecognized().is_empty());
    drop(loader);
    assert!(keywords.is_empty());
}

#[test]
fn decode_error_names_the_table_and_keeps_what_was_delivered() {
    let crates = format!("{}2014-11-11 02:04:13.017423,d,,,x,,,delta,,,2023-05-05 01:01:01\n", CRATES);
    let bytes = archive(&[("a/keywords.csv", KEYWORDS), ("a/crates.csv", &crates), ("a/categories.csv", CATEGORIES)]);
    let mut keywords = Vec::new();
    let mut names = Vec::new();
    let mut categories = Vec::new();
    let mut loader = Loader::new();
    loader
        .keywords(Append::new(&mut keywords))
        .crates(Each::new(|row: db_dump::crates::Row| names.push(row.name)))
        .categories(Append::new(&mut categories));
    let e = loader.load(&bytes).unwrap_err();
    assert_eq!(e.table, Some(Table::Crates));
    assert_eq!(e.kind, ErrorKind::Invalid { column: db_dump::crates::ID, expected: Expected::Integer });
    assert_eq!(e.message(), "crates.csv: invalid value, expected integer: x");
    assert!(!loader.is_pending(Table::Keywords));
    assert!(loader.is_pending(Table::Crates));
    assert!(loader.is_pending(Table::Categories));
    drop(loader);
    assert_eq!(keywords.len(), 1);
    assert_eq!(names, vec!["alpha", "beta", "gamma"]);
    assert!(categories.is_empty());
}

#[test]
fn schema_and_tokenizer_errors_name_the_table() {
    let mut rows = Vec::new();
    let mut loader = Loader::new();
    loader.keywords(Append::new(&mut rows));
    let e = loader.load(&archive(&[("a/keywords.csv", BROKEN_KEYWORDS)])).unwrap_err();
    assert_eq!((e.table, e.kind), (Some(Table::Keywords), ErrorKind::UnknownColumn { position: 0 }));
    let e = loader.load(&archive(&[("a/keywords.csv", "crates_cnt,created_at,id\n1,2014-11-21 00:22:50,1\n")])).unwrap_err();
    assert_eq!((e.table, e.kind), (Some(Table::Keywords), ErrorKind::MissingColumn { column: db_dump::keywords::KEYWORD }));
    let e = loader.load(&archive(&[("a/keywords.csv", "crates_cnt,created_at,id,keyword\n1,2014-11-21 00:22:50,1\n")])).unwrap_err();
    assert_eq!((e.table, e.kind), (Some(Table::Keywords), ErrorKind::Tokenize));
    loader.load(&archive(&[("a/keywords.csv", "crates_cnt,created_at,id,keyword\n1,2014-11-21 00:22:50,1,rust\n")])).unwrap();
    drop(loader);
    assert_eq!(rows.len(), 1);
}

#[test]
fn header_row_without_rows_is_an_empty_table() {
    let mut rows: Vec<db_dump::keywords::Row> = Vec::new();
    let mut loader = Loader::new();
    loader.keywords(Append::new(&mut rows));
    loader.load(&archive(&[("a/keywords.csv", "colour\n")])).unwrap();
    assert!(loader.is_finished());
    drop(loader);
    assert!(rows.is_empty());
}

#[test]
fn damaged_archive_is_an_archive_error() {
    let mut rows: Vec<db_dump::keywords::Row> = Vec::new();
    let mut loader = Loader::new();
    loader.keywords(Append::new(&mut rows));
    let e = loader.load(b"this is not gzip").unwrap_err();
    assert_eq!((e.kind, e.table), (ErrorKind::Archive, None));
    let mut gz = flate2::write::GzEncoder::new(Vec::new(), flate2::Compression::default());
    gz.write_all(b"this is gzip but not tar, and it goes on for a while to fill a block").unwrap();
    let e = loader.load(&gz.finish().unwrap()).unwrap_err();
    assert_eq!((e.kind, e.table), (ErrorKind::Archive, None));
    assert!(loader.is_pending(Table::Keywords));
}

#[test]
fn select_goes_by_the_file_name() {
    assert_eq!(select(None), Selection::NotCsv);
    assert_eq!(select(Some("crates.csv")), Selection::Known(Table::Crates));
    assert_eq!(select(Some("crates_categories.csv")), Selection::Known(Table::CratesCategories));
    assert_eq!(select(Some("version_downloads.csv")), Selection::Known(Table::VersionDownloads));
    assert_eq!(select(Some("badges.csv")), Selection::Retired);
    assert_eq!(select(Some("version_authors.csv")), Selection::Retired);
    assert_eq!(select(Some("default_versions.csv")), Selection::Unrecognized);
    assert_eq!(select(Some("Crates.csv")), Selection::Unrecognized);
    assert_eq!(select(Some("crates.CSV")), Selection::NotCsv);
    assert_eq!(select(Some("crates.csv.gz")), Selection::NotCsv);
    assert_eq!(select(Some("crates")), Selection::NotCsv);
    assert_eq!(select(Some(".csv")), Selection::NotCsv);
    assert_eq!(select(Some("csv")), Selection::NotCsv);
    assert_eq!(select(Some("")), Selection::NotCsv);
    assert_eq!(select(Some("a.csv")), Selection::Unrecognized);
    assert_eq!(select(Some("deleted_crates.csv")), Selection::Unrecognized);
    for i in 0..Table::COUNT {
        let table = Table::nth(i);
        if table.loadable() {
            assert_eq!(select(Some(table.file_name())), Selection::Known(table));
        } else {
            assert!(!matches!(select(Some(table.file_name())), Selection::Known(_)));
        }
    }
}

#[test]
fn action_reads_only_what_is_waiting() {
    let mut loader = Loader::new();
    assert_eq!(loader.action(Some("crates.csv")), Action::Skip);
    assert_eq!(loader.action(Some("mystery.csv")), Action::Note);
    assert_eq!(loader.action(Some("badges.csv")), Action::Skip);
    assert_eq!(loader.action(Some("notes.txt")), Action::Skip);
    assert_eq!(loader.action(None), Action::Skip);
    loader.crates(Each::new(|_: db_dump::crates::Row| {})).strict(true);
    assert_eq!(loader.action(Some("crates.csv")), Action::Read(Table::Crates));
    assert_eq!(loader.action(Some("keywords.csv")), Action::Skip);
    assert_eq!(loader.action(Some("mystery.csv")), Action::Fail);
    assert_eq!(loader.action(Some("badges.csv")), Action::Skip);
    loader.load(&archive(&[("x/crates.csv", CRATES)])).unwrap();
    assert_eq!(loader.action(Some("crates.csv")), Action::Skip);
    assert!(!loader.is_pending(Table::Crates));
}

#[test]
fn registering_again_makes_the_table_wait_again() {
    let bytes = archive(&[("x/keywords.csv", KEYWORDS)]);
    let mut first = Vec::new();
    let mut second = Vec::new();
    let mut loader = Loader::new();
    loader.keywords(Append::new(&mut first));
    loader.load(&bytes).unwrap();
    assert!(loader.is_finished());
    loader.keywords(Append::new(&mut second));
    assert!(loader.is_pending(Table::Keywords));
    loader.load(&bytes).unwrap();
    drop(loader);
    assert_eq!((first.len(), second.len()), (1, 1));
}

#[test]
fn load_all_fills_every_table() {
    let bytes = archive(&[
        ("d/data/categories.csv", CATEGORIES),
        ("d/data/crate_downloads.csv", "crate_id,downloads\n10,5\n11,6\n"),
        ("d/data/crate_owners.csv", "crate_id,created_at,created_by,owner_id,owner_kind\n10,2015-01-01 00:00:00,,1,0\n"),
        ("d/data/crates.csv", CRATES),
        ("d/data/crates_categories.csv", "crate_id,category_id\n10,1\n"),
        ("d/data/crates_keywords.csv", "crate_id,keyword_id\n10,1\n"),
        ("d/data/dependencies.csv", "id,version_id,crate_id,req,optional,default_features,features,target,kind\n1,100,11,^1,f,t,{},,0\n"),
        ("d/data/keywords.csv", KEYWORDS),
        ("d/data/metadata.csv", "total_downloads\n77\n"),
        ("d/data/reserved_crate_names.csv", "name\nstd\ncore\n"),
        ("d/data/teams.csv", "id,login,github_id,name,avatar,org_id\n1,l,2,n,a,\n"),
        ("d/data/users.csv", "id,gh_login,name,gh_avatar,gh_id\n1,ghost,,a,-1\n"),
        ("d/data/version_downloads.csv", "version_id,downloads,date\n100,1,2020-01-01\n100,2,2020-01-02\n"),
        ("d/data/versions.csv", "id,crate_id,num,updated_at,created_at,downloads,features,yanked,license\n100,10,1.0.0,2020-01-01 00:00:00,2020-01-01 00:00:00,3,{},f,MIT\n"),
        ("d/data/after.csv", "never,read\n"),
    ]);
    let db = load_all(&bytes).unwrap();
    assert_eq!(db.categories.len(), 2);
    assert_eq!(db.crate_downloads.len(), 2);
    assert_eq!(db.crate_owners.len(), 1);
    assert_eq!(db.crates.len(), 3);
    assert_eq!(db.crates_categories.len(), 1);
    assert_eq!(db.crates_keywords.len(), 1);
    assert_eq!(db.dependencies.len(), 1);
    assert_eq!(db.keywords.len(), 1);
    assert_eq!(db.metadata.total_downloads, 77);
    assert_eq!(db.reserved_crate_names.len(), 2);
    assert_eq!(db.teams.len(), 1);
    assert_eq!(db.users.len(), 1);
    assert_eq!(db.version_downloads.len(), 2);
    assert_eq!(db.versions.len(), 1);
    assert_eq!(db.version_downloads[1].downloads, 2);
}

#[test]
fn load_all_of_a_partial_dump_and_of_a_broken_one() {
    let db = load_all(&archive(&[("d/crates.csv", CRATES), ("d/mystery.csv", "x\n")])).unwrap();
    assert_eq!(db.crates.len(), 3);
    assert!(db.versions.is_empty());
    assert_eq!(db.metadata.total_downloads, 0);
    let e = load_all(&archive(&[("d/crates.csv", CRATES), ("d/categories.csv", BROKEN_CATEGORIES)])).err().unwrap();
    assert_eq!(e.table, Some(Table::Categories));
    let e = load_all(b"junk").err().unwrap();
    assert_eq!(e.kind, ErrorKind::Archive);
}

#[test]
fn keep_holds_the_last_record() {
    let bytes = archive(&[("d/metadata.csv", "total_downloads\n1\n22\n333\n")]);
    let mut last = db_dump::metadata::Row::default();
    let mut loader = Loader::new();
    loader.metadata(Keep::new(&mut last));
    loader.load(&bytes).unwrap();
    drop(loader);
    assert_eq!(last.total_downloads, 333);
    let db = load_all(&bytes).unwrap();
    assert_eq!(db.metadata.total_downloads, 333);
}

#[test]
fn append_adds_after_what_the_list_holds() {
    let bytes = archive(&[("d/keywords.csv", KEYWORDS)]);
    let mut rows = Vec::new();
    {
        let mut first = Append::new(&mut rows);
        let mut loader = Loader::new();
        loader.keywords(Each::new(|row: db_dump::keywords::Row| first.consume(row)));
        loader.load(&bytes).unwrap();
        loader.load(&bytes).unwrap();
    }
    assert_eq!(rows.len(), 2);
    assert_eq!(rows[0].keyword, "http");
    assert_eq!(rows[1].id, rows[0].id);
}

#[test]
fn load_all_keeps_rows_in_file_order_and_stops_at_the_first_fault() {
    let crates = "id,name,updated_at,created_at,description\n3,c,2020-01-01 00:00:00,2020-01-01 00:00:00,\n1,a,2020-01-01 00:00:00,2020-01-01 00:00:00,\n2,b,2020-01-01 00:00:00,2020-01-01 00:00:00,\n";
    let db = load_all(&archive(&[("d/crates.csv", crates), ("d/crates.csv", "id\nx\n")])).unwrap();
    let names: Vec<&str> = db.crates.iter().map(|row| row.name.as_str()).collect();
    assert_eq!(names, vec!["c", "a", "b"]);
    let broken = format!("{}x,d,2020-01-01 00:00:00,2020-01-01 00:00:00,\n", crates);
    let e = load_all(&archive(&[("d/crates.csv", &broken)])).err().unwrap();
    assert_eq!(e.table, Some(Table::Crates));
    assert_eq!(e.kind, ErrorKind::Invalid { column: db_dump::crates::ID, expected: Expected::Integer });
    let db = load_all(&archive(&[])).unwrap();
    assert!(db.crates.is_empty());
}

fn cut_archive(files: &[(&str, &str)], keep: usize) -> Vec<u8> {
    let mut tar = tar::Builder::new(Vec::new());
    for (path, content) in files {
        let mut header = tar::Header::new_gnu();
        header.set_size(content.len() as u64);
        header.set_mode(0o644);
        header.set_cksum();
        tar.append_data(&mut header, path, content.as_bytes()).unwrap();
    }
    let mut raw = tar.into_inner().unwrap();
    raw.truncate(keep);
    let mut gz = flate2::write::GzEncoder::new(Vec::new(), flate2::Compression::default());
    gz.write_all(&raw).unwrap();
    gz.finish().unwrap()
}

#[test]
fn the_file_name_is_what_follows_the_last_slash() {
    assert_eq!(db_dump::plan::file_name("2020-01-01-000000/data/crates.csv"), "crates.csv");
    assert_eq!(db_dump::plan::file_name("crates.csv"), "crates.csv");
    assert_eq!(db_dump::plan::file_name("data/"), "");
    assert_eq!(db_dump::plan::file_name(""), "");
    assert_eq!(db_dump::plan::file_name("a//b"), "b");
}

#[test]
fn a_broken_entry_after_the_last_registered_table_is_not_looked_at() {
    // One header block and one block of content for the first file, then
    // a part of the header of the second.
    let bytes = cut_archive(&[("a/keywords.csv", KEYWORDS), ("a/categories.csv", CATEGORIES)], 1024 + 100);
    let mut keywords = Vec::new();
    let mut loader = Loader::new();
    loader.keywords(Append::new(&mut keywords));
    loader.load(&bytes).unwrap();
    assert_eq!(loader.unrecognized().len(), 0);
    drop(loader);
    assert_eq!(keywords.len(), 1);

    let mut keywords = Vec::new();
    let mut categories = Vec::new();
    let mut loader = Loader::new();
    loader.keywords(Append::new(&mut keywords)).categories(Append::new(&mut categories));
    let e = loader.load(&bytes).unwrap_err();
    assert_eq!((e.kind, e.table), (ErrorKind::Archive, None));
    assert!(!loader.is_pending(Table::Keywords));
    assert!(loader.is_pending(Table::Categories));
    drop(loader);
    assert_eq!((keywords.len(), categories.len()), (1, 0));
}

#[test]
fn entries_that_are_passed_over_are_not_noted() {
    let bytes = archive(&[
        ("a/README.md", "read me"),
        ("a/metadata.json", "{}"),
        ("a/data/badges.csv", "not,a,table\n"),
        ("a/data/version_authors.csv", "\"broken"),
        ("a/data/categories.csv", BROKEN_CATEGORIES),
        ("a/data/keywords.csv", KEYWORDS),
    ]);
    for strict in [false, true] {
        let mut count = 0;
        let mut loader = Loader::new();
        loader.strict(strict).keywords(Each::new(|_| count += 1));
        loader.load(&bytes).unwrap();
        assert!(loader.unrecognized().is_empty());
        drop(loader);
        assert_eq!(count, 1);
    }
}

#[test]
fn a_second_load_delivers_the_rows_again() {
    let bytes = archive(&[("a/crates.csv", CRATES)]);
    let mut names = Vec::new();
    let mut loader = Loader::new();
    loader.crates(Each::new(|row: db_dump::crates::Row| names.push(row.name)));
    loader.load(&bytes).unwrap();
    loader.load(&bytes).unwrap();
    drop(loader);
    assert_eq!(names, ["alpha", "beta", "gamma", "alpha", "beta", "gamma"]);
}

#[test]
fn the_consumer_registered_last_is_the_one_that_is_handed_the_rows() {
    let bytes = archive(&[("a/crates.csv", CRATES)]);
    let mut first = Vec::new();
    let mut second = Vec::new();
    let mut loader = Loader::new();
    loader.crates(Append::new(&mut first));
    loader.crates(Append::new(&mut second));
    loader.load(&bytes).unwrap();
    drop(loader);
    assert_eq!((first.len(), second.len()), (0, 3));
}

#[test]
fn nothing_after_the_file_that_fails_a_strict_load_is_read() {
    let bytes = archive(&[
        ("a/mystery.csv", "a\n"),
        ("a/crates.csv", CRATES),
    ]);
    let mut count = 0;
    let mut loader = Loader::new();
    loader.strict(true).crates(Each::new(|_| count += 1));
    let e = loader.load(&bytes).unwrap_err();
    assert_eq!(e.kind, ErrorKind::UnrecognizedTable);
    assert!(loader.is_pending(Table::Crates));
    drop(loader);
    assert_eq!(count, 0);
}
