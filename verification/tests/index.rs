use db_dump::categories::CategoryId;
use db_dump::crates::CrateId;
use db_dump::keywords::KeywordId;
use db_dump::record::FromRecord;
use db_dump::teams::TeamId;
use db_dump::users::UserId;
use db_dump::versions::VersionId;
use db_dump::{DbDump, Index};

fn cells(cells: &[&str]) -> Vec<String> {
    cells.iter().map(|cell| (*cell).to_owned()).collect()
}

fn krate(id: &str, name: &str) -> db_dump::crates::Row {
    db_dump::crates::Row::from_record(
        &cells(&[id, name, "2020-01-01 00:00:00", "2020-01-01 00:00:00", ""]),
        &cells(&["id", "name", "updated_at", "created_at", "description"]),
    )
    .unwrap()
}

fn dump() -> DbDump {
    let mut db = DbDump::default();
    db.crates = vec![krate("30", "c"), krate("10", "a"), krate("20", "b"), krate("4000000000", "z")];
    db.categories.push(db_dump::categories::Row::from_record(&cells(&["7", "c", "s", "d", "0", "2020-01-01 00:00:00", "p"]), &cells(&["id", "category", "slug", "description", "crates_cnt", "created_at", "path"])).unwrap());
    db.keywords.push(db_dump::keywords::Row::from_record(&cells(&["8", "k", "0", "2020-01-01 00:00:00"]), &cells(&["id", "keyword", "crates_cnt", "created_at"])).unwrap());
    db.teams.push(db_dump::teams::Row::from_record(&cells(&["9", "l", "1", "n", "a"]), &cells(&["id", "login", "github_id", "name", "avatar"])).unwrap());
    db.users.push(db_dump::users::Row::from_record(&cells(&["11", "l", "a", "5"]), &cells(&["id", "gh_login", "gh_avatar", "gh_id"])).unwrap());
    db.versions.push(db_dump::versions::Row::from_record(&cells(&["12", "10", "1.0.0", "2020-01-01 00:00:00", "2020-01-01 00:00:00", "0", "{}", "f", "MIT"]), &cells(&["id", "crate_id", "num", "updated_at", "created_at", "downloads", "features", "yanked", "license"])).unwrap());
    db
}

#[test]
fn index_finds_rows_by_key() {
    let db = dump();
    let mut index = db.index();
    assert_eq!(index.krate(CrateId(10)).name, "a");
    assert_eq!(index.krate(CrateId(20)).name, "b");
    assert_eq!(index.krate(CrateId(30)).name, "c");
    assert_eq!(index.krate(CrateId(4000000000)).name, "z");
    assert!(index.find_krate(CrateId(40)).is_none());
    assert_eq!(index.category(CategoryId(7)).slug, "s");
    assert_eq!(index.keyword(KeywordId(8)).keyword, "k");
    assert_eq!(index.team(TeamId(9)).login, "l");
    assert_eq!(index.user(UserId(11)).gh_id, 5);
    assert_eq!(index.version(VersionId(12)).crate_id, CrateId(10));
    assert!(index.find_category(CategoryId(8)).is_none());
    assert!(index.find_keyword(KeywordId(7)).is_none());
    assert!(index.find_team(TeamId(0)).is_none());
    assert!(index.find_user(UserId(0)).is_none());
    assert!(index.find_version(VersionId(0)).is_none());
}

#[test]
fn two_indexes_find_the_identical_row() {
    let db = dump();
    let mut first = Index::new(&db);
    let mut second = db.index();
    let a = first.krate(CrateId(20));
    let b = second.krate(CrateId(20));
    let again = first.krate(CrateId(20));
    assert!(std::ptr::eq(a, b));
    assert!(std::ptr::eq(a, again));
    assert!(std::ptr::eq(a, &db.crates[2]));
}

#[test]
fn keys_look_their_rows_up() {
    let db = dump();
    let mut index = db.index();
    assert_eq!(CrateId(30).lookup(&mut index).name, "c");
    assert_eq!(CategoryId(7).lookup(&mut index).category, "c");
    assert_eq!(KeywordId(8).lookup(&mut index).id, KeywordId(8));
    assert_eq!(TeamId(9).lookup(&mut index).name, "n");
    assert_eq!(UserId(11).lookup(&mut index).gh_login, "l");
    assert_eq!(VersionId(12).lookup(&mut index).license, "MIT");
}

#[test]
fn the_last_row_of_a_repeated_key_is_found() {
    let mut db = DbDump::default();
    db.crates = vec![krate("1", "first"), krate("2", "other"), krate("1", "second")];
    let mut index = db.index();
    assert_eq!(index.find_krate(CrateId(1)).unwrap().name, "second");
    assert_eq!(index.find_krate(CrateId(2)).unwrap().name, "other");
}

#[test]
fn index_of_an_empty_dump() {
    let db = DbDump::default();
    let mut index = db.index();
    assert!(index.find_krate(CrateId(0)).is_none());
    assert!(index.find_version(VersionId(1)).is_none());
}
