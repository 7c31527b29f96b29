use db_dump::badges::{badge, badge_from, status, BadgeType, Kind, MaintenanceStatus};
use db_dump::crates::CrateId;
use db_dump::error::{ErrorKind, Expected};
use db_dump::record::FromRecord;

fn row(badge_type: &str, attributes: &str) -> Result<db_dump::badges::Row, db_dump::Error> {
    let headers = vec!["crate_id".to_owned(), "badge_type".to_owned(), "attributes".to_owned()];
    let cells = vec!["7".to_owned(), badge_type.to_owned(), attributes.to_owned()];
    db_dump::badges::Row::from_record(&cells, &headers)
}

fn text(text: &str) -> Option<String> {
    Some(text.to_owned())
}

#[test]
fn badge_of_each_known_kind() {
    assert_eq!(
        row("appveyor", r#"{"repository":"r","project-name":"p","branch":null,"id":"i"}"#).unwrap().badge_type,
        BadgeType::Appveyor { repository: "r".to_owned(), project_name: text("p"), branch: None, service: None, id: text("i") }
    );
    assert_eq!(
        row("appveyor", r#"{"repository":"r","project_name":"q","service":"github"}"#).unwrap().badge_type,
        BadgeType::Appveyor { repository: "r".to_owned(), project_name: text("q"), branch: None, service: text("github"), id: None }
    );
    assert_eq!(
        row("azure-devops", r#"{"project":"p","pipeline":"l"}"#).unwrap().badge_type,
        BadgeType::AzureDevops { project: "p".to_owned(), pipeline: "l".to_owned(), build: None }
    );
    assert_eq!(
        row("bitbucket-pipelines", r#"{"repository":"r","branch":"main"}"#).unwrap().badge_type,
        BadgeType::BitbucketPipelines { repository: "r".to_owned(), branch: "main".to_owned() }
    );
    assert_eq!(
        row("circle-ci", r#"{"repository":"r"}"#).unwrap().badge_type,
        BadgeType::CircleCi { repository: "r".to_owned(), branch: None }
    );
    assert_eq!(
        row("cirrus-ci", r#"{"branch":"b","repository":"r"}"#).unwrap().badge_type,
        BadgeType::CirrusCi { repository: "r".to_owned(), branch: text("b") }
    );
    assert_eq!(
        row("codecov", r#"{"repository":"r","service":"gitlab"}"#).unwrap().badge_type,
        BadgeType::Codecov { repository: "r".to_owned(), branch: None, service: text("gitlab") }
    );
    assert_eq!(
        row("coveralls", r#"{"repository":"r","branch":"b","service":"s"}"#).unwrap().badge_type,
        BadgeType::Coveralls { repository: "r".to_owned(), branch: text("b"), service: text("s") }
    );
    assert_eq!(
        row("gitlab", r#"{"repository":"r","tag":"v1"}"#).unwrap().badge_type,
        BadgeType::Gitlab { repository: "r".to_owned(), branch: None, tag: text("v1") }
    );
    assert_eq!(
        row("is-it-maintained-issue-resolution", r#"{"repository":"r"}"#).unwrap().badge_type,
        BadgeType::IsItMaintainedIssueResolution { repository: "r".to_owned(), service: None }
    );
    assert_eq!(
        row("is-it-maintained-open-issues", r#"{"repository":"r","service":"s"}"#).unwrap().badge_type,
        BadgeType::IsItMaintainedOpenIssues { repository: "r".to_owned(), service: text("s") }
    );
    assert_eq!(
        row("maintenance", r#"{"status":"passively-maintained"}"#).unwrap().badge_type,
        BadgeType::Maintenance { status: MaintenanceStatus::PassivelyMaintained }
    );
    assert_eq!(
        row("travis-ci", r#"{"repository":"r","master":"m","tld":"com"}"#).unwrap().badge_type,
        BadgeType::TravisCi { repository: "r".to_owned(), branch: None, service: None, master: text("m"), tld: text("com") }
    );
    assert_eq!(row("travis-ci", r#"{"repository":"r"}"#).unwrap().crate_id, CrateId(7));
}

#[test]
fn badge_of_another_kind_keeps_its_attributes() {
    assert_eq!(
        row("shiny", r#"{"b":"2","a":"1"}"#).unwrap().badge_type,
        BadgeType::Other { badge_type: "shiny".to_owned(), attributes: vec![("a".to_owned(), "1".to_owned()), ("b".to_owned(), "2".to_owned())] }
    );
    assert_eq!(
        row("", "{}").unwrap().badge_type,
        BadgeType::Other { badge_type: String::new(), attributes: vec![] }
    );
    assert!(row("shiny", r#"{"a":null}"#).is_err());
}

#[test]
fn badge_attributes_that_are_rejected() {
    for (badge_type, attributes) in [
        ("appveyor", "{}"),
        ("appveyor", r#"{"repository":null}"#),
        ("appveyor", r#"{"repository":"r","colour":"red"}"#),
        ("appveyor", r#"{"repository":"r","project_name":"a","project-name":"b"}"#),
        ("azure-devops", r#"{"project":"p"}"#),
        ("bitbucket-pipelines", r#"{"repository":"r"}"#),
        ("circle-ci", r#"{"repository":"r","tag":"t"}"#),
        ("maintenance", r#"{"status":"abandoned"}"#),
        ("maintenance", r#"{"status":"None"}"#),
        ("maintenance", "{}"),
        ("gitlab", r#"{"repository":7}"#),
        ("gitlab", r#"["repository"]"#),
        ("gitlab", "repository"),
        ("gitlab", ""),
    ] {
        let e = row(badge_type, attributes).unwrap_err();
        assert_eq!(e.kind, ErrorKind::Invalid { column: db_dump::badges::ATTRIBUTES, expected: Expected::Badge }, "{} {}", badge_type, attributes);
    }
    let e = db_dump::badges::Row::from_record(&vec!["x".to_owned(), "gitlab".to_owned(), r#"{"repository":"r"}"#.to_owned()], &vec!["crate_id".to_owned(), "badge_type".to_owned(), "attributes".to_owned()]).unwrap_err();
    assert_eq!(e.kind, ErrorKind::Invalid { column: db_dump::badges::CRATE_ID, expected: Expected::Integer });
}

#[test]
fn badge_is_made_of_plain_attributes() {
    let attributes = vec![("repository".to_owned(), text("r")), ("branch".to_owned(), None)];
    assert_eq!(badge("circle-ci", &attributes), Some(BadgeType::CircleCi { repository: "r".to_owned(), branch: None }));
    assert_eq!(badge("bitbucket-pipelines", &attributes), None);
    assert_eq!(badge("maintenance", &attributes), None);
    assert_eq!(badge("new-kind", &attributes), None);
    let e = badge_from("circle-ci", "the cell", Err("the message".to_owned())).unwrap_err();
    assert_eq!((e.expected, e.detail.as_str()), (Expected::Badge, "the message"));
    let e = badge_from("bitbucket-pipelines", "the cell", Ok(attributes)).unwrap_err();
    assert_eq!(e.detail, "the cell");
}

#[test]
fn maintenance_status_names() {
    assert_eq!(status("actively-developed"), Some(MaintenanceStatus::ActivelyDeveloped));
    assert_eq!(status("as-is"), Some(MaintenanceStatus::AsIs));
    assert_eq!(status("deprecated"), Some(MaintenanceStatus::Deprecated));
    assert_eq!(status("experimental"), Some(MaintenanceStatus::Experimental));
    assert_eq!(status("looking-for-maintainer"), Some(MaintenanceStatus::LookingForMaintainer));
    assert_eq!(status("none"), Some(MaintenanceStatus::Unspecified));
    assert_eq!(status("passively-maintained"), Some(MaintenanceStatus::PassivelyMaintained));
    assert_eq!(status("as_is"), None);
    assert_eq!(Kind::of("travis-ci"), Some(Kind::TravisCi));
    assert_eq!(Kind::of("travis"), None);
    assert!(Kind::Appveyor.allows("project-name"));
    assert!(!Kind::Gitlab.allows("project-name"));
}
