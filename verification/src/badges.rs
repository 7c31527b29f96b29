//! `badges.csv`
//!
//! A badge is a kind and a JSON object of attributes. Each kind that is
//! known here has its own attributes; a badge of any other kind keeps the
//! attributes as they are.

use vstd::prelude::*;
use crate::cells::{integer_fault, integer_value, same_text};
use crate::crates::CrateId;
use crate::error::{Error, ErrorKind, Expected, Invalid};
use crate::record::{at, invalid_if, Faults, FromRecord, Layout, LayoutView};
use crate::table::Table;
use crate::text::{bytes_of, precedes, str_eq};

verus! {

/// What the maintenance badge says of a crate.
#[derive(Copy, Clone, Debug, PartialEq, Eq, Structural)]
pub enum MaintenanceStatus {
    ActivelyDeveloped,
    AsIs,
    Deprecated,
    Experimental,
    LookingForMaintainer,
    /// The status `none`, which says nothing.
    Unspecified,
    PassivelyMaintained,
}

/// A badge with the attributes of its kind.
#[derive(Clone, Debug, PartialEq, Eq)]
#[non_exhaustive]
#[allow(inconsistent_fields)]
pub enum BadgeType {
    Appveyor {
        repository: String,
        project_name: Option<String>,
        branch: Option<String>,
        service: Option<String>,
        id: Option<String>,
    },
    AzureDevops {
        project: String,
        pipeline: String,
        build: Option<String>,
    },
    BitbucketPipelines {
        repository: String,
        branch: String,
    },
    CircleCi {
        repository: String,
        branch: Option<String>,
    },
    CirrusCi {
        repository: String,
        branch: Option<String>,
    },
    Codecov {
        repository: String,
        branch: Option<String>,
        service: Option<String>,
    },
    Coveralls {
        repository: String,
        branch: Option<String>,
        service: Option<String>,
    },
    Gitlab {
        repository: String,
        branch: Option<String>,
        tag: Option<String>,
    },
    IsItMaintainedIssueResolution {
        repository: String,
        service: Option<String>,
    },
    IsItMaintainedOpenIssues {
        repository: String,
        service: Option<String>,
    },
    Maintenance { status: MaintenanceStatus },
    TravisCi {
        repository: String,
        branch: Option<String>,
        service: Option<String>,
        master: Option<String>,
        tld: Option<String>,
    },
    /// A badge of a kind that is not known here, with its attributes in
    /// the order of their names.
    Other { badge_type: String, attributes: Vec<(String, String)> },
}

/// The kinds of badge whose attributes are known.
#[derive(Copy, Clone, Debug, PartialEq, Eq, Structural)]
pub enum Kind {
    Appveyor,
    AzureDevops,
    BitbucketPipelines,
    CircleCi,
    CirrusCi,
    Codecov,
    Coveralls,
    Gitlab,
    IsItMaintainedIssueResolution,
    IsItMaintainedOpenIssues,
    Maintenance,
    TravisCi,
}

impl Kind {
    /// The kind that a badge type names, if it is a known one.
    pub open spec fn spec_of(badge_type: Seq<char>) -> Option<Kind> {
        if badge_type == "appveyor"@ {
            Some(Kind::Appveyor)
        } else if badge_type == "azure-devops"@ {
            Some(Kind::AzureDevops)
        } else if badge_type == "bitbucket-pipelines"@ {
            Some(Kind::BitbucketPipelines)
        } else if badge_type == "circle-ci"@ {
            Some(Kind::CircleCi)
        } else if badge_type == "cirrus-ci"@ {
            Some(Kind::CirrusCi)
        } else if badge_type == "codecov"@ {
            Some(Kind::Codecov)
        } else if badge_type == "coveralls"@ {
            Some(Kind::Coveralls)
        } else if badge_type == "gitlab"@ {
            Some(Kind::Gitlab)
        } else if badge_type == "is-it-maintained-issue-resolution"@ {
            Some(Kind::IsItMaintainedIssueResolution)
        } else if badge_type == "is-it-maintained-open-issues"@ {
            Some(Kind::IsItMaintainedOpenIssues)
        } else if badge_type == "maintenance"@ {
            Some(Kind::Maintenance)
        } else if badge_type == "travis-ci"@ {
            Some(Kind::TravisCi)
        } else {
            None
        }
    }

    /// Whether a badge of this kind may have an attribute named `key`.
    pub open spec fn spec_allows(self, key: Seq<char>) -> bool {
        match self {
            Kind::Appveyor => key == "repository"@ || key == "project_name"@
                || key == "project-name"@ || key == "branch"@ || key == "service"@ || key == "id"@,
            Kind::AzureDevops => key == "project"@ || key == "pipeline"@ || key == "build"@,
            Kind::BitbucketPipelines => key == "repository"@ || key == "branch"@,
            Kind::CircleCi => key == "repository"@ || key == "branch"@,
            Kind::CirrusCi => key == "repository"@ || key == "branch"@,
            Kind::Codecov => key == "repository"@ || key == "branch"@ || key == "service"@,
            Kind::Coveralls => key == "repository"@ || key == "branch"@ || key == "service"@,
            Kind::Gitlab => key == "repository"@ || key == "branch"@ || key == "tag"@,
            Kind::IsItMaintainedIssueResolution => key == "repository"@ || key == "service"@,
            Kind::IsItMaintainedOpenIssues => key == "repository"@ || key == "service"@,
            Kind::Maintenance => key == "status"@,
            Kind::TravisCi => key == "repository"@ || key == "branch"@ || key == "service"@
                || key == "master"@ || key == "tld"@,
        }
    }

    pub fn of(badge_type: &str) -> (r: Option<Kind>)
        ensures
            r == Kind::spec_of(badge_type@),
    {
        if str_eq(badge_type, "appveyor") {
            Some(Kind::Appveyor)
        } else if str_eq(badge_type, "azure-devops") {
            Some(Kind::AzureDevops)
        } else if str_eq(badge_type, "bitbucket-pipelines") {
            Some(Kind::BitbucketPipelines)
        } else if str_eq(badge_type, "circle-ci") {
            Some(Kind::CircleCi)
        } else if str_eq(badge_type, "cirrus-ci") {
            Some(Kind::CirrusCi)
        } else if str_eq(badge_type, "codecov") {
            Some(Kind::Codecov)
        } else if str_eq(badge_type, "coveralls") {
            Some(Kind::Coveralls)
        } else if str_eq(badge_type, "gitlab") {
            Some(Kind::Gitlab)
        } else if str_eq(badge_type, "is-it-maintained-issue-resolution") {
            Some(Kind::IsItMaintainedIssueResolution)
        } else if str_eq(badge_type, "is-it-maintained-open-issues") {
            Some(Kind::IsItMaintainedOpenIssues)
        } else if str_eq(badge_type, "maintenance") {
            Some(Kind::Maintenance)
        } else if str_eq(badge_type, "travis-ci") {
            Some(Kind::TravisCi)
        } else {
            None
        }
    }

    pub fn allows(self, key: &str) -> (r: bool)
        ensures
            r == self.spec_allows(key@),
    {
        match self {
            Kind::Appveyor => str_eq(key, "repository") || str_eq(key, "project_name")
                || str_eq(key, "project-name") || str_eq(key, "branch") || str_eq(key, "service")
                || str_eq(key, "id"),
            Kind::AzureDevops => str_eq(key, "project") || str_eq(key, "pipeline")
                || str_eq(key, "build"),
            Kind::BitbucketPipelines => str_eq(key, "repository") || str_eq(key, "branch"),
            Kind::CircleCi => str_eq(key, "repository") || str_eq(key, "branch"),
            Kind::CirrusCi => str_eq(key, "repository") || str_eq(key, "branch"),
            Kind::Codecov => str_eq(key, "repository") || str_eq(key, "branch")
                || str_eq(key, "service"),
            Kind::Coveralls => str_eq(key, "repository") || str_eq(key, "branch")
                || str_eq(key, "service"),
            Kind::Gitlab => str_eq(key, "repository") || str_eq(key, "branch")
                || str_eq(key, "tag"),
            Kind::IsItMaintainedIssueResolution => str_eq(key, "repository")
                || str_eq(key, "service"),
            Kind::IsItMaintainedOpenIssues => str_eq(key, "repository") || str_eq(key, "service"),
            Kind::Maintenance => str_eq(key, "status"),
            Kind::TravisCi => str_eq(key, "repository") || str_eq(key, "branch")
                || str_eq(key, "service") || str_eq(key, "master") || str_eq(key, "tld"),
        }
    }
}

/// The maintenance status that `text` names.
pub open spec fn spec_status(text: Seq<char>) -> Option<MaintenanceStatus> {
    if text == "actively-developed"@ {
        Some(MaintenanceStatus::ActivelyDeveloped)
    } else if text == "as-is"@ {
        Some(MaintenanceStatus::AsIs)
    } else if text == "deprecated"@ {
        Some(MaintenanceStatus::Deprecated)
    } else if text == "experimental"@ {
        Some(MaintenanceStatus::Experimental)
    } else if text == "looking-for-maintainer"@ {
        Some(MaintenanceStatus::LookingForMaintainer)
    } else if text == "none"@ {
        Some(MaintenanceStatus::Unspecified)
    } else if text == "passively-maintained"@ {
        Some(MaintenanceStatus::PassivelyMaintained)
    } else {
        None
    }
}

/// Reads a maintenance status.
pub fn status(text: &str) -> (r: Option<MaintenanceStatus>)
    ensures
        r == spec_status(text@),
{
    if str_eq(text, "actively-developed") {
        Some(MaintenanceStatus::ActivelyDeveloped)
    } else if str_eq(text, "as-is") {
        Some(MaintenanceStatus::AsIs)
    } else if str_eq(text, "deprecated") {
        Some(MaintenanceStatus::Deprecated)
    } else if str_eq(text, "experimental") {
        Some(MaintenanceStatus::Experimental)
    } else if str_eq(text, "looking-for-maintainer") {
        Some(MaintenanceStatus::LookingForMaintainer)
    } else if str_eq(text, "none") {
        Some(MaintenanceStatus::Unspecified)
    } else if str_eq(text, "passively-maintained") {
        Some(MaintenanceStatus::PassivelyMaintained)
    } else {
        None
    }
}

/// The attributes of a badge as JSON gives them: names with their texts,
/// or with nothing where the JSON has `null`.
pub open spec fn attributes_view(attributes: Seq<(String, Option<String>)>) -> Seq<
    (Seq<char>, Option<Seq<char>>),
> {
    attributes.map_values(
        |a: (String, Option<String>)|
            (
                a.0@,
                match a.1 {
                    Some(text) => Some(text@),
                    None => None,
                },
            ),
    )
}

/// The text of the attribute `name` among `attributes[from..]`: that of the
/// first attribute of that name, if it has a text.
pub open spec fn text_from(
    attributes: Seq<(Seq<char>, Option<Seq<char>>)>,
    name: Seq<char>,
    from: int,
) -> Option<Seq<char>>
    decreases attributes.len() - from,
{
    if from < 0 || from >= attributes.len() {
        None
    } else if attributes[from].0 == name {
        attributes[from].1
    } else {
        text_from(attributes, name, from + 1)
    }
}

/// The text of the attribute `name`, if the badge has it with a text.
pub open spec fn text_of(
    attributes: Seq<(Seq<char>, Option<Seq<char>>)>,
    name: Seq<char>,
) -> Option<
    Seq<char>,
> {
    text_from(attributes, name, 0)
}

/// Whether the badge has an attribute of the name `name`.
pub open spec fn has(attributes: Seq<(Seq<char>, Option<Seq<char>>)>, name: Seq<char>) -> bool {
    exists|i: int| 0 <= i < attributes.len() && #[trigger] attributes[i].0 == name
}

/// The project name of an appveyor badge, which may stand under either of
/// two names.
pub open spec fn spec_project_name(
    attributes: Seq<(Seq<char>, Option<Seq<char>>)>
) -> Option<Seq<char>> {
    if has(attributes, "project_name"@) {
        text_of(attributes, "project_name"@)
    } else {
        text_of(attributes, "project-name"@)
    }
}

/// Whether the attributes are those of a badge of the kind `kind`: each
/// has a name that the kind allows, and the attributes that the kind must
/// have are there with a text.
pub open spec fn accepts(kind: Kind, attributes: Seq<(Seq<char>, Option<Seq<char>>)>) -> bool {
    &&& forall|i: int| 0 <= i < attributes.len() ==> kind.spec_allows(#[trigger] attributes[i].0)
    &&& match kind {
        Kind::Appveyor => text_of(attributes, "repository"@) is Some
            && !(has(attributes, "project_name"@) && has(attributes, "project-name"@)),
        Kind::AzureDevops => text_of(attributes, "project"@) is Some
            && text_of(attributes, "pipeline"@) is Some,
        Kind::BitbucketPipelines => text_of(attributes, "repository"@) is Some
            && text_of(attributes, "branch"@) is Some,
        Kind::CircleCi => text_of(attributes, "repository"@) is Some,
        Kind::CirrusCi => text_of(attributes, "repository"@) is Some,
        Kind::Codecov => text_of(attributes, "repository"@) is Some,
        Kind::Coveralls => text_of(attributes, "repository"@) is Some,
        Kind::Gitlab => text_of(attributes, "repository"@) is Some,
        Kind::IsItMaintainedIssueResolution => text_of(attributes, "repository"@) is Some,
        Kind::IsItMaintainedOpenIssues => text_of(attributes, "repository"@) is Some,
        Kind::Maintenance => text_of(attributes, "status"@) is Some
            && spec_status(text_of(attributes, "status"@)->0) is Some,
        Kind::TravisCi => text_of(attributes, "repository"@) is Some,
    }
}

/// Whether `badge` is the badge of the kind `kind` with the attributes
/// `attributes`.
pub open spec fn describes(
    kind: Kind,
    attributes: Seq<(Seq<char>, Option<Seq<char>>)>,
    badge: BadgeType,
) -> bool {
    match (kind, badge) {
        (Kind::Appveyor, BadgeType::Appveyor { repository, project_name, branch, service, id }) => {
            &&& Some(repository@) == text_of(attributes, "repository"@)
            &&& same_text(project_name, spec_project_name(attributes))
            &&& same_text(branch, text_of(attributes, "branch"@))
            &&& same_text(service, text_of(attributes, "service"@))
            &&& same_text(id, text_of(attributes, "id"@))
        },
        (Kind::AzureDevops, BadgeType::AzureDevops { project, pipeline, build }) => {
            &&& Some(project@) == text_of(attributes, "project"@)
            &&& Some(pipeline@) == text_of(attributes, "pipeline"@)
            &&& same_text(build, text_of(attributes, "build"@))
        },
        (Kind::BitbucketPipelines, BadgeType::BitbucketPipelines { repository, branch }) => {
            &&& Some(repository@) == text_of(attributes, "repository"@)
            &&& Some(branch@) == text_of(attributes, "branch"@)
        },
        (Kind::CircleCi, BadgeType::CircleCi { repository, branch }) => {
            &&& Some(repository@) == text_of(attributes, "repository"@)
            &&& same_text(branch, text_of(attributes, "branch"@))
        },
        (Kind::CirrusCi, BadgeType::CirrusCi { repository, branch }) => {
            &&& Some(repository@) == text_of(attributes, "repository"@)
            &&& same_text(branch, text_of(attributes, "branch"@))
        },
        (Kind::Codecov, BadgeType::Codecov { repository, branch, service }) => {
            &&& Some(repository@) == text_of(attributes, "repository"@)
            &&& same_text(branch, text_of(attributes, "branch"@))
            &&& same_text(service, text_of(attributes, "service"@))
        },
        (Kind::Coveralls, BadgeType::Coveralls { repository, branch, service }) => {
            &&& Some(repository@) == text_of(attributes, "repository"@)
            &&& same_text(branch, text_of(attributes, "branch"@))
            &&& same_text(service, text_of(attributes, "service"@))
        },
        (Kind::Gitlab, BadgeType::Gitlab { repository, branch, tag }) => {
            &&& Some(repository@) == text_of(attributes, "repository"@)
            &&& same_text(branch, text_of(attributes, "branch"@))
            &&& same_text(tag, text_of(attributes, "tag"@))
        },
        (
            Kind::IsItMaintainedIssueResolution,
            BadgeType::IsItMaintainedIssueResolution { repository, service }
        ) => {
            &&& Some(repository@) == text_of(attributes, "repository"@)
            &&& same_text(service, text_of(attributes, "service"@))
        },
        (
            Kind::IsItMaintainedOpenIssues,
            BadgeType::IsItMaintainedOpenIssues { repository, service }
        ) => {
            &&& Some(repository@) == text_of(attributes, "repository"@)
            &&& same_text(service, text_of(attributes, "service"@))
        },
        (Kind::Maintenance, BadgeType::Maintenance { status }) => Some(status) == spec_status(
            text_of(attributes, "status"@)->0,
        ),
        (Kind::TravisCi, BadgeType::TravisCi { repository, branch, service, master, tld }) => {
            &&& Some(repository@) == text_of(attributes, "repository"@)
            &&& same_text(branch, text_of(attributes, "branch"@))
            &&& same_text(service, text_of(attributes, "service"@))
            &&& same_text(master, text_of(attributes, "master"@))
            &&& same_text(tld, text_of(attributes, "tld"@))
        },
        _ => false,
    }
}

/// The attributes of a badge of an unknown kind: each name with its text.
pub open spec fn texts_of(
    attributes: Seq<(String, String)>
) -> Seq<(Seq<char>, Option<Seq<char>>)> {
    attributes.map_values(|a: (String, String)| (a.0@, Some(a.1@)))
}

/// Whether every attribute has a text.
pub open spec fn all_text(attributes: Seq<(Seq<char>, Option<Seq<char>>)>) -> bool {
    forall|i: int| 0 <= i < attributes.len() ==> (#[trigger] attributes[i]).1 is Some
}

/// Whether a badge can be made of a badge type and attributes.
pub open spec fn is_badge(
    badge_type: Seq<char>,
    attributes: Seq<(Seq<char>, Option<Seq<char>>)>,
) -> bool {
    match Kind::spec_of(badge_type) {
        Some(kind) => accepts(kind, attributes),
        None => all_text(attributes),
    }
}

/// Whether `badge` is the badge of a badge type and attributes.
pub open spec fn is_badge_of(
    badge_type: Seq<char>,
    attributes: Seq<(Seq<char>, Option<Seq<char>>)>,
    badge: BadgeType,
) -> bool {
    match Kind::spec_of(badge_type) {
        Some(kind) => describes(kind, attributes, badge),
        None => badge matches BadgeType::Other { badge_type: kept, attributes: texts } && kept@
            == badge_type && texts_of(texts@) == attributes,
    }
}

/// The text of the attribute `name`, if the badge has it with a text.
fn text(attributes: &Vec<(String, Option<String>)>, name: &str) -> (r: Option<String>)
    ensures
        same_text(r, text_of(attributes_view(attributes@), name@)),
{
    let mut i: usize = 0;
    while i < attributes.len()
        invariant
            i <= attributes.len(),
            text_of(attributes_view(attributes@), name@) == text_from(
                attributes_view(attributes@),
                name@,
                i as int,
            ),
        decreases attributes.len() - i,
    {
        if str_eq(attributes[i].0.as_str(), name) {
            return match &attributes[i].1 {
                Some(text) => Some(text.as_str().to_owned()),
                None => None,
            };
        }
        i += 1;
    }
    None
}

/// Whether the badge has an attribute of the name `name`.
fn has_name(attributes: &Vec<(String, Option<String>)>, name: &str) -> (r: bool)
    ensures
        r == has(attributes_view(attributes@), name@),
{
    let mut i: usize = 0;
    while i < attributes.len()
        invariant
            i <= attributes.len(),
            forall|j: int| 0 <= j < i ==> attributes_view(attributes@)[j].0 != name@,
        decreases attributes.len() - i,
    {
        if str_eq(attributes[i].0.as_str(), name) {
            assert(attributes_view(attributes@)[i as int].0 == name@);
            return true;
        }
        i += 1;
    }
    false
}

/// Whether the kind allows the name of every attribute.
fn only_allowed(kind: Kind, attributes: &Vec<(String, Option<String>)>) -> (r: bool)
    ensures
        r == forall|i: int|
            0 <= i < attributes.len() ==> kind.spec_allows(
                #[trigger] attributes_view(attributes@)[i].0,
            ),
{
    let mut i: usize = 0;
    while i < attributes.len()
        invariant
            i <= attributes.len(),
            forall|j: int|
                0 <= j < i ==> kind.spec_allows(#[trigger] attributes_view(attributes@)[j].0),
        decreases attributes.len() - i,
    {
        if !kind.allows(attributes[i].0.as_str()) {
            assert(!kind.spec_allows(attributes_view(attributes@)[i as int].0));
            return false;
        }
        i += 1;
    }
    true
}

/// The attributes of a badge of an unknown kind, if each has a text.
fn all_texts(attributes: &Vec<(String, Option<String>)>) -> (r: Option<Vec<(String, String)>>)
    ensures
        match r {
            Some(texts) => all_text(attributes_view(attributes@)) && texts_of(texts@)
                == attributes_view(attributes@),
            None => !all_text(attributes_view(attributes@)),
        },
{
    let mut texts: Vec<(String, String)> = Vec::new();
    let mut i: usize = 0;
    while i < attributes.len()
        invariant
            i <= attributes.len(),
            texts.len() == i,
            forall|j: int| 0 <= j < i ==> (#[trigger] attributes_view(attributes@)[j]).1 is Some,
            forall|j: int| 0 <= j < i ==> #[trigger] texts_of(texts@)[j] == attributes_view(
                attributes@
            )[j],
        decreases attributes.len() - i,
    {
        match &attributes[i].1 {
            Some(text) => {
                let ghost before = texts@;
                texts.push((attributes[i].0.as_str().to_owned(), text.as_str().to_owned()));
                proof {
                    assert(attributes_view(attributes@)[i as int] == (
                        attributes[i as int].0@,
                        Some(text@),
                    ));
                    assert forall|j: int| 0 <= j < i + 1 implies #[trigger] texts_of(texts@)[j]
                        == attributes_view(attributes@)[j] by {
                        if j < i {
                            assert(texts@[j] == before[j]);
                            assert(texts_of(before)[j] == attributes_view(attributes@)[j]);
                        }
                    }
                }
            },
            None => {
                assert(attributes_view(attributes@)[i as int].1 is None);
                return None;
            },
        }
        i += 1;
    }
    assert(texts_of(texts@) =~= attributes_view(attributes@));
    Some(texts)
}

/// The badge of a kind and attributes that the kind accepts.
fn known(kind: Kind, attributes: &Vec<(String, Option<String>)>) -> (r: Option<BadgeType>)
    ensures
        match r {
            Some(badge) => accepts(kind, attributes_view(attributes@)) && describes(
                kind,
                attributes_view(attributes@),
                badge,
            ),
            None => !accepts(kind, attributes_view(attributes@)),
        },
{
    if !only_allowed(kind, attributes) {
        return None;
    }
    match kind {
        Kind::Appveyor => {
            let repository = match text(attributes, "repository") {
                Some(text) => text,
                None => {
                    return None;
                },
            };
            let project_name = if has_name(attributes, "project_name") {
                if has_name(attributes, "project-name") {
                    return None;
                }
                text(attributes, "project_name")
            } else {
                text(attributes, "project-name")
            };
            let branch = text(attributes, "branch");
            let service = text(attributes, "service");
            let id = text(attributes, "id");
            Some(BadgeType::Appveyor { repository, project_name, branch, service, id })
        },
        Kind::AzureDevops => {
            let project = match text(attributes, "project") {
                Some(text) => text,
                None => {
                    return None;
                },
            };
            let pipeline = match text(attributes, "pipeline") {
                Some(text) => text,
                None => {
                    return None;
                },
            };
            let build = text(attributes, "build");
            Some(BadgeType::AzureDevops { project, pipeline, build })
        },
        Kind::BitbucketPipelines => {
            let repository = match text(attributes, "repository") {
                Some(text) => text,
                None => {
                    return None;
                },
            };
            let branch = match text(attributes, "branch") {
                Some(text) => text,
                None => {
                    return None;
                },
            };
            Some(BadgeType::BitbucketPipelines { repository, branch })
        },
        Kind::CircleCi => {
            let repository = match text(attributes, "repository") {
                Some(text) => text,
                None => {
                    return None;
                },
            };
            let branch = text(attributes, "branch");
            Some(BadgeType::CircleCi { repository, branch })
        },
        Kind::CirrusCi => {
            let repository = match text(attributes, "repository") {
                Some(text) => text,
                None => {
                    return None;
                },
            };
            let branch = text(attributes, "branch");
            Some(BadgeType::CirrusCi { repository, branch })
        },
        Kind::Codecov => {
            let repository = match text(attributes, "repository") {
                Some(text) => text,
                None => {
                    return None;
                },
            };
            let branch = text(attributes, "branch");
            let service = text(attributes, "service");
            Some(BadgeType::Codecov { repository, branch, service })
        },
        Kind::Coveralls => {
            let repository = match text(attributes, "repository") {
                Some(text) => text,
                None => {
                    return None;
                },
            };
            let branch = text(attributes, "branch");
            let service = text(attributes, "service");
            Some(BadgeType::Coveralls { repository, branch, service })
        },
        Kind::Gitlab => {
            let repository = match text(attributes, "repository") {
                Some(text) => text,
                None => {
                    return None;
                },
            };
            let branch = text(attributes, "branch");
            let tag = text(attributes, "tag");
            Some(BadgeType::Gitlab { repository, branch, tag })
        },
        Kind::IsItMaintainedIssueResolution => {
            let repository = match text(attributes, "repository") {
                Some(text) => text,
                None => {
                    return None;
                },
            };
            let service = text(attributes, "service");
            Some(BadgeType::IsItMaintainedIssueResolution { repository, service })
        },
        Kind::IsItMaintainedOpenIssues => {
            let repository = match text(attributes, "repository") {
                Some(text) => text,
                None => {
                    return None;
                },
            };
            let service = text(attributes, "service");
            Some(BadgeType::IsItMaintainedOpenIssues { repository, service })
        },
        Kind::Maintenance => {
            let status = match text(attributes, "status") {
                Some(text) => match status(text.as_str()) {
                    Some(status) => status,
                    None => {
                        return None;
                    },
                },
                None => {
                    return None;
                },
            };
            Some(BadgeType::Maintenance { status })
        },
        Kind::TravisCi => {
            let repository = match text(attributes, "repository") {
                Some(text) => text,
                None => {
                    return None;
                },
            };
            let branch = text(attributes, "branch");
            let service = text(attributes, "service");
            let master = text(attributes, "master");
            let tld = text(attributes, "tld");
            Some(BadgeType::TravisCi { repository, branch, service, master, tld })
        },
    }
}

/// Makes the badge of a badge type and the attributes that JSON gave.
pub fn badge(badge_type: &str, attributes: &Vec<(String, Option<String>)>) -> (r: Option<BadgeType>)
    ensures
        match r {
            Some(badge) => is_badge(badge_type@, attributes_view(attributes@)) && is_badge_of(
                badge_type@,
                attributes_view(attributes@),
                badge,
            ),
            None => !is_badge(badge_type@, attributes_view(attributes@)),
        },
{
    match Kind::of(badge_type) {
        Some(kind) => known(kind, attributes),
        None => match all_texts(attributes) {
            Some(texts) => Some(
                BadgeType::Other { badge_type: badge_type.to_owned(), attributes: texts }
            ),
            None => None,
        },
    }
}

/// Whether the names of `attributes` stand in ascending order, so that
/// none stands twice.
pub open spec fn names_ascend(attributes: Seq<(Seq<char>, Option<Seq<char>>)>) -> bool {
    forall|i: int, j: int|
        #![trigger attributes[i], attributes[j]]
        0 <= i < j < attributes.len() ==> precedes(
            bytes_of(attributes[i].0),
            bytes_of(attributes[j].0),
        )
}

/// What serde_json reads in `text` as an object whose values are strings
/// or `null`, its entries in the order of their names; `None` where it
/// reports an error.
pub uninterp spec fn json_attributes(
    text: Seq<char>
) -> Option<Seq<(Seq<char>, Option<Seq<char>>)>>;

/// `serde_json::from_str` for a `BTreeMap` from strings to optional
/// strings: the entries of the map as the map hands them out, which is in
/// the ascending order of their keys, or the parser's message.
#[verifier::external_body]
fn parse_attributes(text: &str) -> (r: Result<Vec<(String, Option<String>)>, String>)
    ensures
        match r {
            Ok(attributes) => json_attributes(text@) == Some(attributes_view(attributes@)),
            Err(_) => json_attributes(text@) is None,
        },
        r matches Ok(attributes) ==> names_ascend(attributes_view(attributes@)),
{
    match ::serde_json::from_str::<std::collections::BTreeMap<String, Option<String>>>(text) {
        Ok(map) => Ok(map.into_iter().collect()),
        Err(e) => Err(e.to_string()),
    }
}

/// Whether the cells of a badge type and of attributes make a badge, where
/// `parsed` is what the parser read in the attributes.
pub open spec fn spec_accepts(
    badge_type: Seq<char>,
    parsed: Option<Seq<(Seq<char>, Option<Seq<char>>)>>,
) -> bool {
    match parsed {
        Some(attributes) => is_badge(badge_type, attributes),
        None => false,
    }
}

/// Settles the badge of a row of which the parser gave `parsed` for the
/// attributes cell `cell`.
pub fn badge_from(
    badge_type: &str,
    cell: &str,
    parsed: Result<Vec<(String, Option<String>)>, String>,
) -> (r: Result<BadgeType, Invalid>)
    ensures
        match r {
            Ok(badge) => parsed matches Ok(attributes) && is_badge(
                badge_type@,
                attributes_view(attributes@),
            ) && is_badge_of(badge_type@, attributes_view(attributes@), badge),
            Err(e) => e.expected == Expected::Badge && match parsed {
                Ok(attributes) => !is_badge(badge_type@, attributes_view(attributes@)) && e.detail@
                    == cell@,
                Err(message) => e.detail@ == message@,
            },
        },
{
    match parsed {
        Ok(attributes) => match badge(badge_type, &attributes) {
            Some(badge) => Ok(badge),
            None => Err(Invalid { expected: Expected::Badge, detail: cell.to_owned() }),
        },
        Err(message) => Err(Invalid { expected: Expected::Badge, detail: message }),
    }
}

/// Decodes the badge of a row from its cells. The attributes are taken in
/// the ascending order of their names, each once, and a badge of a kind
/// that is not known here keeps them in that order.
pub fn de(badge_type: &str, attributes: &str) -> (r: Result<BadgeType, Invalid>)
    ensures
        match r {
            Ok(badge) => spec_accepts(badge_type@, json_attributes(attributes@)) && is_badge_of(
                badge_type@,
                json_attributes(attributes@)->0,
                badge,
            ) && names_ascend(json_attributes(attributes@)->0),
            Err(e) => !spec_accepts(badge_type@, json_attributes(attributes@)) && e.expected
                == Expected::Badge,
        },
{
    badge_from(badge_type, attributes, parse_attributes(attributes))
}

// Where each column stands in the schema of the table.
pub const ATTRIBUTES: usize = 0;
pub const BADGE_TYPE: usize = 1;
pub const CRATE_ID: usize = 2;

/// One row of `badges.csv`.
#[derive(Clone, Debug)]
#[non_exhaustive]
pub struct Row {
    pub crate_id: CrateId,
    pub badge_type: BadgeType,
}

impl FromRecord for Row {
    open spec fn table() -> Table {
        Table::Badges
    }

    open spec fn fault(layout: LayoutView, row: Seq<Seq<char>>) -> Option<ErrorKind> {
        invalid_if(
            !spec_accepts(
                layout.required(row, BADGE_TYPE as int),
                json_attributes(layout.required(row, ATTRIBUTES as int)),
            ),
            ATTRIBUTES as int,
            Expected::Badge,
        ).otherwise(integer_fault(layout, row, CRATE_ID as int, 0, u32::MAX as int))
    }

    open spec fn holds(&self, layout: LayoutView, row: Seq<Seq<char>>) -> bool {
        &&& is_badge_of(
            layout.required(row, BADGE_TYPE as int),
            json_attributes(layout.required(row, ATTRIBUTES as int))->0,
            self.badge_type,
        )
        &&& self.crate_id.0 == integer_value(layout, row, CRATE_ID as int, 0, u32::MAX as int)
    }

    fn source() -> (r: Table) {
        Table::Badges
    }

    fn decode(layout: &Layout, row: &Vec<String>) -> (r: Result<Self, Error>) {
        let badge_type = at(
            ATTRIBUTES,
            de(layout.required(row, BADGE_TYPE), layout.required(row, ATTRIBUTES)),
        )?;
        let crate_id = CrateId(layout.unsigned(row, CRATE_ID, 0xffff_ffff)? as u32);
        Ok(Row { crate_id, badge_type })
    }
}

} // verus!
