//! The tables of a dump and the columns that each of them may have.

use vstd::prelude::*;
use crate::text::str_eq;

verus! {

/// A table of a dump whose rows this crate can decode.
#[derive(Copy, Clone, Debug, PartialEq, Eq, Structural)]
pub enum Table {
    /// `badges.csv`
    Badges,
    /// `categories.csv`
    Categories,
    /// `crate_downloads.csv`
    CrateDownloads,
    /// `crate_owners.csv`
    CrateOwners,
    /// `crates.csv`
    Crates,
    /// `crates_categories.csv`
    CratesCategories,
    /// `crates_keywords.csv`
    CratesKeywords,
    /// `default_versions.csv`
    DefaultVersions,
    /// `deleted_crates.csv`
    DeletedCrates,
    /// `dependencies.csv`
    Dependencies,
    /// `keywords.csv`
    Keywords,
    /// `metadata.csv`
    Metadata,
    /// `reserved_crate_names.csv`
    ReservedCrateNames,
    /// `teams.csv`
    Teams,
    /// `users.csv`
    Users,
    /// `version_authors.csv`
    VersionAuthors,
    /// `version_downloads.csv`
    VersionDownloads,
    /// `versions.csv`
    Versions,
}

impl Table {
    /// The table's name, which is its file's name without the extension.
    pub open spec fn spec_name(self) -> Seq<char> {
        match self {
            Table::Badges => "badges"@,
            Table::Categories => "categories"@,
            Table::CrateDownloads => "crate_downloads"@,
            Table::CrateOwners => "crate_owners"@,
            Table::Crates => "crates"@,
            Table::CratesCategories => "crates_categories"@,
            Table::CratesKeywords => "crates_keywords"@,
            Table::DefaultVersions => "default_versions"@,
            Table::DeletedCrates => "deleted_crates"@,
            Table::Dependencies => "dependencies"@,
            Table::Keywords => "keywords"@,
            Table::Metadata => "metadata"@,
            Table::ReservedCrateNames => "reserved_crate_names"@,
            Table::Teams => "teams"@,
            Table::Users => "users"@,
            Table::VersionAuthors => "version_authors"@,
            Table::VersionDownloads => "version_downloads"@,
            Table::Versions => "versions"@,
        }
    }

    /// The name of the table's file inside an archive.
    pub open spec fn spec_file_name(self) -> Seq<char> {
        match self {
            Table::Badges => "badges.csv"@,
            Table::Categories => "categories.csv"@,
            Table::CrateDownloads => "crate_downloads.csv"@,
            Table::CrateOwners => "crate_owners.csv"@,
            Table::Crates => "crates.csv"@,
            Table::CratesCategories => "crates_categories.csv"@,
            Table::CratesKeywords => "crates_keywords.csv"@,
            Table::DefaultVersions => "default_versions.csv"@,
            Table::DeletedCrates => "deleted_crates.csv"@,
            Table::Dependencies => "dependencies.csv"@,
            Table::Keywords => "keywords.csv"@,
            Table::Metadata => "metadata.csv"@,
            Table::ReservedCrateNames => "reserved_crate_names.csv"@,
            Table::Teams => "teams.csv"@,
            Table::Users => "users.csv"@,
            Table::VersionAuthors => "version_authors.csv"@,
            Table::VersionDownloads => "version_downloads.csv"@,
            Table::Versions => "versions.csv"@,
        }
    }

    /// The columns that the table's schema knows, in the order in which
    /// rows are decoded.
    pub open spec fn spec_schema(self) -> Seq<Seq<char>> {
        match self {
            Table::Badges => seq!["attributes"@, "badge_type"@, "crate_id"@],
            Table::Categories => seq![
                "id"@, "category"@, "slug"@, "description"@, "crates_cnt"@, "created_at"@, "path"@,
            ],
            Table::CrateDownloads => seq!["crate_id"@, "downloads"@],
            Table::CrateOwners => seq![
                "crate_id"@, "created_at"@, "created_by"@, "owner_id"@, "owner_kind"@,
            ],
            Table::Crates => seq![
                "id"@, "name"@, "updated_at"@, "created_at"@, "description"@, "homepage"@,
                "documentation"@, "readme"@, "repository"@, "max_upload_size"@, "max_features"@,
            ],
            Table::CratesCategories => seq!["crate_id"@, "category_id"@],
            Table::CratesKeywords => seq!["crate_id"@, "keyword_id"@],
            Table::DefaultVersions => seq!["crate_id"@, "version_id"@],
            Table::DeletedCrates => seq![
                "id"@, "name"@, "created_at"@, "deleted_at"@, "deleted_by"@, "message"@,
                "available_at"@,
            ],
            Table::Dependencies => seq![
                "id"@, "version_id"@, "crate_id"@, "req"@, "optional"@, "default_features"@,
                "features"@, "target"@, "kind"@, "explicit_name"@,
            ],
            Table::Keywords => seq!["id"@, "keyword"@, "crates_cnt"@, "created_at"@],
            Table::Metadata => seq!["total_downloads"@],
            Table::ReservedCrateNames => seq!["name"@],
            Table::Teams => seq!["id"@, "login"@, "github_id"@, "name"@, "avatar"@, "org_id"@],
            Table::Users => seq!["id"@, "gh_login"@, "name"@, "gh_avatar"@, "gh_id"@],
            Table::VersionAuthors => seq!["id"@, "version_id"@, "name"@],
            Table::VersionDownloads => seq!["version_id"@, "downloads"@, "date"@],
            Table::Versions => seq![
                "id"@, "crate_id"@, "num"@, "num_no_build"@, "updated_at"@, "created_at"@,
                "downloads"@, "features"@, "yanked"@, "license"@, "crate_size"@, "published_by"@,
                "checksum"@, "links"@, "rust_version"@, "has_lib"@, "bin_names"@, "edition"@,
                "description"@, "homepage"@, "documentation"@, "repository"@, "categories"@,
                "keywords"@,
            ],
        }
    }

    /// How many columns the table's schema knows.
    pub open spec fn spec_columns(self) -> nat {
        self.spec_schema().len()
    }

    /// The name of the schema's `k`-th column.
    pub open spec fn spec_column(self, k: int) -> Seq<char> {
        self.spec_schema()[k]
    }

    /// Whether a header row must hold the schema's `k`-th column. A column
    /// that is not required may be left out of the file as a whole; the
    /// table's decoder says what the record then holds in its place.
    pub open spec fn spec_required(self, k: int) -> bool {
        match self {
            Table::Badges => true,
            Table::Categories => true,
            Table::CrateDownloads => true,
            Table::CrateOwners => k != 2,
            Table::Crates => k != 5 && k != 6 && k != 7 && k != 8 && k != 9 && k != 10,
            Table::CratesCategories => true,
            Table::CratesKeywords => true,
            Table::DefaultVersions => true,
            Table::DeletedCrates => k != 4,
            Table::Dependencies => k != 9,
            Table::Keywords => true,
            Table::Metadata => true,
            Table::ReservedCrateNames => true,
            Table::Teams => k != 5,
            Table::Users => k != 2,
            Table::VersionAuthors => true,
            Table::VersionDownloads => true,
            Table::Versions => k != 3 && k != 10 && k != 11 && k != 12 && k != 13 && k != 14
                && k != 15 && k != 16 && k != 17 && k != 18 && k != 19 && k != 20 && k != 21
                && k != 22 && k != 23,
        }
    }

    /// Whether `name` is one of the schema's columns.
    pub open spec fn spec_has_column(self, name: Seq<char>) -> bool {
        exists|k: int| 0 <= k < self.spec_columns() && self.spec_column(k) == name
    }

    /// Whether the loader reads the table. The tables that it does not read
    /// are passed over in an archive; their rows can still be decoded one by
    /// one.
    pub open spec fn spec_loadable(self) -> bool {
        self != Table::Badges && self != Table::DefaultVersions && self != Table::DeletedCrates
            && self != Table::VersionAuthors
    }

    pub fn loadable(self) -> (r: bool)
        ensures
            r == self.spec_loadable(),
    {
        match self {
            Table::Badges => false,
            Table::Categories => true,
            Table::CrateDownloads => true,
            Table::CrateOwners => true,
            Table::Crates => true,
            Table::CratesCategories => true,
            Table::CratesKeywords => true,
            Table::DefaultVersions => false,
            Table::DeletedCrates => false,
            Table::Dependencies => true,
            Table::Keywords => true,
            Table::Metadata => true,
            Table::ReservedCrateNames => true,
            Table::Teams => true,
            Table::Users => true,
            Table::VersionAuthors => false,
            Table::VersionDownloads => true,
            Table::Versions => true,
        }
    }

    /// The table's place among the tables.
    pub open spec fn spec_index(self) -> int {
        match self {
            Table::Badges => 0,
            Table::Categories => 1,
            Table::CrateDownloads => 2,
            Table::CrateOwners => 3,
            Table::Crates => 4,
            Table::CratesCategories => 5,
            Table::CratesKeywords => 6,
            Table::DefaultVersions => 7,
            Table::DeletedCrates => 8,
            Table::Dependencies => 9,
            Table::Keywords => 10,
            Table::Metadata => 11,
            Table::ReservedCrateNames => 12,
            Table::Teams => 13,
            Table::Users => 14,
            Table::VersionAuthors => 15,
            Table::VersionDownloads => 16,
            Table::Versions => 17,
        }
    }

    /// The table at place `i`.
    pub open spec fn spec_nth(i: int) -> Table {
        if i == 0 {
            Table::Badges
        } else if i == 1 {
            Table::Categories
        } else if i == 2 {
            Table::CrateDownloads
        } else if i == 3 {
            Table::CrateOwners
        } else if i == 4 {
            Table::Crates
        } else if i == 5 {
            Table::CratesCategories
        } else if i == 6 {
            Table::CratesKeywords
        } else if i == 7 {
            Table::DefaultVersions
        } else if i == 8 {
            Table::DeletedCrates
        } else if i == 9 {
            Table::Dependencies
        } else if i == 10 {
            Table::Keywords
        } else if i == 11 {
            Table::Metadata
        } else if i == 12 {
            Table::ReservedCrateNames
        } else if i == 13 {
            Table::Teams
        } else if i == 14 {
            Table::Users
        } else if i == 15 {
            Table::VersionAuthors
        } else if i == 16 {
            Table::VersionDownloads
        } else {
            Table::Versions
        }
    }

    /// At every place stands a table.
    pub proof fn lemma_nth(i: int)
        requires
            0 <= i < Table::COUNT,
        ensures
            Table::spec_nth(i).spec_index() == i,
    {
    }

    /// Every table stands at its place.
    pub proof fn lemma_index(self)
        ensures
            0 <= self.spec_index() < Table::COUNT,
            Table::spec_nth(self.spec_index()) == self,
    {
    }

    /// The length of the table's file name, its first character and its
    /// sixth: no two tables agree in all three.
    spec fn mark(self) -> (int, char, char) {
        match self {
            Table::Badges => (10, 'b', 's'),
            Table::Categories => (14, 'c', 'o'),
            Table::CrateDownloads => (19, 'c', '_'),
            Table::CrateOwners => (16, 'c', '_'),
            Table::Crates => (10, 'c', 's'),
            Table::CratesCategories => (21, 'c', 's'),
            Table::CratesKeywords => (19, 'c', 's'),
            Table::DefaultVersions => (20, 'd', 'l'),
            Table::DeletedCrates => (18, 'd', 'e'),
            Table::Dependencies => (16, 'd', 'd'),
            Table::Keywords => (12, 'k', 'r'),
            Table::Metadata => (12, 'm', 'a'),
            Table::ReservedCrateNames => (24, 'r', 'v'),
            Table::Teams => (9, 't', '.'),
            Table::Users => (9, 'u', '.'),
            Table::VersionAuthors => (19, 'v', 'o'),
            Table::VersionDownloads => (21, 'v', 'o'),
            Table::Versions => (12, 'v', 'o'),
        }
    }

    /// The file name of a table has the table's mark.
    proof fn lemma_mark(self)
        ensures
            self.spec_file_name().len() == self.mark().0,
            self.spec_file_name()[0] == self.mark().1,
            self.spec_file_name()[5] == self.mark().2,
    {
        match self {
            Table::Badges => {
                reveal_strlit("badges.csv");
            },
            Table::Categories => {
                reveal_strlit("categories.csv");
            },
            Table::CrateDownloads => {
                reveal_strlit("crate_downloads.csv");
            },
            Table::CrateOwners => {
                reveal_strlit("crate_owners.csv");
            },
            Table::Crates => {
                reveal_strlit("crates.csv");
            },
            Table::CratesCategories => {
                reveal_strlit("crates_categories.csv");
            },
            Table::CratesKeywords => {
                reveal_strlit("crates_keywords.csv");
            },
            Table::DefaultVersions => {
                reveal_strlit("default_versions.csv");
            },
            Table::DeletedCrates => {
                reveal_strlit("deleted_crates.csv");
            },
            Table::Dependencies => {
                reveal_strlit("dependencies.csv");
            },
            Table::Keywords => {
                reveal_strlit("keywords.csv");
            },
            Table::Metadata => {
                reveal_strlit("metadata.csv");
            },
            Table::ReservedCrateNames => {
                reveal_strlit("reserved_crate_names.csv");
            },
            Table::Teams => {
                reveal_strlit("teams.csv");
            },
            Table::Users => {
                reveal_strlit("users.csv");
            },
            Table::VersionAuthors => {
                reveal_strlit("version_authors.csv");
            },
            Table::VersionDownloads => {
                reveal_strlit("version_downloads.csv");
            },
            Table::Versions => {
                reveal_strlit("versions.csv");
            },
        }
    }

    /// No two tables have the same file name.
    pub proof fn lemma_file_names_differ(self, other: Table)
        requires
            self.spec_file_name() == other.spec_file_name(),
        ensures
            self == other,
    {
        self.lemma_mark();
        other.lemma_mark();
    }

    /// The file name of a table is made of ASCII characters and ends in
    /// `.csv`, after one character at least.
    pub proof fn lemma_file_name_ends(self)
        ensures
            vstd::utf8::is_ascii_chars(self.spec_file_name()),
            self.spec_file_name().len() > 4,
            self.spec_file_name()[self.spec_file_name().len() - 4] == '.',
            self.spec_file_name()[self.spec_file_name().len() - 3] == 'c',
            self.spec_file_name()[self.spec_file_name().len() - 2] == 's',
            self.spec_file_name()[self.spec_file_name().len() - 1] == 'v',
    {
        match self {
            Table::Badges => {
                reveal_strlit("badges.csv");
            },
            Table::Categories => {
                reveal_strlit("categories.csv");
            },
            Table::CrateDownloads => {
                reveal_strlit("crate_downloads.csv");
            },
            Table::CrateOwners => {
                reveal_strlit("crate_owners.csv");
            },
            Table::Crates => {
                reveal_strlit("crates.csv");
            },
            Table::CratesCategories => {
                reveal_strlit("crates_categories.csv");
            },
            Table::CratesKeywords => {
                reveal_strlit("crates_keywords.csv");
            },
            Table::DefaultVersions => {
                reveal_strlit("default_versions.csv");
            },
            Table::DeletedCrates => {
                reveal_strlit("deleted_crates.csv");
            },
            Table::Dependencies => {
                reveal_strlit("dependencies.csv");
            },
            Table::Keywords => {
                reveal_strlit("keywords.csv");
            },
            Table::Metadata => {
                reveal_strlit("metadata.csv");
            },
            Table::ReservedCrateNames => {
                reveal_strlit("reserved_crate_names.csv");
            },
            Table::Teams => {
                reveal_strlit("teams.csv");
            },
            Table::Users => {
                reveal_strlit("users.csv");
            },
            Table::VersionAuthors => {
                reveal_strlit("version_authors.csv");
            },
            Table::VersionDownloads => {
                reveal_strlit("version_downloads.csv");
            },
            Table::Versions => {
                reveal_strlit("versions.csv");
            },
        }
    }

    /// The number of tables.
    pub const COUNT: usize = 18;

    pub fn index(self) -> (r: usize)
        ensures
            r == self.spec_index(),
            r < Table::COUNT,
    {
        match self {
            Table::Badges => 0,
            Table::Categories => 1,
            Table::CrateDownloads => 2,
            Table::CrateOwners => 3,
            Table::Crates => 4,
            Table::CratesCategories => 5,
            Table::CratesKeywords => 6,
            Table::DefaultVersions => 7,
            Table::DeletedCrates => 8,
            Table::Dependencies => 9,
            Table::Keywords => 10,
            Table::Metadata => 11,
            Table::ReservedCrateNames => 12,
            Table::Teams => 13,
            Table::Users => 14,
            Table::VersionAuthors => 15,
            Table::VersionDownloads => 16,
            Table::Versions => 17,
        }
    }

    pub fn nth(i: usize) -> (r: Table)
        requires
            i < Table::COUNT,
        ensures
            r == Table::spec_nth(i as int),
            r.spec_index() == i,
    {
        match i {
            0 => Table::Badges,
            1 => Table::Categories,
            2 => Table::CrateDownloads,
            3 => Table::CrateOwners,
            4 => Table::Crates,
            5 => Table::CratesCategories,
            6 => Table::CratesKeywords,
            7 => Table::DefaultVersions,
            8 => Table::DeletedCrates,
            9 => Table::Dependencies,
            10 => Table::Keywords,
            11 => Table::Metadata,
            12 => Table::ReservedCrateNames,
            13 => Table::Teams,
            14 => Table::Users,
            15 => Table::VersionAuthors,
            16 => Table::VersionDownloads,
            _ => Table::Versions,
        }
    }

    pub fn name(self) -> (r: &'static str)
        ensures
            r@ == self.spec_name(),
    {
        match self {
            Table::Badges => "badges",
            Table::Categories => "categories",
            Table::CrateDownloads => "crate_downloads",
            Table::CrateOwners => "crate_owners",
            Table::Crates => "crates",
            Table::CratesCategories => "crates_categories",
            Table::CratesKeywords => "crates_keywords",
            Table::DefaultVersions => "default_versions",
            Table::DeletedCrates => "deleted_crates",
            Table::Dependencies => "dependencies",
            Table::Keywords => "keywords",
            Table::Metadata => "metadata",
            Table::ReservedCrateNames => "reserved_crate_names",
            Table::Teams => "teams",
            Table::Users => "users",
            Table::VersionAuthors => "version_authors",
            Table::VersionDownloads => "version_downloads",
            Table::Versions => "versions",
        }
    }

    pub fn file_name(self) -> (r: &'static str)
        ensures
            r@ == self.spec_file_name(),
    {
        match self {
            Table::Badges => "badges.csv",
            Table::Categories => "categories.csv",
            Table::CrateDownloads => "crate_downloads.csv",
            Table::CrateOwners => "crate_owners.csv",
            Table::Crates => "crates.csv",
            Table::CratesCategories => "crates_categories.csv",
            Table::CratesKeywords => "crates_keywords.csv",
            Table::DefaultVersions => "default_versions.csv",
            Table::DeletedCrates => "deleted_crates.csv",
            Table::Dependencies => "dependencies.csv",
            Table::Keywords => "keywords.csv",
            Table::Metadata => "metadata.csv",
            Table::ReservedCrateNames => "reserved_crate_names.csv",
            Table::Teams => "teams.csv",
            Table::Users => "users.csv",
            Table::VersionAuthors => "version_authors.csv",
            Table::VersionDownloads => "version_downloads.csv",
            Table::Versions => "versions.csv",
        }
    }

    pub fn columns(self) -> (r: usize)
        ensures
            r == self.spec_columns(),
            r <= 24,
    {
        match self {
            Table::Badges => 3,
            Table::Categories => 7,
            Table::CrateDownloads => 2,
            Table::CrateOwners => 5,
            Table::Crates => 11,
            Table::CratesCategories => 2,
            Table::CratesKeywords => 2,
            Table::DefaultVersions => 2,
            Table::DeletedCrates => 7,
            Table::Dependencies => 10,
            Table::Keywords => 4,
            Table::Metadata => 1,
            Table::ReservedCrateNames => 1,
            Table::Teams => 6,
            Table::Users => 5,
            Table::VersionAuthors => 3,
            Table::VersionDownloads => 3,
            Table::Versions => 24,
        }
    }

    pub fn column(self, k: usize) -> (r: &'static str)
        requires
            k < self.spec_columns(),
        ensures
            r@ == self.spec_column(k as int),
    {
        match self {
            Table::Badges => match k {
                0 => "attributes",
                1 => "badge_type",
                _ => "crate_id",
            },
            Table::Categories => match k {
                0 => "id",
                1 => "category",
                2 => "slug",
                3 => "description",
                4 => "crates_cnt",
                5 => "created_at",
                _ => "path",
            },
            Table::CrateDownloads => match k {
                0 => "crate_id",
                _ => "downloads",
            },
            Table::CrateOwners => match k {
                0 => "crate_id",
                1 => "created_at",
                2 => "created_by",
                3 => "owner_id",
                _ => "owner_kind",
            },
            Table::Crates => match k {
                0 => "id",
                1 => "name",
                2 => "updated_at",
                3 => "created_at",
                4 => "description",
                5 => "homepage",
                6 => "documentation",
                7 => "readme",
                8 => "repository",
                9 => "max_upload_size",
                _ => "max_features",
            },
            Table::CratesCategories => match k {
                0 => "crate_id",
                _ => "category_id",
            },
            Table::CratesKeywords => match k {
                0 => "crate_id",
                _ => "keyword_id",
            },
            Table::DefaultVersions => match k {
                0 => "crate_id",
                _ => "version_id",
            },
            Table::DeletedCrates => match k {
                0 => "id",
                1 => "name",
                2 => "created_at",
                3 => "deleted_at",
                4 => "deleted_by",
                5 => "message",
                _ => "available_at",
            },
            Table::Dependencies => match k {
                0 => "id",
                1 => "version_id",
                2 => "crate_id",
                3 => "req",
                4 => "optional",
                5 => "default_features",
                6 => "features",
                7 => "target",
                8 => "kind",
                _ => "explicit_name",
            },
            Table::Keywords => match k {
                0 => "id",
                1 => "keyword",
                2 => "crates_cnt",
                _ => "created_at",
            },
            Table::Metadata => match k {
                _ => "total_downloads",
            },
            Table::ReservedCrateNames => match k {
                _ => "name",
            },
            Table::Teams => match k {
                0 => "id",
                1 => "login",
                2 => "github_id",
                3 => "name",
                4 => "avatar",
                _ => "org_id",
            },
            Table::Users => match k {
                0 => "id",
                1 => "gh_login",
                2 => "name",
                3 => "gh_avatar",
                _ => "gh_id",
            },
            Table::VersionAuthors => match k {
                0 => "id",
                1 => "version_id",
                _ => "name",
            },
            Table::VersionDownloads => match k {
                0 => "version_id",
                1 => "downloads",
                _ => "date",
            },
            Table::Versions => match k {
                0 => "id",
                1 => "crate_id",
                2 => "num",
                3 => "num_no_build",
                4 => "updated_at",
                5 => "created_at",
                6 => "downloads",
                7 => "features",
                8 => "yanked",
                9 => "license",
                10 => "crate_size",
                11 => "published_by",
                12 => "checksum",
                13 => "links",
                14 => "rust_version",
                15 => "has_lib",
                16 => "bin_names",
                17 => "edition",
                18 => "description",
                19 => "homepage",
                20 => "documentation",
                21 => "repository",
                22 => "categories",
                _ => "keywords",
            },
        }
    }

    pub fn required(self, k: usize) -> (r: bool)
        ensures
            r == self.spec_required(k as int),
    {
        match self {
            Table::Badges => true,
            Table::Categories => true,
            Table::CrateDownloads => true,
            Table::CrateOwners => k != 2,
            Table::Crates => k != 5 && k != 6 && k != 7 && k != 8 && k != 9 && k != 10,
            Table::CratesCategories => true,
            Table::CratesKeywords => true,
            Table::DefaultVersions => true,
            Table::DeletedCrates => k != 4,
            Table::Dependencies => k != 9,
            Table::Keywords => true,
            Table::Metadata => true,
            Table::ReservedCrateNames => true,
            Table::Teams => k != 5,
            Table::Users => k != 2,
            Table::VersionAuthors => true,
            Table::VersionDownloads => true,
            Table::Versions => k != 3 && k != 10 && k != 11 && k != 12 && k != 13 && k != 14
                && k != 15 && k != 16 && k != 17 && k != 18 && k != 19 && k != 20 && k != 21
                && k != 22 && k != 23,
        }
    }

    /// Whether the schema's `k`-th column is the first one named `name`. A
    /// header stands for the column that its name resolves to.
    pub open spec fn resolves(self, name: Seq<char>, k: int) -> bool {
        &&& 0 <= k < self.spec_columns()
        &&& self.spec_column(k) == name
        &&& forall|j: int| 0 <= j < k ==> self.spec_column(j) != name
    }

    /// A name resolves to one column at most.
    pub proof fn lemma_resolves_unique(self, name: Seq<char>, i: int, j: int)
        requires
            self.resolves(name, i),
            self.resolves(name, j),
        ensures
            i == j,
    {
        if i < j {
            assert(self.spec_column(i) != name);
        } else if j < i {
            assert(self.spec_column(j) != name);
        }
    }

    /// Finds the column that `name` resolves to.
    pub fn find_column(self, name: &str) -> (r: Option<usize>)
        ensures
            match r {
                Some(k) => self.resolves(name@, k as int),
                None => !self.spec_has_column(name@),
            },
    {
        let n = self.columns();
        let mut k: usize = 0;
        while k < n
            invariant
                k <= n,
                n == self.spec_columns(),
                forall|j: int| 0 <= j < k ==> self.spec_column(j) != name@,
            decreases n - k,
        {
            if str_eq(self.column(k), name) {
                return Some(k);
            }
            k += 1;
        }
        None
    }

    pub fn has_column(self, name: &str) -> (r: bool)
        ensures
            r == self.spec_has_column(name@),
    {
        self.find_column(name).is_some()
    }
}

} // verus!
