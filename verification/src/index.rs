//! Looking rows up by their primary key.
//!
//! An [`Index`] borrows a dump that was loaded into memory. For each table
//! with a primary key it keeps a map from key to position, which it builds
//! when the table is first asked for and keeps from then on.

use vstd::prelude::*;

use crate::categories::CategoryId;
use crate::crates::CrateId;
use crate::keywords::KeywordId;
use crate::teams::TeamId;
use crate::users::UserId;
use crate::versions::VersionId;
use crate::DbDump;

verus! {

#[verifier::external_type_specification]
#[verifier::external_body]
pub struct ExFnvHasher(fnv::FnvHasher);

#[verifier::external_type_specification]
#[verifier::external_body]
#[verifier::reject_recursive_types(H)]
pub struct ExBuildHasherDefault<H>(core::hash::BuildHasherDefault<H>);

/// `HashMap::with_capacity_and_hasher` with the default FNV hasher: a map
/// without entries, with room for `capacity` of them.
#[verifier::external_body]
fn fnv_with_capacity(capacity: usize) -> (r: fnv::FnvHashMap<u32, usize>)
    ensures
        r@.dom() == Set::<u32>::empty(),
{
    fnv::FnvHashMap::with_capacity_and_hasher(capacity, fnv::FnvBuildHasher::default())
}

/// `HashMap::insert` on an `FnvHashMap`: afterwards the key has the value,
/// and every other key what it had.
#[verifier::external_body]
fn fnv_insert(map: &mut fnv::FnvHashMap<u32, usize>, key: u32, value: usize)
    ensures
        final(map)@ == old(map)@.insert(key, value),
{
    map.insert(key, value);
}

/// `HashMap::get` on an `FnvHashMap`: the value of the key, if it has one.
#[verifier::external_body]
fn fnv_get(map: &fnv::FnvHashMap<u32, usize>, key: u32) -> (r: Option<usize>)
    ensures
        r == (if map@.contains_key(key) { Some(map@[key]) } else { None }),
{
    map.get(&key).copied()
}

/// A row with a primary key.
pub trait Keyed {
    /// The number of the row's primary key.
    spec fn key(&self) -> u32;

    fn key_number(&self) -> (r: u32)
        ensures
            r == self.key(),
    ;
}

/// The keys of the rows of a table, in the order of the rows.
pub open spec fn keys<T: Keyed>(rows: Seq<T>) -> Seq<u32> {
    rows.map_values(|row: T| row.key())
}

/// The position of the last row with the key `key`, if there is one. A key
/// is meant to stand once in its table; where it stands more often, the
/// last row has it.
pub open spec fn last_position(keys: Seq<u32>, key: u32) -> Option<int>
    decreases keys.len(),
{
    if keys.len() == 0 {
        None
    } else if keys.last() == key {
        Some(keys.len() - 1)
    } else {
        last_position(keys.drop_last(), key)
    }
}

/// The position that `last_position` gives holds the key.
pub proof fn lemma_last_position(keys: Seq<u32>, key: u32)
    ensures
        match last_position(keys, key) {
            Some(p) => 0 <= p < keys.len() && keys[p] == key && forall|q: int|
                p < q < keys.len() ==> keys[q] != key,
            None => forall|q: int| 0 <= q < keys.len() ==> keys[q] != key,
        },
    decreases keys.len(),
{
    if keys.len() > 0 && keys.last() != key {
        let rest = keys.drop_last();
        lemma_last_position(rest, key);
        match last_position(rest, key) {
            Some(p) => {
                assert forall|q: int| p < q < keys.len() implies keys[q] != key by {
                    if q < rest.len() {
                        assert(rest[q] == keys[q]);
                    }
                }
            },
            None => {
                assert forall|q: int| 0 <= q < keys.len() implies keys[q] != key by {
                    if q < rest.len() {
                        assert(rest[q] == keys[q]);
                    }
                }
            },
        }
    }
}

/// In a table whose keys are all different, the position of a key is the
/// position of the one row that has it.
pub proof fn lemma_unique_position(keys: Seq<u32>, p: int)
    requires
        0 <= p < keys.len(),
        forall|i: int, j: int| 0 <= i < j < keys.len() ==> keys[i] != keys[j],
    ensures
        last_position(keys, keys[p]) == Some(p),
{
    lemma_last_position(keys, keys[p]);
}

/// Whether the table holds a row with the key `key`.
pub open spec fn has_row<T: Keyed>(rows: Seq<T>, key: u32) -> bool {
    last_position(keys(rows), key) is Some
}

/// The row with the key `key`: the last one, where the key stands more
/// than once.
pub open spec fn row_of<T: Keyed>(rows: Seq<T>, key: u32) -> T {
    rows[last_position(keys(rows), key)->0]
}

/// The map from each key to the position of its row.
pub open spec fn positions(keys: Seq<u32>) -> Map<u32, usize> {
    Map::new(
        |key: u32| last_position(keys, key) is Some,
        |key: u32| last_position(keys, key)->0 as usize,
    )
}

/// Builds the map from each key to the position of its row.
fn build<T: Keyed>(rows: &Vec<T>) -> (r: fnv::FnvHashMap<u32, usize>)
    ensures
        r@ == positions(keys(rows@)),
{
    let mut map = fnv_with_capacity(rows.len());
    let mut i: usize = 0;
    assert(map@ =~= positions(keys(rows@).take(0))) by {
        assert(keys(rows@).take(0) =~= Seq::<u32>::empty());
    }
    while i < rows.len()
        invariant
            i <= rows.len(),
            map@ == positions(keys(rows@).take(i as int)),
        decreases rows.len() - i,
    {
        let key = rows[i].key_number();
        fnv_insert(&mut map, key, i);
        proof {
            let before = keys(rows@).take(i as int);
            let after = keys(rows@).take(i + 1);
            assert(after.drop_last() =~= before);
            assert(after.last() == key);
            assert(map@ =~= positions(after));
        }
        i += 1;
    }
    assert(keys(rows@).take(rows.len() as int) =~= keys(rows@));
    map
}

/// Finds the row of `key` through the map of its table.
fn find<'a, T: Keyed>(map: &fnv::FnvHashMap<u32, usize>, rows: &'a Vec<T>, key: u32) -> (r:
    Option<&'a T>)
    requires
        map@ == positions(keys(rows@)),
    ensures
        match r {
            Some(row) => has_row(rows@, key) && *row == row_of(rows@, key),
            None => !has_row(rows@, key),
        },
{
    proof {
        lemma_last_position(keys(rows@), key);
    }
    let n = rows.len();
    match fnv_get(map, key) {
        Some(p) => {
            assert(map@.contains_key(key));
            assert(last_position(keys(rows@), key) is Some);
            let ghost at = last_position(keys(rows@), key)->0;
            assert(keys(rows@).len() == rows@.len());
            assert(0 <= at < n);
            assert(map@[key] == at as usize);
            assert(p == at);
            Some(&rows[p])
        },
        None => {
            assert(!map@.contains_key(key));
            None
        },
    }
}

/// Lazy index of the tables that have a primary key.
pub struct Index<'a> {
    db: &'a DbDump,
    categories: Option<fnv::FnvHashMap<u32, usize>>,
    crates: Option<fnv::FnvHashMap<u32, usize>>,
    keywords: Option<fnv::FnvHashMap<u32, usize>>,
    teams: Option<fnv::FnvHashMap<u32, usize>>,
    users: Option<fnv::FnvHashMap<u32, usize>>,
    versions: Option<fnv::FnvHashMap<u32, usize>>,
}

impl<'a> Index<'a> {
    #[verifier::type_invariant]
    spec fn valid(self) -> bool {
        &&& self.categories matches Some(map) ==> map@ == positions(keys(self.db.categories@))
        &&& self.crates matches Some(map) ==> map@ == positions(keys(self.db.crates@))
        &&& self.keywords matches Some(map) ==> map@ == positions(keys(self.db.keywords@))
        &&& self.teams matches Some(map) ==> map@ == positions(keys(self.db.teams@))
        &&& self.users matches Some(map) ==> map@ == positions(keys(self.db.users@))
        &&& self.versions matches Some(map) ==> map@ == positions(keys(self.db.versions@))
    }

    /// The dump that the index looks into.
    pub closed spec fn db(&self) -> &'a DbDump {
        self.db
    }

    /// Whether the map of `categories.csv` was built.
    pub closed spec fn has_categories(&self) -> bool {
        self.categories is Some
    }

    /// Whether the map of `crates.csv` was built.
    pub closed spec fn has_crates(&self) -> bool {
        self.crates is Some
    }

    /// Whether the map of `keywords.csv` was built.
    pub closed spec fn has_keywords(&self) -> bool {
        self.keywords is Some
    }

    /// Whether the map of `teams.csv` was built.
    pub closed spec fn has_teams(&self) -> bool {
        self.teams is Some
    }

    /// Whether the map of `users.csv` was built.
    pub closed spec fn has_users(&self) -> bool {
        self.users is Some
    }

    /// Whether the map of `versions.csv` was built.
    pub closed spec fn has_versions(&self) -> bool {
        self.versions is Some
    }

    /// An index of `db`. This does no work up front: the map of a table is
    /// built when the table is first asked for.
    pub fn new(db: &'a DbDump) -> (r: Self)
        ensures
            r.db() == db,
            !r.has_categories(),
            !r.has_crates(),
            !r.has_keywords(),
            !r.has_teams(),
            !r.has_users(),
            !r.has_versions(),
    {
        Index {
            db,
            categories: None,
            crates: None,
            keywords: None,
            teams: None,
            users: None,
            versions: None,
        }
    }

    /// Finds the row of `categories.csv` with the key `id`, if the table has one.
    /// The first call builds the map of the table; a later call finds it
    /// built and leaves the index as it is.
    pub fn find_category(&mut self, id: CategoryId) -> (r: Option<&'a crate::categories::Row>)
        ensures
            final(self).db() == old(self).db(),
            final(self).has_categories(),
            final(self).has_crates() == old(self).has_crates(),
            final(self).has_keywords() == old(self).has_keywords(),
            final(self).has_teams() == old(self).has_teams(),
            final(self).has_users() == old(self).has_users(),
            final(self).has_versions() == old(self).has_versions(),
            old(self).has_categories() ==> *final(self) == *old(self),
            match r {
                Some(row) => has_row(old(self).db().categories@, id.0) && *row == row_of(
                    old(self).db().categories@,
                    id.0,
                ),
                None => !has_row(old(self).db().categories@, id.0),
            },
    {
        proof {
            use_type_invariant(&*self);
        }
        let db: &'a DbDump = self.db;
        if self.categories.is_none() {
            self.categories = Some(build(&db.categories));
        }
        match &self.categories {
            Some(map) => find(map, &db.categories, id.0),
            None => None,
        }
    }

    /// The row of `categories.csv` with the key `id`, which the table must have.
    pub fn category(&mut self, id: CategoryId) -> (r: &'a crate::categories::Row)
        requires
            has_row(old(self).db().categories@, id.0),
        ensures
            final(self).db() == old(self).db(),
            final(self).has_categories(),
            final(self).has_crates() == old(self).has_crates(),
            final(self).has_keywords() == old(self).has_keywords(),
            final(self).has_teams() == old(self).has_teams(),
            final(self).has_users() == old(self).has_users(),
            final(self).has_versions() == old(self).has_versions(),
            old(self).has_categories() ==> *final(self) == *old(self),
            *r == row_of(old(self).db().categories@, id.0),
            r.id == id,
    {
        proof {
            lemma_last_position(keys(self.db().categories@), id.0);
        }
        self.find_category(id).unwrap()
    }

    /// Finds the row of `crates.csv` with the key `id`, if the table has one.
    /// The first call builds the map of the table; a later call finds it
    /// built and leaves the index as it is.
    pub fn find_krate(&mut self, id: CrateId) -> (r: Option<&'a crate::crates::Row>)
        ensures
            final(self).db() == old(self).db(),
            final(self).has_crates(),
            final(self).has_categories() == old(self).has_categories(),
            final(self).has_keywords() == old(self).has_keywords(),
            final(self).has_teams() == old(self).has_teams(),
            final(self).has_users() == old(self).has_users(),
            final(self).has_versions() == old(self).has_versions(),
            old(self).has_crates() ==> *final(self) == *old(self),
            match r {
                Some(row) => has_row(old(self).db().crates@, id.0) && *row == row_of(
                    old(self).db().crates@,
                    id.0,
                ),
                None => !has_row(old(self).db().crates@, id.0),
            },
    {
        proof {
            use_type_invariant(&*self);
        }
        let db: &'a DbDump = self.db;
        if self.crates.is_none() {
            self.crates = Some(build(&db.crates));
        }
        match &self.crates {
            Some(map) => find(map, &db.crates, id.0),
            None => None,
        }
    }

    /// The row of `crates.csv` with the key `id`, which the table must have.
    pub fn krate(&mut self, id: CrateId) -> (r: &'a crate::crates::Row)
        requires
            has_row(old(self).db().crates@, id.0),
        ensures
            final(self).db() == old(self).db(),
            final(self).has_crates(),
            final(self).has_categories() == old(self).has_categories(),
            final(self).has_keywords() == old(self).has_keywords(),
            final(self).has_teams() == old(self).has_teams(),
            final(self).has_users() == old(self).has_users(),
            final(self).has_versions() == old(self).has_versions(),
            old(self).has_crates() ==> *final(self) == *old(self),
            *r == row_of(old(self).db().crates@, id.0),
            r.id == id,
    {
        proof {
            lemma_last_position(keys(self.db().crates@), id.0);
        }
        self.find_krate(id).unwrap()
    }

    /// Finds the row of `keywords.csv` with the key `id`, if the table has one.
    /// The first call builds the map of the table; a later call finds it
    /// built and leaves the index as it is.
    pub fn find_keyword(&mut self, id: KeywordId) -> (r: Option<&'a crate::keywords::Row>)
        ensures
            final(self).db() == old(self).db(),
            final(self).has_keywords(),
            final(self).has_categories() == old(self).has_categories(),
            final(self).has_crates() == old(self).has_crates(),
            final(self).has_teams() == old(self).has_teams(),
            final(self).has_users() == old(self).has_users(),
            final(self).has_versions() == old(self).has_versions(),
            old(self).has_keywords() ==> *final(self) == *old(self),
            match r {
                Some(row) => has_row(old(self).db().keywords@, id.0) && *row == row_of(
                    old(self).db().keywords@,
                    id.0,
                ),
                None => !has_row(old(self).db().keywords@, id.0),
            },
    {
        proof {
            use_type_invariant(&*self);
        }
        let db: &'a DbDump = self.db;
        if self.keywords.is_none() {
            self.keywords = Some(build(&db.keywords));
        }
        match &self.keywords {
            Some(map) => find(map, &db.keywords, id.0),
            None => None,
        }
    }

    /// The row of `keywords.csv` with the key `id`, which the table must have.
    pub fn keyword(&mut self, id: KeywordId) -> (r: &'a crate::keywords::Row)
        requires
            has_row(old(self).db().keywords@, id.0),
        ensures
            final(self).db() == old(self).db(),
            final(self).has_keywords(),
            final(self).has_categories() == old(self).has_categories(),
            final(self).has_crates() == old(self).has_crates(),
            final(self).has_teams() == old(self).has_teams(),
            final(self).has_users() == old(self).has_users(),
            final(self).has_versions() == old(self).has_versions(),
            old(self).has_keywords() ==> *final(self) == *old(self),
            *r == row_of(old(self).db().keywords@, id.0),
            r.id == id,
    {
        proof {
            lemma_last_position(keys(self.db().keywords@), id.0);
        }
        self.find_keyword(id).unwrap()
    }

    /// Finds the row of `teams.csv` with the key `id`, if the table has one.
    /// The first call builds the map of the table; a later call finds it
    /// built and leaves the index as it is.
    pub fn find_team(&mut self, id: TeamId) -> (r: Option<&'a crate::teams::Row>)
        ensures
            final(self).db() == old(self).db(),
            final(self).has_teams(),
            final(self).has_categories() == old(self).has_categories(),
            final(self).has_crates() == old(self).has_crates(),
            final(self).has_keywords() == old(self).has_keywords(),
            final(self).has_users() == old(self).has_users(),
            final(self).has_versions() == old(self).has_versions(),
            old(self).has_teams() ==> *final(self) == *old(self),
            match r {
                Some(row) => has_row(old(self).db().teams@, id.0) && *row == row_of(
                    old(self).db().teams@,
                    id.0,
                ),
                None => !has_row(old(self).db().teams@, id.0),
            },
    {
        proof {
            use_type_invariant(&*self);
        }
        let db: &'a DbDump = self.db;
        if self.teams.is_none() {
            self.teams = Some(build(&db.teams));
        }
        match &self.teams {
            Some(map) => find(map, &db.teams, id.0),
            None => None,
        }
    }

    /// The row of `teams.csv` with the key `id`, which the table must have.
    pub fn team(&mut self, id: TeamId) -> (r: &'a crate::teams::Row)
        requires
            has_row(old(self).db().teams@, id.0),
        ensures
            final(self).db() == old(self).db(),
            final(self).has_teams(),
            final(self).has_categories() == old(self).has_categories(),
            final(self).has_crates() == old(self).has_crates(),
            final(self).has_keywords() == old(self).has_keywords(),
            final(self).has_users() == old(self).has_users(),
            final(self).has_versions() == old(self).has_versions(),
            old(self).has_teams() ==> *final(self) == *old(self),
            *r == row_of(old(self).db().teams@, id.0),
            r.id == id,
    {
        proof {
            lemma_last_position(keys(self.db().teams@), id.0);
        }
        self.find_team(id).unwrap()
    }

    /// Finds the row of `users.csv` with the key `id`, if the table has one.
    /// The first call builds the map of the table; a later call finds it
    /// built and leaves the index as it is.
    pub fn find_user(&mut self, id: UserId) -> (r: Option<&'a crate::users::Row>)
        ensures
            final(self).db() == old(self).db(),
            final(self).has_users(),
            final(self).has_categories() == old(self).has_categories(),
            final(self).has_crates() == old(self).has_crates(),
            final(self).has_keywords() == old(self).has_keywords(),
            final(self).has_teams() == old(self).has_teams(),
            final(self).has_versions() == old(self).has_versions(),
            old(self).has_users() ==> *final(self) == *old(self),
            match r {
                Some(row) => has_row(old(self).db().users@, id.0) && *row == row_of(
                    old(self).db().users@,
                    id.0,
                ),
                None => !has_row(old(self).db().users@, id.0),
            },
    {
        proof {
            use_type_invariant(&*self);
        }
        let db: &'a DbDump = self.db;
        if self.users.is_none() {
            self.users = Some(build(&db.users));
        }
        match &self.users {
            Some(map) => find(map, &db.users, id.0),
            None => None,
        }
    }

    /// The row of `users.csv` with the key `id`, which the table must have.
    pub fn user(&mut self, id: UserId) -> (r: &'a crate::users::Row)
        requires
            has_row(old(self).db().users@, id.0),
        ensures
            final(self).db() == old(self).db(),
            final(self).has_users(),
            final(self).has_categories() == old(self).has_categories(),
            final(self).has_crates() == old(self).has_crates(),
            final(self).has_keywords() == old(self).has_keywords(),
            final(self).has_teams() == old(self).has_teams(),
            final(self).has_versions() == old(self).has_versions(),
            old(self).has_users() ==> *final(self) == *old(self),
            *r == row_of(old(self).db().users@, id.0),
            r.id == id,
    {
        proof {
            lemma_last_position(keys(self.db().users@), id.0);
        }
        self.find_user(id).unwrap()
    }

    /// Finds the row of `versions.csv` with the key `id`, if the table has one.
    /// The first call builds the map of the table; a later call finds it
    /// built and leaves the index as it is.
    pub fn find_version(&mut self, id: VersionId) -> (r: Option<&'a crate::versions::Row>)
        ensures
            final(self).db() == old(self).db(),
            final(self).has_versions(),
            final(self).has_categories() == old(self).has_categories(),
            final(self).has_crates() == old(self).has_crates(),
            final(self).has_keywords() == old(self).has_keywords(),
            final(self).has_teams() == old(self).has_teams(),
            final(self).has_users() == old(self).has_users(),
            old(self).has_versions() ==> *final(self) == *old(self),
            match r {
                Some(row) => has_row(old(self).db().versions@, id.0) && *row == row_of(
                    old(self).db().versions@,
                    id.0,
                ),
                None => !has_row(old(self).db().versions@, id.0),
            },
    {
        proof {
            use_type_invariant(&*self);
        }
        let db: &'a DbDump = self.db;
        if self.versions.is_none() {
            self.versions = Some(build(&db.versions));
        }
        match &self.versions {
            Some(map) => find(map, &db.versions, id.0),
            None => None,
        }
    }

    /// The row of `versions.csv` with the key `id`, which the table must have.
    pub fn version(&mut self, id: VersionId) -> (r: &'a crate::versions::Row)
        requires
            has_row(old(self).db().versions@, id.0),
        ensures
            final(self).db() == old(self).db(),
            final(self).has_versions(),
            final(self).has_categories() == old(self).has_categories(),
            final(self).has_crates() == old(self).has_crates(),
            final(self).has_keywords() == old(self).has_keywords(),
            final(self).has_teams() == old(self).has_teams(),
            final(self).has_users() == old(self).has_users(),
            old(self).has_versions() ==> *final(self) == *old(self),
            *r == row_of(old(self).db().versions@, id.0),
            r.id == id,
    {
        proof {
            lemma_last_position(keys(self.db().versions@), id.0);
        }
        self.find_version(id).unwrap()
    }

}

impl DbDump {
    /// A lazy index of the tables that have a primary key.
    pub fn index<'a>(&'a self) -> (r: Index<'a>)
        ensures
            r.db() == self,
    {
        Index::new(self)
    }
}

impl CategoryId {
    /// The row that the key belongs to, which `index` must have.
    pub fn lookup<'a>(self, index: &mut Index<'a>) -> (r: &'a crate::categories::Row)
        requires
            has_row(old(index).db().categories@, self.0),
        ensures
            final(index).db() == old(index).db(),
            *r == row_of(old(index).db().categories@, self.0),
            r.id == self,
    {
        index.category(self)
    }
}

impl CrateId {
    /// The row that the key belongs to, which `index` must have.
    pub fn lookup<'a>(self, index: &mut Index<'a>) -> (r: &'a crate::crates::Row)
        requires
            has_row(old(index).db().crates@, self.0),
        ensures
            final(index).db() == old(index).db(),
            *r == row_of(old(index).db().crates@, self.0),
            r.id == self,
    {
        index.krate(self)
    }
}

impl KeywordId {
    /// The row that the key belongs to, which `index` must have.
    pub fn lookup<'a>(self, index: &mut Index<'a>) -> (r: &'a crate::keywords::Row)
        requires
            has_row(old(index).db().keywords@, self.0),
        ensures
            final(index).db() == old(index).db(),
            *r == row_of(old(index).db().keywords@, self.0),
            r.id == self,
    {
        index.keyword(self)
    }
}

impl TeamId {
    /// The row that the key belongs to, which `index` must have.
    pub fn lookup<'a>(self, index: &mut Index<'a>) -> (r: &'a crate::teams::Row)
        requires
            has_row(old(index).db().teams@, self.0),
        ensures
            final(index).db() == old(index).db(),
            *r == row_of(old(index).db().teams@, self.0),
            r.id == self,
    {
        index.team(self)
    }
}

impl UserId {
    /// The row that the key belongs to, which `index` must have.
    pub fn lookup<'a>(self, index: &mut Index<'a>) -> (r: &'a crate::users::Row)
        requires
            has_row(old(index).db().users@, self.0),
        ensures
            final(index).db() == old(index).db(),
            *r == row_of(old(index).db().users@, self.0),
            r.id == self,
    {
        index.user(self)
    }
}

impl VersionId {
    /// The row that the key belongs to, which `index` must have.
    pub fn lookup<'a>(self, index: &mut Index<'a>) -> (r: &'a crate::versions::Row)
        requires
            has_row(old(index).db().versions@, self.0),
        ensures
            final(index).db() == old(index).db(),
            *r == row_of(old(index).db().versions@, self.0),
            r.id == self,
    {
        index.version(self)
    }
}

} // verus!
