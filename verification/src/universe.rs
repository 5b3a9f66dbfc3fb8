//! The catalog: a universe of databases, each with its collections.
//!
//! `UniverseModel`, `DatabaseModel` and `CollectionModel` are the catalog as
//! a mathematical value, with every operation as a function on it. The
//! executable `Universe`, `Database` and `Collection` are held to them: what
//! an operation returns and what it leaves behind is what the function of
//! the same name says.
use vstd::prelude::*;
use vstd::string::*;
use crate::apis::{
    CollectionDesc, CollectionDescModel, CollectionOptions, DatabaseDesc, DatabaseDescModel,
    DatabaseOptions, DatabaseProperties,
};
use crate::error::{Error, ErrorModel};
use crate::namespace::{Namespace, NamespaceModel};

verus! {

/// A collection as a mathematical value.
pub struct CollectionModel {
    pub id: u64,
    pub name: Seq<char>,
    pub options: Seq<u8>,
}

/// A database as a mathematical value.
#[verifier::ext_equal]
pub struct DatabaseModel {
    pub id: u64,
    pub name: Seq<char>,
    pub options: Seq<u8>,
    pub collections: NamespaceModel<CollectionModel>,
}

/// The whole catalog as a mathematical value.
#[verifier::ext_equal]
pub struct UniverseModel {
    pub databases: NamespaceModel<DatabaseModel>,
}

/// The children of a page, without their names.
pub open spec fn children<T>(page: Seq<(Seq<char>, T)>) -> Seq<T> {
    page.map_values(|e: (Seq<char>, T)| e.1)
}

/// The token that a listing starts from: the one given, or the empty name,
/// which is before every other.
pub open spec fn token_or_empty(token: Option<Seq<char>>) -> Seq<char> {
    match token {
        Some(t) => t,
        None => Seq::empty(),
    }
}

impl CollectionModel {
    /// The description of a collection: its identifier, name and options,
    /// and no properties.
    pub open spec fn desc(self) -> CollectionDescModel {
        CollectionDescModel {
            id: self.id,
            name: self.name,
            options: Some(self.options),
            properties: None,
        }
    }
}

impl DatabaseModel {
    /// A database as it is created: without collections, its first
    /// collection to get the identifier 1.
    pub open spec fn fresh(id: u64, name: Seq<char>, options: Seq<u8>) -> Self {
        DatabaseModel { id, name, options, collections: NamespaceModel::empty() }
    }

    /// The collections are in order under unique names, and each is filed
    /// under its own name.
    pub open spec fn wf(self) -> bool {
        &&& self.collections.wf()
        &&& forall|i: int|
            0 <= i < self.collections.entries.len() ==> (#[trigger] self.collections.entries[i]).1.name
                == self.collections.entries[i].0
    }

    /// The description of a database: its identifier, name and options, and
    /// the number of collections that it holds at this moment.
    pub open spec fn desc(self) -> DatabaseDescModel {
        DatabaseDescModel {
            id: self.id,
            name: self.name,
            options: Some(self.options),
            properties: Some(
                DatabaseProperties { num_collections: self.collections.len() as u64 },
            ),
        }
    }

    /// The collection of this name, or the error that there is none.
    pub open spec fn collection(self, name: Seq<char>) -> Result<CollectionModel, ErrorModel> {
        if self.collections.has(name) {
            Ok(self.collections.at(name))
        } else {
            Err(ErrorModel::NotFound("collection "@ + name))
        }
    }

    /// One page of collections and the name that the next page starts at.
    pub open spec fn list_collections(self, count: nat, token: Option<Seq<char>>) -> (
        Seq<CollectionModel>,
        Option<Seq<char>>,
    ) {
        (
            children(self.collections.page(count, token_or_empty(token))),
            self.collections.next_token(count, token_or_empty(token)),
        )
    }

    /// The collection that a creation under `name` adds.
    pub open spec fn new_collection(self, name: Seq<char>, options: Seq<u8>) -> CollectionModel {
        CollectionModel { id: self.collections.next_id, name, options }
    }

    /// Creates a collection: refused where the name is taken, the database
    /// then staying as it is; else the collection gets the next identifier
    /// of this database and is filed under its name.
    pub open spec fn create_collection(self, name: Seq<char>, options: Seq<u8>) -> (
        DatabaseModel,
        Result<CollectionModel, ErrorModel>,
    ) {
        if self.collections.has(name) {
            (self, Err(ErrorModel::AlreadyExists("collection "@ + name)))
        } else {
            (
                DatabaseModel {
                    collections: self.collections.bump().put(
                        name,
                        self.new_collection(name, options),
                    ),
                    ..self
                },
                Ok(self.new_collection(name, options)),
            )
        }
    }

    /// Deletes the collection of this name, if there is one.
    pub open spec fn delete_collection(self, name: Seq<char>) -> DatabaseModel {
        DatabaseModel { collections: self.collections.cut(name), ..self }
    }

    /// Creating a collection keeps the database well formed, and its
    /// identifier, name and options.
    pub proof fn lemma_create_collection(self, name: Seq<char>, options: Seq<u8>)
        requires
            self.wf(),
        ensures
            self.create_collection(name, options).0.wf(),
            self.create_collection(name, options).0.id == self.id,
            self.create_collection(name, options).0.name == self.name,
            self.create_collection(name, options).0.options == self.options,
    {
        if !self.collections.has(name) {
            let child = self.new_collection(name, options);
            let before = self.collections.bump();
            before.lemma_put(name, child);
            let k = before.rank(name);
            let s = before.entries;
            let t = before.put(name, child).entries;
            crate::namespace::lemma_rank_bounds(s, name);
            assert forall|i: int| 0 <= i < t.len() implies (#[trigger] t[i]).1.name == t[i].0 by {
                if i < k {
                    assert(t[i] == s[i]);
                } else if i > k {
                    assert(t[i] == s[i - 1]);
                }
            }
        }
    }

    /// Deleting a collection keeps the database well formed, and its
    /// identifier, name and options.
    pub proof fn lemma_delete_collection(self, name: Seq<char>)
        requires
            self.wf(),
        ensures
            self.delete_collection(name).wf(),
            self.delete_collection(name).id == self.id,
            self.delete_collection(name).name == self.name,
            self.delete_collection(name).options == self.options,
    {
        self.collections.lemma_cut(name);
        if self.collections.has(name) {
            let k = self.collections.rank(name);
            let s = self.collections.entries;
            let t = self.collections.cut(name).entries;
            crate::namespace::lemma_rank_bounds(s, name);
            assert forall|i: int| 0 <= i < t.len() implies (#[trigger] t[i]).1.name == t[i].0 by {
                if i < k {
                    assert(t[i] == s[i]);
                } else {
                    assert(t[i] == s[i + 1]);
                }
            }
        }
    }
}

impl UniverseModel {
    /// The catalog that a service starts with: no databases, the first to
    /// get the identifier 1.
    pub open spec fn empty() -> Self {
        UniverseModel { databases: NamespaceModel::empty() }
    }

    /// The databases are in order under unique names, each is filed under
    /// its own name, and each is well formed.
    pub open spec fn wf(self) -> bool {
        &&& self.databases.wf()
        &&& forall|i: int|
            0 <= i < self.databases.entries.len() ==> {
                &&& (#[trigger] self.databases.entries[i]).1.name == self.databases.entries[i].0
                &&& self.databases.entries[i].1.wf()
            }
    }

    /// The database of this name, or the error that there is none.
    pub open spec fn database(self, name: Seq<char>) -> Result<DatabaseModel, ErrorModel> {
        if self.databases.has(name) {
            Ok(self.databases.at(name))
        } else {
            Err(ErrorModel::NotFound("database "@ + name))
        }
    }

    /// One page of databases and the name that the next page starts at.
    pub open spec fn list_databases(self, count: nat, token: Option<Seq<char>>) -> (
        Seq<DatabaseModel>,
        Option<Seq<char>>,
    ) {
        (
            children(self.databases.page(count, token_or_empty(token))),
            self.databases.next_token(count, token_or_empty(token)),
        )
    }

    /// The database that a creation under `name` adds.
    pub open spec fn new_database(self, name: Seq<char>, options: Seq<u8>) -> DatabaseModel {
        DatabaseModel::fresh(self.databases.next_id, name, options)
    }

    /// Creates a database: refused where the name is taken, the catalog then
    /// staying as it is; else the database gets the next identifier of the
    /// universe and is filed under its name, without collections.
    pub open spec fn create_database(self, name: Seq<char>, options: Seq<u8>) -> (
        UniverseModel,
        Result<DatabaseModel, ErrorModel>,
    ) {
        if self.databases.has(name) {
            (self, Err(ErrorModel::AlreadyExists("database "@ + name)))
        } else {
            (
                UniverseModel {
                    databases: self.databases.bump().put(name, self.new_database(name, options)),
                },
                Ok(self.new_database(name, options)),
            )
        }
    }

    /// Deletes the database of this name, if there is one.
    pub open spec fn delete_database(self, name: Seq<char>) -> UniverseModel {
        UniverseModel { databases: self.databases.cut(name) }
    }

    /// The catalog with `database` in the place of the database of this name.
    pub open spec fn with_database(self, name: Seq<char>, database: DatabaseModel) -> UniverseModel {
        UniverseModel { databases: self.databases.set(name, database) }
    }

    /// Every database that the catalog holds is well formed and carries the
    /// name that it is filed under.
    pub proof fn lemma_database(self, name: Seq<char>)
        requires
            self.wf(),
            self.databases.has(name),
        ensures
            self.databases.at(name).wf(),
            self.databases.at(name).name == name,
    {
        crate::namespace::lemma_rank_bounds(self.databases.entries, name);
        assert(self.databases.entries[self.databases.rank(name)].1.wf());
    }

    /// Creating a database keeps the catalog well formed.
    pub proof fn lemma_create_database(self, name: Seq<char>, options: Seq<u8>)
        requires
            self.wf(),
        ensures
            self.create_database(name, options).0.wf(),
    {
        if !self.databases.has(name) {
            let child = self.new_database(name, options);
            let before = self.databases.bump();
            before.lemma_put(name, child);
            let k = before.rank(name);
            let s = before.entries;
            let t = before.put(name, child).entries;
            crate::namespace::lemma_rank_bounds(s, name);
            assert(child.wf());
            assert forall|i: int| 0 <= i < t.len() implies (#[trigger] t[i]).1.name == t[i].0
                && t[i].1.wf() by {
                if i < k {
                    assert(t[i] == s[i]);
                } else if i > k {
                    assert(t[i] == s[i - 1]);
                }
            }
        }
    }

    /// Deleting a database keeps the catalog well formed.
    pub proof fn lemma_delete_database(self, name: Seq<char>)
        requires
            self.wf(),
        ensures
            self.delete_database(name).wf(),
    {
        self.databases.lemma_cut(name);
        if self.databases.has(name) {
            let k = self.databases.rank(name);
            let s = self.databases.entries;
            let t = self.databases.cut(name).entries;
            crate::namespace::lemma_rank_bounds(s, name);
            assert forall|i: int| 0 <= i < t.len() implies (#[trigger] t[i]).1.name == t[i].0
                && t[i].1.wf() by {
                if i < k {
                    assert(t[i] == s[i]);
                } else {
                    assert(t[i] == s[i + 1]);
                }
            }
        }
    }

    /// Putting a well-formed database of the same name in the place of one
    /// keeps the catalog well formed.
    pub proof fn lemma_with_database(self, name: Seq<char>, database: DatabaseModel)
        requires
            self.wf(),
            self.databases.has(name),
            database.wf(),
            database.name == name,
        ensures
            self.with_database(name, database).wf(),
    {
        self.databases.lemma_set(name, database);
        let k = self.databases.rank(name);
        let s = self.databases.entries;
        let t = self.databases.set(name, database).entries;
        crate::namespace::lemma_rank_bounds(s, name);
        assert forall|i: int| 0 <= i < t.len() implies (#[trigger] t[i]).1.name == t[i].0
            && t[i].1.wf() by {
            if i != k {
                assert(t[i] == s[i]);
            }
        }
    }
}

/// A collection: a leaf of the catalog.
pub struct Collection {
    id: u64,
    name: String,
    options: CollectionOptions,
}

/// A database: an entry of the universe that holds collections.
pub struct Database {
    id: u64,
    name: String,
    options: DatabaseOptions,
    collections: Namespace<Collection>,
}

/// The universe: the root of the catalog, which holds the databases.
pub struct Universe {
    databases: Namespace<Database>,
}

impl View for Collection {
    type V = CollectionModel;

    closed spec fn view(&self) -> CollectionModel {
        CollectionModel { id: self.id, name: self.name@, options: self.options@ }
    }
}

impl View for Database {
    type V = DatabaseModel;

    closed spec fn view(&self) -> DatabaseModel {
        DatabaseModel {
            id: self.id,
            name: self.name@,
            options: self.options@,
            collections: self.collections@,
        }
    }
}

impl View for Universe {
    type V = UniverseModel;

    closed spec fn view(&self) -> UniverseModel {
        UniverseModel { databases: self.databases@ }
    }
}

/// The outcome of an operation that hands out a part of the catalog.
pub open spec fn outcome_ref<R: View>(res: Result<&R, Error>) -> Result<R::V, ErrorModel> {
    match res {
        Ok(r) => Ok(r@),
        Err(e) => Err(e@),
    }
}

/// The views of the children that a listing handed out.
pub open spec fn views<R: View>(items: Seq<&R>) -> Seq<R::V> {
    items.map_values(|r: &R| r@)
}

/// The view of a token that may be absent.
pub open spec fn token_view(token: Option<String>) -> Option<Seq<char>> {
    match token {
        Some(t) => Some(t@),
        None => None,
    }
}

impl Collection {
    /// A collection with this identifier, name and options.
    pub fn new(id: u64, name: String, options: CollectionOptions) -> (collection: Self)
        ensures
            collection@ == (CollectionModel { id, name: name@, options: options@ }),
    {
        Collection { id, name, options }
    }

    /// The description of this collection.
    pub fn desc(&self) -> (desc: CollectionDesc)
        ensures
            desc@ == self@.desc(),
    {
        CollectionDesc {
            id: self.id,
            name: self.name.clone(),
            options: Some(self.options.clone()),
            properties: None,
        }
    }
}

impl Database {
    /// A database with this identifier, name and options, and no collections.
    pub fn new(id: u64, name: String, options: DatabaseOptions) -> (database: Self)
        ensures
            database@ == DatabaseModel::fresh(id, name@, options@),
            database@.wf(),
    {
        Database { id, name, options, collections: Namespace::new() }
    }

    /// A database holds no more collections than the machine can count.
    pub proof fn lemma_len_fits(&self)
        ensures
            self@.collections.len() <= usize::MAX,
    {
        self.collections.lemma_len_fits();
    }

    /// The description of this database.
    pub fn desc(&self) -> (desc: DatabaseDesc)
        ensures
            desc@ == self@.desc(),
    {
        let properties = DatabaseProperties { num_collections: self.collections.len() as u64 };
        DatabaseDesc {
            id: self.id,
            name: self.name.clone(),
            options: Some(self.options.clone()),
            properties: Some(properties),
        }
    }

    /// The collection of this name.
    pub fn collection(&self, name: &str) -> (res: Result<&Collection, Error>)
        requires
            self@.wf(),
        ensures
            outcome_ref(res) == self@.collection(name@),
    {
        match self.collections.get(name) {
            Some(collection) => Ok(collection),
            None => Err(Error::not_found("collection ", name)),
        }
    }

    /// One page of collections: up to `count` of them, from the first whose
    /// name is not before `token`, in ascending order of name; and the name
    /// that the next page starts at, where a collection follows this page.
    pub fn list_collections(&self, count: usize, token: Option<String>) -> (res: Result<
        (Vec<&Collection>, Option<String>),
        Error,
    >)
        requires
            self@.wf(),
        ensures
            res matches Ok(page) && views(page.0@) == self@.list_collections(
                count as nat,
                token_view(token),
            ).0 && token_view(page.1) == self@.list_collections(count as nat, token_view(token)).1,
    {
        let token = match token {
            Some(t) => t,
            None => String::new(),
        };
        let page = self.collections.page(count, token.as_str());
        assert(views(page.0@) =~= children(self@.collections.page(count as nat, token@)));
        Ok(page)
    }

    /// Creates a collection under a name that no collection of this
    /// database has, and hands it out.
    pub fn create_collection(&mut self, name: &str, options: CollectionOptions) -> (res: Result<
        &Collection,
        Error,
    >)
        requires
            old(self)@.wf(),
        ensures
            final(self)@ == old(self)@.create_collection(name@, options@).0,
            outcome_ref(res) == old(self)@.create_collection(name@, options@).1,
            final(self)@.wf(),
    {
        proof {
            old(self)@.lemma_create_collection(name@, options@);
        }
        if self.collections.contains(name) {
            return Err(Error::already_exists("collection ", name));
        }
        let id = self.collections.allocate();
        let collection = Collection::new(id, name.to_owned(), options);
        self.collections.insert(name.to_owned(), collection);
        proof {
            old(self)@.collections.bump().lemma_put(
                name@,
                old(self)@.new_collection(name@, options@),
            );
        }
        Ok(self.collections.get(name).unwrap())
    }

    /// Deletes the collection of this name. Nothing happens where there is
    /// none; this never fails.
    pub fn delete_collection(&mut self, name: &str) -> (res: Result<(), Error>)
        requires
            old(self)@.wf(),
        ensures
            res is Ok,
            final(self)@ == old(self)@.delete_collection(name@),
            final(self)@.wf(),
    {
        proof {
            old(self)@.lemma_delete_collection(name@);
        }
        self.collections.remove(name);
        Ok(())
    }
}

impl Universe {
    /// A universe without databases.
    pub fn new() -> (universe: Self)
        ensures
            universe@ == UniverseModel::empty(),
            universe@.wf(),
    {
        Universe { databases: Namespace::new() }
    }

    /// A universe holds no more databases than the machine can count.
    pub proof fn lemma_len_fits(&self)
        ensures
            self@.databases.len() <= usize::MAX,
    {
        self.databases.lemma_len_fits();
    }

    /// The database of this name.
    pub fn database(&self, name: &str) -> (res: Result<&Database, Error>)
        requires
            self@.wf(),
        ensures
            outcome_ref(res) == self@.database(name@),
            res matches Ok(database) ==> database@.wf() && database@.name == name@,
    {
        match self.databases.get(name) {
            Some(database) => {
                proof {
                    self@.lemma_database(name@);
                }
                Ok(database)
            },
            None => Err(Error::not_found("database ", name)),
        }
    }

    /// The database of this name, to be changed in place: the catalog ends
    /// with what the caller leaves of it.
    pub fn database_mut(&mut self, name: &str) -> (res: Result<&mut Database, Error>)
        requires
            old(self)@.wf(),
        ensures
            res is Ok <==> old(self)@.databases.has(name@),
            res matches Ok(database) ==> {
                &&& database@ == old(self)@.databases.at(name@)
                &&& database@.wf()
                &&& database@.name == name@
                &&& final(self)@ == old(self)@.with_database(name@, final(database)@)
            },
            res matches Err(e) ==> {
                &&& e@ == ErrorModel::NotFound("database "@ + name@)
                &&& final(self)@ == old(self)@
            },
    {
        proof {
            if old(self)@.databases.has(name@) {
                old(self)@.lemma_database(name@);
            }
        }
        match self.databases.get_mut(name) {
            Some(database) => Ok(database),
            None => Err(Error::not_found("database ", name)),
        }
    }

    /// One page of databases: up to `count` of them, from the first whose
    /// name is not before `token`, in ascending order of name; and the name
    /// that the next page starts at, where a database follows this page.
    pub fn list_databases(&self, count: usize, token: Option<String>) -> (res: Result<
        (Vec<&Database>, Option<String>),
        Error,
    >)
        requires
            self@.wf(),
        ensures
            res matches Ok(page) && views(page.0@) == self@.list_databases(
                count as nat,
                token_view(token),
            ).0 && token_view(page.1) == self@.list_databases(count as nat, token_view(token)).1,
    {
        let token = match token {
            Some(t) => t,
            None => String::new(),
        };
        let page = self.databases.page(count, token.as_str());
        assert(views(page.0@) =~= children(self@.databases.page(count as nat, token@)));
        Ok(page)
    }

    /// Creates a database under a name that no database has, and hands it out.
    pub fn create_database(&mut self, name: &str, options: DatabaseOptions) -> (res: Result<
        &Database,
        Error,
    >)
        requires
            old(self)@.wf(),
        ensures
            final(self)@ == old(self)@.create_database(name@, options@).0,
            outcome_ref(res) == old(self)@.create_database(name@, options@).1,
            final(self)@.wf(),
    {
        proof {
            old(self)@.lemma_create_database(name@, options@);
        }
        if self.databases.contains(name) {
            return Err(Error::already_exists("database ", name));
        }
        let id = self.databases.allocate();
        let database = Database::new(id, name.to_owned(), options);
        self.databases.insert(name.to_owned(), database);
        proof {
            old(self)@.databases.bump().lemma_put(
                name@,
                old(self)@.new_database(name@, options@),
            );
        }
        Ok(self.databases.get(name).unwrap())
    }

    /// Deletes the database of this name, with its collections. Nothing
    /// happens where there is none; this never fails.
    pub fn delete_database(&mut self, name: &str) -> (res: Result<(), Error>)
        requires
            old(self)@.wf(),
        ensures
            res is Ok,
            final(self)@ == old(self)@.delete_database(name@),
            final(self)@.wf(),
    {
        proof {
            old(self)@.lemma_delete_database(name@);
        }
        self.databases.remove(name);
        Ok(())
    }
}

impl Default for Universe {
    fn default() -> (universe: Self)
        ensures
            universe@ == UniverseModel::empty(),
            universe@.wf(),
    {
        Universe::new()
    }
}

} // verus!
