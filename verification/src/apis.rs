//! The messages of the catalog service: descriptors, the requests and their
//! responses, and the batches that carry them.
//!
//! A request is read as a `Command` and a response as a `Reply`: these are
//! the mathematical values that the contracts of the service speak of.
use vstd::prelude::*;

pub mod universe_request;
pub mod universe_response;

verus! {

/// The configuration that a database was created with. The catalog keeps it
/// and hands it back; it does not read it.
#[derive(Debug, PartialEq, Eq)]
pub struct DatabaseOptions {
    pub payload: Vec<u8>,
}

/// The configuration that a collection was created with. The catalog keeps
/// it and hands it back; it does not read it.
#[derive(Debug, PartialEq, Eq)]
pub struct CollectionOptions {
    pub payload: Vec<u8>,
}

/// What the catalog derives of a database when it is described.
#[derive(Clone, Copy, Debug, PartialEq, Eq, Structural)]
pub struct DatabaseProperties {
    /// The number of collections that the database holds.
    pub num_collections: u64,
}

/// What the catalog derives of a collection when it is described: nothing so far.
#[derive(Clone, Copy, Debug, PartialEq, Eq, Structural)]
pub struct CollectionProperties {
}

/// The description of a database.
#[derive(Debug, PartialEq, Eq)]
pub struct DatabaseDesc {
    pub id: u64,
    pub name: String,
    pub options: Option<DatabaseOptions>,
    pub properties: Option<DatabaseProperties>,
}

/// The description of a collection.
#[derive(Debug, PartialEq, Eq)]
pub struct CollectionDesc {
    pub id: u64,
    pub name: String,
    pub options: Option<CollectionOptions>,
    pub properties: Option<CollectionProperties>,
}

/// The description of a database as a mathematical value.
pub struct DatabaseDescModel {
    pub id: u64,
    pub name: Seq<char>,
    pub options: Option<Seq<u8>>,
    pub properties: Option<DatabaseProperties>,
}

/// The description of a collection as a mathematical value.
pub struct CollectionDescModel {
    pub id: u64,
    pub name: Seq<char>,
    pub options: Option<Seq<u8>>,
    pub properties: Option<CollectionProperties>,
}

impl View for DatabaseOptions {
    type V = Seq<u8>;

    open spec fn view(&self) -> Seq<u8> {
        self.payload@
    }
}

impl View for CollectionOptions {
    type V = Seq<u8>;

    open spec fn view(&self) -> Seq<u8> {
        self.payload@
    }
}

impl Clone for DatabaseOptions {
    fn clone(&self) -> (copy: Self)
        ensures
            copy@ == self@,
    {
        DatabaseOptions { payload: self.payload.clone() }
    }
}

impl Clone for CollectionOptions {
    fn clone(&self) -> (copy: Self)
        ensures
            copy@ == self@,
    {
        CollectionOptions { payload: self.payload.clone() }
    }
}

impl Default for DatabaseOptions {
    fn default() -> (options: Self)
        ensures
            options@ == Seq::<u8>::empty(),
    {
        DatabaseOptions { payload: Vec::new() }
    }
}

impl Default for CollectionOptions {
    fn default() -> (options: Self)
        ensures
            options@ == Seq::<u8>::empty(),
    {
        CollectionOptions { payload: Vec::new() }
    }
}

/// The options that a request carries, as a mathematical value.
pub open spec fn database_options_view(options: Option<DatabaseOptions>) -> Option<Seq<u8>> {
    match options {
        Some(o) => Some(o@),
        None => None,
    }
}

/// The options that a request carries, as a mathematical value.
pub open spec fn collection_options_view(options: Option<CollectionOptions>) -> Option<Seq<u8>> {
    match options {
        Some(o) => Some(o@),
        None => None,
    }
}

/// The options that a creation uses: those given, or the empty ones.
pub open spec fn options_or_empty(options: Option<Seq<u8>>) -> Seq<u8> {
    match options {
        Some(o) => o,
        None => Seq::empty(),
    }
}

impl View for DatabaseDesc {
    type V = DatabaseDescModel;

    open spec fn view(&self) -> DatabaseDescModel {
        DatabaseDescModel {
            id: self.id,
            name: self.name@,
            options: database_options_view(self.options),
            properties: self.properties,
        }
    }
}

impl View for CollectionDesc {
    type V = CollectionDescModel;

    open spec fn view(&self) -> CollectionDescModel {
        CollectionDescModel {
            id: self.id,
            name: self.name@,
            options: collection_options_view(self.options),
            properties: self.properties,
        }
    }
}

/// The descriptions in a list, as mathematical values.
pub open spec fn database_descs_view(descs: Seq<DatabaseDesc>) -> Seq<DatabaseDescModel> {
    descs.map_values(|d: DatabaseDesc| d@)
}

/// The descriptions in a list, as mathematical values.
pub open spec fn collection_descs_view(descs: Seq<CollectionDesc>) -> Seq<CollectionDescModel> {
    descs.map_values(|d: CollectionDesc| d@)
}

/// What a request asks for.
pub enum Command {
    ListDatabases { page_size: u64, page_token: Seq<char> },
    CreateDatabase { name: Seq<char>, options: Option<Seq<u8>> },
    DeleteDatabase { name: Seq<char> },
    DescribeDatabase { name: Seq<char> },
    ListCollections { dbname: Seq<char>, page_size: u64, page_token: Seq<char> },
    CreateCollection { dbname: Seq<char>, name: Seq<char>, options: Option<Seq<u8>> },
    DeleteCollection { dbname: Seq<char>, name: Seq<char> },
    DescribeCollection { dbname: Seq<char>, name: Seq<char> },
}

/// What a response says.
#[allow(inconsistent_fields)]
pub enum Reply {
    ListDatabases { descs: Seq<DatabaseDescModel>, next_page_token: Seq<char> },
    CreateDatabase { desc: Option<DatabaseDescModel> },
    DeleteDatabase,
    DescribeDatabase { desc: Option<DatabaseDescModel> },
    ListCollections { descs: Seq<CollectionDescModel>, next_page_token: Seq<char> },
    CreateCollection { desc: Option<CollectionDescModel> },
    DeleteCollection,
    DescribeCollection { desc: Option<CollectionDescModel> },
}

/// Asks for one page of the databases: up to `page_size` of them, from the
/// first whose name is not before `page_token`.
#[derive(Debug, PartialEq, Eq)]
pub struct ListDatabasesRequest {
    pub page_size: u64,
    pub page_token: String,
}

/// One page of databases. An empty `next_page_token` says that no database
/// follows the page.
#[derive(Debug, PartialEq, Eq)]
pub struct ListDatabasesResponse {
    pub descs: Vec<DatabaseDesc>,
    pub next_page_token: String,
}

/// Asks for a database of this name to be created, with these options or,
/// where none are given, with the empty ones.
#[derive(Debug, PartialEq, Eq)]
pub struct CreateDatabaseRequest {
    pub name: String,
    pub options: Option<DatabaseOptions>,
}

/// Describes the database that was created.
#[derive(Debug, PartialEq, Eq)]
pub struct CreateDatabaseResponse {
    pub desc: Option<DatabaseDesc>,
}

/// Asks for the database of this name to be deleted.
#[derive(Debug, PartialEq, Eq)]
pub struct DeleteDatabaseRequest {
    pub name: String,
}

/// Says that no database has the name any more.
#[derive(Debug, PartialEq, Eq)]
pub struct DeleteDatabaseResponse {
}

/// Asks for the description of the database of this name.
#[derive(Debug, PartialEq, Eq)]
pub struct DescribeDatabaseRequest {
    pub name: String,
}

/// Describes the database that was asked for.
#[derive(Debug, PartialEq, Eq)]
pub struct DescribeDatabaseResponse {
    pub desc: Option<DatabaseDesc>,
}

/// Asks for one page of the collections of the database `dbname`.
#[derive(Debug, PartialEq, Eq)]
pub struct ListCollectionsRequest {
    pub dbname: String,
    pub page_size: u64,
    pub page_token: String,
}

/// One page of collections. An empty `next_page_token` says that no
/// collection follows the page.
#[derive(Debug, PartialEq, Eq)]
pub struct ListCollectionsResponse {
    pub descs: Vec<CollectionDesc>,
    pub next_page_token: String,
}

/// Asks for a collection of this name to be created in the database
/// `dbname`, with these options or, where none are given, with the empty ones.
#[derive(Debug, PartialEq, Eq)]
pub struct CreateCollectionRequest {
    pub dbname: String,
    pub name: String,
    pub options: Option<CollectionOptions>,
}

/// Describes the collection that was created.
#[derive(Debug, PartialEq, Eq)]
pub struct CreateCollectionResponse {
    pub desc: Option<CollectionDesc>,
}

/// Asks for the collection of this name in the database `dbname` to be deleted.
#[derive(Debug, PartialEq, Eq)]
pub struct DeleteCollectionRequest {
    pub dbname: String,
    pub name: String,
}

/// Says that no collection of the database has the name any more.
#[derive(Debug, PartialEq, Eq)]
pub struct DeleteCollectionResponse {
}

/// Asks for the description of the collection of this name in the database `dbname`.
#[derive(Debug, PartialEq, Eq)]
pub struct DescribeCollectionRequest {
    pub dbname: String,
    pub name: String,
}

/// Describes the collection that was asked for.
#[derive(Debug, PartialEq, Eq)]
pub struct DescribeCollectionResponse {
    pub desc: Option<CollectionDesc>,
}

/// The description that a response carries, as a mathematical value.
pub open spec fn database_desc_view(desc: Option<DatabaseDesc>) -> Option<DatabaseDescModel> {
    match desc {
        Some(d) => Some(d@),
        None => None,
    }
}

/// The description that a response carries, as a mathematical value.
pub open spec fn collection_desc_view(desc: Option<CollectionDesc>) -> Option<CollectionDescModel> {
    match desc {
        Some(d) => Some(d@),
        None => None,
    }
}

impl View for ListDatabasesRequest {
    type V = Command;

    open spec fn view(&self) -> Command {
        Command::ListDatabases { page_size: self.page_size, page_token: self.page_token@ }
    }
}

impl View for CreateDatabaseRequest {
    type V = Command;

    open spec fn view(&self) -> Command {
        Command::CreateDatabase {
            name: self.name@,
            options: database_options_view(self.options),
        }
    }
}

impl View for DeleteDatabaseRequest {
    type V = Command;

    open spec fn view(&self) -> Command {
        Command::DeleteDatabase { name: self.name@ }
    }
}

impl View for DescribeDatabaseRequest {
    type V = Command;

    open spec fn view(&self) -> Command {
        Command::DescribeDatabase { name: self.name@ }
    }
}

impl View for ListCollectionsRequest {
    type V = Command;

    open spec fn view(&self) -> Command {
        Command::ListCollections {
            dbname: self.dbname@,
            page_size: self.page_size,
            page_token: self.page_token@,
        }
    }
}

impl View for CreateCollectionRequest {
    type V = Command;

    open spec fn view(&self) -> Command {
        Command::CreateCollection {
            dbname: self.dbname@,
            name: self.name@,
            options: collection_options_view(self.options),
        }
    }
}

impl View for DeleteCollectionRequest {
    type V = Command;

    open spec fn view(&self) -> Command {
        Command::DeleteCollection { dbname: self.dbname@, name: self.name@ }
    }
}

impl View for DescribeCollectionRequest {
    type V = Command;

    open spec fn view(&self) -> Command {
        Command::DescribeCollection { dbname: self.dbname@, name: self.name@ }
    }
}

impl View for ListDatabasesResponse {
    type V = Reply;

    open spec fn view(&self) -> Reply {
        Reply::ListDatabases {
            descs: database_descs_view(self.descs@),
            next_page_token: self.next_page_token@,
        }
    }
}

impl View for CreateDatabaseResponse {
    type V = Reply;

    open spec fn view(&self) -> Reply {
        Reply::CreateDatabase { desc: database_desc_view(self.desc) }
    }
}

impl View for DeleteDatabaseResponse {
    type V = Reply;

    open spec fn view(&self) -> Reply {
        Reply::DeleteDatabase
    }
}

impl View for DescribeDatabaseResponse {
    type V = Reply;

    open spec fn view(&self) -> Reply {
        Reply::DescribeDatabase { desc: database_desc_view(self.desc) }
    }
}

impl View for ListCollectionsResponse {
    type V = Reply;

    open spec fn view(&self) -> Reply {
        Reply::ListCollections {
            descs: collection_descs_view(self.descs@),
            next_page_token: self.next_page_token@,
        }
    }
}

impl View for CreateCollectionResponse {
    type V = Reply;

    open spec fn view(&self) -> Reply {
        Reply::CreateCollection { desc: collection_desc_view(self.desc) }
    }
}

impl View for DeleteCollectionResponse {
    type V = Reply;

    open spec fn view(&self) -> Reply {
        Reply::DeleteCollection
    }
}

impl View for DescribeCollectionResponse {
    type V = Reply;

    open spec fn view(&self) -> Reply {
        Reply::DescribeCollection { desc: collection_desc_view(self.desc) }
    }
}

/// The envelope of one request. One without a request in it is refused.
#[derive(Debug, PartialEq, Eq)]
pub struct UniverseRequest {
    pub request: Option<universe_request::Request>,
}

/// The envelope of one response.
#[derive(Debug, PartialEq, Eq)]
pub struct UniverseResponse {
    pub response: Option<universe_response::Response>,
}

/// Requests to be served one after the other, in this order.
#[derive(Debug, PartialEq, Eq)]
pub struct BatchRequest {
    pub universes: Vec<UniverseRequest>,
}

/// The responses to a batch, one for each request, in the order of the requests.
#[derive(Debug, PartialEq, Eq)]
pub struct BatchResponse {
    pub universes: Vec<UniverseResponse>,
}

impl View for UniverseRequest {
    type V = Option<Command>;

    open spec fn view(&self) -> Option<Command> {
        match self.request {
            Some(r) => Some(r@),
            None => None,
        }
    }
}

impl View for UniverseResponse {
    type V = Option<Reply>;

    open spec fn view(&self) -> Option<Reply> {
        match self.response {
            Some(r) => Some(r@),
            None => None,
        }
    }
}

impl View for BatchRequest {
    type V = Seq<Option<Command>>;

    open spec fn view(&self) -> Seq<Option<Command>> {
        self.universes@.map_values(|r: UniverseRequest| r@)
    }
}

impl View for BatchResponse {
    type V = Seq<Option<Reply>>;

    open spec fn view(&self) -> Seq<Option<Reply>> {
        self.universes@.map_values(|r: UniverseResponse| r@)
    }
}

impl Default for BatchResponse {
    fn default() -> (batch: Self)
        ensures
            batch.universes@ == Seq::<UniverseResponse>::empty(),
    {
        BatchResponse { universes: Vec::new() }
    }
}

} // verus!
