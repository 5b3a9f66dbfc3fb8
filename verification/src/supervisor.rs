//! The catalog service: it reads each request as one operation on the
//! catalog, and serves batches of requests in order.
//!
//! `apply` says, for every catalog and every command, what the catalog is
//! afterwards and what is answered; `run` says the same of a batch. The
//! service is held to them.
use vstd::prelude::*;
use vstd::string::*;
use crate::apis::universe_request::Request;
use crate::apis::universe_response::Response;
use crate::apis::{
    collection_descs_view, database_descs_view, options_or_empty, BatchRequest, BatchResponse,
    CollectionDesc, CollectionDescModel, CollectionOptions, Command, CreateCollectionRequest,
    CreateCollectionResponse, CreateDatabaseRequest, CreateDatabaseResponse, DatabaseDesc,
    DatabaseDescModel, DatabaseOptions, DeleteCollectionRequest, DeleteCollectionResponse,
    DeleteDatabaseRequest, DeleteDatabaseResponse, DescribeCollectionRequest,
    DescribeCollectionResponse, DescribeDatabaseRequest, DescribeDatabaseResponse,
    ListCollectionsRequest, ListCollectionsResponse, ListDatabasesRequest, ListDatabasesResponse,
    Reply, UniverseRequest, UniverseResponse,
};
use crate::error::{outcome, Error, ErrorModel};
use crate::namespace::NamespaceModel;
use crate::universe::{views, CollectionModel, DatabaseModel, Universe, UniverseModel};

verus! {

/// The descriptions of the databases of a page.
pub open spec fn database_descs(databases: Seq<DatabaseModel>) -> Seq<DatabaseDescModel> {
    databases.map_values(|d: DatabaseModel| d.desc())
}

/// The descriptions of the collections of a page.
pub open spec fn collection_descs(collections: Seq<CollectionModel>) -> Seq<CollectionDescModel> {
    collections.map_values(|c: CollectionModel| c.desc())
}

/// The token that a list response carries: the name that the next page
/// starts at, or the empty text where nothing follows.
pub open spec fn token_text(next: Option<Seq<char>>) -> Seq<char> {
    match next {
        Some(t) => t,
        None => Seq::empty(),
    }
}

/// What a command does to the catalog `u`, and what is answered.
#[verifier::opaque]
pub open spec fn apply(u: UniverseModel, command: Command) -> (
    UniverseModel,
    Result<Reply, ErrorModel>,
) {
    match command {
        Command::ListDatabases { page_size, page_token } => {
            let page = u.list_databases(page_size as nat, Some(page_token));
            (
                u,
                Ok(
                    Reply::ListDatabases {
                        descs: database_descs(page.0),
                        next_page_token: token_text(page.1),
                    },
                ),
            )
        },
        Command::CreateDatabase { name, options } => {
            let created = u.create_database(name, options_or_empty(options));
            (
                created.0,
                match created.1 {
                    Ok(database) => Ok(Reply::CreateDatabase { desc: Some(database.desc()) }),
                    Err(e) => Err(e),
                },
            )
        },
        Command::DeleteDatabase { name } => (u.delete_database(name), Ok(Reply::DeleteDatabase)),
        Command::DescribeDatabase { name } => (
            u,
            match u.database(name) {
                Ok(database) => Ok(Reply::DescribeDatabase { desc: Some(database.desc()) }),
                Err(e) => Err(e),
            },
        ),
        Command::ListCollections { dbname, page_size, page_token } => (
            u,
            match u.database(dbname) {
                Ok(database) => {
                    let page = database.list_collections(page_size as nat, Some(page_token));
                    Ok(
                        Reply::ListCollections {
                            descs: collection_descs(page.0),
                            next_page_token: token_text(page.1),
                        },
                    )
                },
                Err(e) => Err(e),
            },
        ),
        Command::CreateCollection { dbname, name, options } => match u.database(dbname) {
            Ok(database) => {
                let created = database.create_collection(name, options_or_empty(options));
                (
                    u.with_database(dbname, created.0),
                    match created.1 {
                        Ok(collection) => Ok(
                            Reply::CreateCollection { desc: Some(collection.desc()) },
                        ),
                        Err(e) => Err(e),
                    },
                )
            },
            Err(e) => (u, Err(e)),
        },
        Command::DeleteCollection { dbname, name } => match u.database(dbname) {
            Ok(database) => (
                u.with_database(dbname, database.delete_collection(name)),
                Ok(Reply::DeleteCollection),
            ),
            Err(e) => (u, Err(e)),
        },
        Command::DescribeCollection { dbname, name } => (
            u,
            match u.database(dbname) {
                Ok(database) => match database.collection(name) {
                    Ok(collection) => Ok(
                        Reply::DescribeCollection { desc: Some(collection.desc()) },
                    ),
                    Err(e) => Err(e),
                },
                Err(e) => Err(e),
            },
        ),
    }
}

/// What one envelope does to the catalog, and what is answered: an
/// envelope without a request is refused and changes nothing.
pub open spec fn step(u: UniverseModel, request: Option<Command>) -> (
    UniverseModel,
    Result<Option<Reply>, ErrorModel>,
) {
    match request {
        Some(command) => (
            apply(u, command).0,
            match apply(u, command).1 {
                Ok(reply) => Ok(Some(reply)),
                Err(e) => Err(e),
            },
        ),
        None => (u, Err(ErrorModel::InvalidArgument("missing request"@))),
    }
}

/// What the envelopes of a batch from position `i` on do to the catalog,
/// one after the other, and what is answered: the responses in order, or
/// the first error, after which nothing more is served. What was served
/// before the error stays done.
pub open spec fn run_from(u: UniverseModel, batch: Seq<Option<Command>>, i: int) -> (
    UniverseModel,
    Result<Seq<Option<Reply>>, ErrorModel>,
)
    decreases batch.len() - i,
{
    if i < 0 || i >= batch.len() {
        (u, Ok(Seq::empty()))
    } else {
        match step(u, batch[i]).1 {
            Err(e) => (step(u, batch[i]).0, Err(e)),
            Ok(reply) => {
                let rest = run_from(step(u, batch[i]).0, batch, i + 1);
                (
                    rest.0,
                    match rest.1 {
                        Ok(replies) => Ok(seq![reply] + replies),
                        Err(e) => Err(e),
                    },
                )
            },
        }
    }
}

/// What a batch does to the catalog, and what is answered.
pub open spec fn run(u: UniverseModel, batch: Seq<Option<Command>>) -> (
    UniverseModel,
    Result<Seq<Option<Reply>>, ErrorModel>,
) {
    run_from(u, batch, 0)
}

/// The outcome of what is left of a batch, behind the responses given so far.
pub open spec fn behind(
    done: Seq<Option<Reply>>,
    rest: (UniverseModel, Result<Seq<Option<Reply>>, ErrorModel>),
) -> (UniverseModel, Result<Seq<Option<Reply>>, ErrorModel>) {
    (
        rest.0,
        match rest.1 {
            Ok(replies) => Ok(done + replies),
            Err(e) => Err(e),
        },
    )
}

/// Every command leaves a well-formed catalog well formed.
pub proof fn lemma_apply_wf(u: UniverseModel, command: Command)
    requires
        u.wf(),
    ensures
        apply(u, command).0.wf(),
{
    reveal(apply);
    match command {
        Command::CreateDatabase { name, options } => {
            u.lemma_create_database(name, options_or_empty(options));
        },
        Command::DeleteDatabase { name } => {
            u.lemma_delete_database(name);
        },
        Command::CreateCollection { dbname, name, options } => {
            if u.databases.has(dbname) {
                u.lemma_database(dbname);
                let database = u.databases.at(dbname);
                database.lemma_create_collection(name, options_or_empty(options));
                u.lemma_with_database(
                    dbname,
                    database.create_collection(name, options_or_empty(options)).0,
                );
            }
        },
        Command::DeleteCollection { dbname, name } => {
            if u.databases.has(dbname) {
                u.lemma_database(dbname);
                let database = u.databases.at(dbname);
                database.lemma_delete_collection(name);
                u.lemma_with_database(dbname, database.delete_collection(name));
            }
        },
        _ => {},
    }
}

/// Every envelope leaves a well-formed catalog well formed.
pub proof fn lemma_step_wf(u: UniverseModel, request: Option<Command>)
    requires
        u.wf(),
    ensures
        step(u, request).0.wf(),
{
    if let Some(command) = request {
        lemma_apply_wf(u, command);
    }
}

/// A page of `count` children is the page of any other count that also
/// reaches the end of the node, and nothing follows either.
proof fn lemma_page_to_the_end<T>(node: NamespaceModel<T>, a: nat, b: nat, token: Seq<char>)
    requires
        a >= node.len(),
        b >= node.len(),
    ensures
        node.page(a, token) == node.page(b, token),
        node.next_token(a, token) == node.next_token(b, token),
{
    crate::namespace::lemma_rank_bounds(node.entries, token);
}

/// The number of children that a page may hold, for the machine: as many
/// as `page_size` says, or as many as the machine can count.
fn page_len(page_size: u64) -> (count: usize)
    ensures
        count as nat == page_size as nat || (count == usize::MAX && page_size > usize::MAX),
{
    if page_size > usize::MAX as u64 {
        usize::MAX
    } else {
        page_size as usize
    }
}

/// The catalog service.
pub struct Supervisor {
    uv: Universe,
}

impl View for Supervisor {
    type V = UniverseModel;

    closed spec fn view(&self) -> UniverseModel {
        self.uv@
    }
}

impl Supervisor {
    /// A service over a catalog without databases.
    pub fn new() -> (supervisor: Self)
        ensures
            supervisor@ == UniverseModel::empty(),
            supervisor@.wf(),
    {
        Supervisor { uv: Universe::new() }
    }

    /// Serves the requests of a batch in order, one at a time. The first
    /// request that fails ends the batch: its error is returned, no
    /// response is, and nothing after it is served. What the requests
    /// before it did to the catalog stays done.
    pub fn batch(&mut self, batch_req: BatchRequest) -> (res: Result<BatchResponse, Error>)
        requires
            old(self)@.wf(),
        ensures
            final(self)@ == run(old(self)@, batch_req@).0,
            outcome(res) == run(old(self)@, batch_req@).1,
            final(self)@.wf(),
    {
        let mut batch_res = BatchResponse::default();
        let ghost batch = batch_req@;
        let ghost start = self@;
        let requests = batch_req.universes;
        assert(batch =~= requests@.map_values(|r: UniverseRequest| r@));
        assert(batch_res@ =~= Seq::<Option<Reply>>::empty());
        let ghost all = requests@;
        for req in it: requests.into_iter()
            invariant
                self@.wf(),
                start == old(self)@,
                batch == batch_req@,
                it.seq() == all,
                batch == all.map_values(|r: UniverseRequest| r@),
                run(start, batch) == behind(batch_res@, run_from(self@, batch, it.index() as int)),
        {
            let ghost i = it.index() as int;
            assert(0 <= i < batch.len());
            assert(batch[i] == req@);
            let ghost done = batch_res@;
            let ghost before = self@;
            match self.universe(req) {
                Ok(res) => {
                    let ghost reply = res@;
                    batch_res.universes.push(res);
                    proof {
                        assert(batch_res@ =~= done.push(reply));
                        let rest = run_from(self@, batch, i + 1);
                        if let Ok(replies) = rest.1 {
                            assert(done + (seq![reply] + replies) =~= done.push(reply) + replies);
                        }
                    }
                },
                Err(e) => {
                    assert(run_from(before, batch, i) == (
                        self@,
                        Err::<Seq<Option<Reply>>, ErrorModel>(e@),
                    ));
                    return Err(e);
                },
            }
        }
        proof {
            assert(batch_res@ + Seq::<Option<Reply>>::empty() =~= batch_res@);
        }
        Ok(batch_res)
    }

    /// Serves one envelope: the operation that its request names, or the
    /// error that it holds no request.
    pub fn universe(&mut self, req: UniverseRequest) -> (res: Result<UniverseResponse, Error>)
        requires
            old(self)@.wf(),
        ensures
            final(self)@ == step(old(self)@, req@).0,
            outcome(res) == step(old(self)@, req@).1,
            final(self)@.wf(),
    {
        proof {
            reveal(apply);
            lemma_step_wf(self@, req@);
        }
        let req = match req.request {
            Some(req) => req,
            None => {
                return Err(Error::invalid_argument("missing request"));
            },
        };
        let res = match req {
            Request::ListDatabases(req) => {
                match self.list_databases(req) {
                    Ok(res) => Response::ListDatabases(res),
                    Err(e) => {
                        return Err(e);
                    },
                }
            },
            Request::CreateDatabase(req) => {
                match self.create_database(req) {
                    Ok(res) => Response::CreateDatabase(res),
                    Err(e) => {
                        return Err(e);
                    },
                }
            },
            Request::DeleteDatabase(req) => {
                match self.delete_database(req) {
                    Ok(res) => Response::DeleteDatabase(res),
                    Err(e) => {
                        return Err(e);
                    },
                }
            },
            Request::DescribeDatabase(req) => {
                match self.describe_database(req) {
                    Ok(res) => Response::DescribeDatabase(res),
                    Err(e) => {
                        return Err(e);
                    },
                }
            },
            Request::ListCollections(req) => {
                match self.list_collections(req) {
                    Ok(res) => Response::ListCollections(res),
                    Err(e) => {
                        return Err(e);
                    },
                }
            },
            Request::CreateCollection(req) => {
                match self.create_collection(req) {
                    Ok(res) => Response::CreateCollection(res),
                    Err(e) => {
                        return Err(e);
                    },
                }
            },
            Request::DeleteCollection(req) => {
                match self.delete_collection(req) {
                    Ok(res) => Response::DeleteCollection(res),
                    Err(e) => {
                        return Err(e);
                    },
                }
            },
            Request::DescribeCollection(req) => {
                match self.describe_collection(req) {
                    Ok(res) => Response::DescribeCollection(res),
                    Err(e) => {
                        return Err(e);
                    },
                }
            },
        };
        Ok(UniverseResponse { response: Some(res) })
    }

    /// Lists one page of the databases, with their descriptions.
    pub fn list_databases(&self, req: ListDatabasesRequest) -> (res: Result<
        ListDatabasesResponse,
        Error,
    >)
        requires
            self@.wf(),
        ensures
            outcome(res) == apply(self@, req@).1,
    {
        proof {
            reveal(apply);
        }
        let count = page_len(req.page_size);
        let ghost token = req.page_token@;
        proof {
            self.uv.lemma_len_fits();
            if count as nat != req.page_size as nat {
                lemma_page_to_the_end(
                    self@.databases,
                    count as nat,
                    req.page_size as nat,
                    token,
                );
            }
        }
        let (dbs, next_token) = match self.uv.list_databases(count, Some(req.page_token)) {
            Ok(page) => page,
            Err(e) => {
                return Err(e);
            },
        };
        let ghost page = self@.list_databases(req.page_size as nat, Some(token));
        let mut descs: Vec<DatabaseDesc> = Vec::new();
        let mut i: usize = 0;
        while i < dbs.len()
            invariant
                i <= dbs@.len(),
                descs@.len() == i,
                views(dbs@) == page.0,
                forall|j: int| 0 <= j < i ==> (#[trigger] descs@[j])@ == page.0[j].desc(),
            decreases dbs@.len() - i,
        {
            assert(views(dbs@)[i as int] == dbs@[i as int]@);
            descs.push(dbs[i].desc());
            i = i + 1;
        }
        assert(database_descs_view(descs@) =~= database_descs(page.0));
        let next_page_token = match next_token {
            Some(t) => t,
            None => String::new(),
        };
        Ok(ListDatabasesResponse { descs, next_page_token })
    }

    /// Creates a database and describes it.
    pub fn create_database(&mut self, req: CreateDatabaseRequest) -> (res: Result<
        CreateDatabaseResponse,
        Error,
    >)
        requires
            old(self)@.wf(),
        ensures
            final(self)@ == apply(old(self)@, req@).0,
            outcome(res) == apply(old(self)@, req@).1,
            final(self)@.wf(),
    {
        proof {
            reveal(apply);
        }
        let options = match req.options {
            Some(options) => options,
            None => DatabaseOptions::default(),
        };
        match self.uv.create_database(req.name.as_str(), options) {
            Ok(db) => {
                let desc = db.desc();
                Ok(CreateDatabaseResponse { desc: Some(desc) })
            },
            Err(e) => Err(e),
        }
    }

    /// Deletes a database. This succeeds whether or not there was one.
    pub fn delete_database(&mut self, req: DeleteDatabaseRequest) -> (res: Result<
        DeleteDatabaseResponse,
        Error,
    >)
        requires
            old(self)@.wf(),
        ensures
            final(self)@ == apply(old(self)@, req@).0,
            outcome(res) == apply(old(self)@, req@).1,
            final(self)@.wf(),
    {
        proof {
            reveal(apply);
        }
        match self.uv.delete_database(req.name.as_str()) {
            Ok(()) => Ok(DeleteDatabaseResponse {  }),
            Err(e) => Err(e),
        }
    }

    /// Describes a database.
    pub fn describe_database(&self, req: DescribeDatabaseRequest) -> (res: Result<
        DescribeDatabaseResponse,
        Error,
    >)
        requires
            self@.wf(),
        ensures
            outcome(res) == apply(self@, req@).1,
    {
        proof {
            reveal(apply);
        }
        match self.uv.database(req.name.as_str()) {
            Ok(db) => {
                let desc = db.desc();
                Ok(DescribeDatabaseResponse { desc: Some(desc) })
            },
            Err(e) => Err(e),
        }
    }

    /// Lists one page of the collections of a database, with their
    /// descriptions.
    pub fn list_collections(&self, req: ListCollectionsRequest) -> (res: Result<
        ListCollectionsResponse,
        Error,
    >)
        requires
            self@.wf(),
        ensures
            outcome(res) == apply(self@, req@).1,
    {
        proof {
            reveal(apply);
        }
        let db = match self.uv.database(req.dbname.as_str()) {
            Ok(db) => db,
            Err(e) => {
                return Err(e);
            },
        };
        let count = page_len(req.page_size);
        let ghost token = req.page_token@;
        proof {
            db.lemma_len_fits();
            if count as nat != req.page_size as nat {
                lemma_page_to_the_end(
                    db@.collections,
                    count as nat,
                    req.page_size as nat,
                    token,
                );
            }
        }
        let (cos, next_token) = match db.list_collections(count, Some(req.page_token)) {
            Ok(page) => page,
            Err(e) => {
                return Err(e);
            },
        };
        let ghost page = db@.list_collections(req.page_size as nat, Some(token));
        let mut descs: Vec<CollectionDesc> = Vec::new();
        let mut i: usize = 0;
        while i < cos.len()
            invariant
                i <= cos@.len(),
                descs@.len() == i,
                views(cos@) == page.0,
                forall|j: int| 0 <= j < i ==> (#[trigger] descs@[j])@ == page.0[j].desc(),
            decreases cos@.len() - i,
        {
            assert(views(cos@)[i as int] == cos@[i as int]@);
            descs.push(cos[i].desc());
            i = i + 1;
        }
        assert(collection_descs_view(descs@) =~= collection_descs(page.0));
        let next_page_token = match next_token {
            Some(t) => t,
            None => String::new(),
        };
        Ok(ListCollectionsResponse { descs, next_page_token })
    }

    /// Creates a collection in a database and describes it.
    pub fn create_collection(&mut self, req: CreateCollectionRequest) -> (res: Result<
        CreateCollectionResponse,
        Error,
    >)
        requires
            old(self)@.wf(),
        ensures
            final(self)@ == apply(old(self)@, req@).0,
            outcome(res) == apply(old(self)@, req@).1,
            final(self)@.wf(),
    {
        proof {
            reveal(apply);
        }
        proof {
            lemma_apply_wf(self@, req@);
        }
        let db = match self.uv.database_mut(req.dbname.as_str()) {
            Ok(db) => db,
            Err(e) => {
                return Err(e);
            },
        };
        let options = match req.options {
            Some(options) => options,
            None => CollectionOptions::default(),
        };
        match db.create_collection(req.name.as_str(), options) {
            Ok(co) => {
                let desc = co.desc();
                Ok(CreateCollectionResponse { desc: Some(desc) })
            },
            Err(e) => Err(e),
        }
    }

    /// Deletes a collection of a database. This succeeds whether or not
    /// the database had one of that name.
    pub fn delete_collection(&mut self, req: DeleteCollectionRequest) -> (res: Result<
        DeleteCollectionResponse,
        Error,
    >)
        requires
            old(self)@.wf(),
        ensures
            final(self)@ == apply(old(self)@, req@).0,
            outcome(res) == apply(old(self)@, req@).1,
            final(self)@.wf(),
    {
        proof {
            reveal(apply);
        }
        proof {
            lemma_apply_wf(self@, req@);
        }
        let db = match self.uv.database_mut(req.dbname.as_str()) {
            Ok(db) => db,
            Err(e) => {
                return Err(e);
            },
        };
        match db.delete_collection(req.name.as_str()) {
            Ok(()) => Ok(DeleteCollectionResponse {  }),
            Err(e) => Err(e),
        }
    }

    /// Describes a collection of a database.
    pub fn describe_collection(&self, req: DescribeCollectionRequest) -> (res: Result<
        DescribeCollectionResponse,
        Error,
    >)
        requires
            self@.wf(),
        ensures
            outcome(res) == apply(self@, req@).1,
    {
        proof {
            reveal(apply);
        }
        let db = match self.uv.database(req.dbname.as_str()) {
            Ok(db) => db,
            Err(e) => {
                return Err(e);
            },
        };
        match db.collection(req.name.as_str()) {
            Ok(co) => {
                let desc = co.desc();
                Ok(DescribeCollectionResponse { desc: Some(desc) })
            },
            Err(e) => Err(e),
        }
    }
}

impl Default for Supervisor {
    fn default() -> (supervisor: Self)
        ensures
            supervisor@ == UniverseModel::empty(),
            supervisor@.wf(),
    {
        Supervisor::new()
    }
}

} // verus!
