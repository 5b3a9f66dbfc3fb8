//! What holds of the catalog and its service, whatever the requests.
//!
//! Each law is a proof over the mathematical catalog, `UniverseModel`, and
//! the functions `apply`, `step` and `run`, to which the executable service
//! is held.
use vstd::prelude::*;
use crate::apis::{options_or_empty, Command, DatabaseDescModel, Reply};
use crate::error::ErrorModel;
use crate::names::lemma_name_asymmetric;
use crate::namespace::{ascending, id_after, lemma_rank_bounds, NamespaceModel};
use crate::supervisor::{apply, behind, database_descs, lemma_step_wf, run, run_from, step};
use crate::universe::{children, UniverseModel};

verus! {

/// The catalog after the first `k` envelopes of a batch were served.
pub open spec fn reached(u: UniverseModel, batch: Seq<Option<Command>>, k: int) -> UniverseModel
    decreases k,
{
    if k <= 0 {
        u
    } else {
        step(reached(u, batch, k - 1), batch[k - 1]).0
    }
}

/// Whether each of the first `k` envelopes of a batch is served without error.
pub open spec fn served(u: UniverseModel, batch: Seq<Option<Command>>, k: int) -> bool {
    forall|i: int| 0 <= i < k ==> (#[trigger] step(reached(u, batch, i), batch[i])).1 is Ok
}

/// The responses to the first `k` envelopes of a batch.
pub open spec fn replies(u: UniverseModel, batch: Seq<Option<Command>>, k: int) -> Seq<
    Option<Reply>,
> {
    Seq::new(k as nat, |i: int| step(reached(u, batch, i), batch[i]).1->Ok_0)
}

/// In a well-formed node no two children share a name.
pub proof fn law_names_are_unique<T>(node: NamespaceModel<T>, i: int, j: int)
    requires
        node.wf(),
        0 <= i < node.entries.len(),
        0 <= j < node.entries.len(),
        i != j,
    ensures
        node.entries[i].0 != node.entries[j].0,
{
    if i < j {
        assert(crate::names::name_before(node.entries[i].0, node.entries[j].0));
        lemma_name_asymmetric(node.entries[i].0, node.entries[j].0);
    } else {
        assert(crate::names::name_before(node.entries[j].0, node.entries[i].0));
        lemma_name_asymmetric(node.entries[j].0, node.entries[i].0);
    }
}

/// Whatever was served, the catalog is well formed: the names of the
/// databases are unique, and so are the names of the collections of each.
pub proof fn law_catalog_stays_well_formed(u: UniverseModel, batch: Seq<Option<Command>>, k: int)
    requires
        u.wf(),
        0 <= k <= batch.len(),
    ensures
        reached(u, batch, k).wf(),
    decreases k,
{
    if k > 0 {
        law_catalog_stays_well_formed(u, batch, k - 1);
        lemma_step_wf(reached(u, batch, k - 1), batch[k - 1]);
    }
}

/// Replacing a child by itself changes nothing.
pub proof fn lemma_set_same<T>(node: NamespaceModel<T>, x: Seq<char>)
    requires
        node.has(x),
    ensures
        node.set(x, node.at(x)) == node,
{
    lemma_rank_bounds(node.entries, x);
    assert(node.set(x, node.at(x)).entries =~= node.entries);
}

/// A request that fails changes nothing.
pub proof fn law_failure_changes_nothing(u: UniverseModel, request: Option<Command>)
    requires
        u.wf(),
        step(u, request).1 is Err,
    ensures
        step(u, request).0 == u,
{
    reveal(apply);
    match request {
        Some(Command::CreateCollection { dbname, name, options }) => {
            if u.databases.has(dbname) {
                lemma_set_same(u.databases, dbname);
            }
        },
        _ => {},
    }
}

/// A second creation under a name that is taken fails with the error that
/// the database exists already, and leaves the catalog as it was: the
/// database that has the name stays what it is.
pub proof fn law_second_create_database_fails(
    u: UniverseModel,
    name: Seq<char>,
    first: Option<Seq<u8>>,
    second: Option<Seq<u8>>,
)
    requires
        u.wf(),
    ensures
        ({
            let after = apply(u, Command::CreateDatabase { name, options: first }).0;
            apply(after, Command::CreateDatabase { name, options: second }) == (
                after,
                Err::<Reply, ErrorModel>(ErrorModel::AlreadyExists("database "@ + name)),
            )
        }),
{
    reveal(apply);
    if !u.databases.has(name) {
        u.databases.bump().lemma_put(name, u.new_database(name, options_or_empty(first)));
    }
}

/// A second creation under a name that is taken in a database fails with
/// the error that the collection exists already, and leaves the catalog as
/// it was.
pub proof fn law_second_create_collection_fails(
    u: UniverseModel,
    dbname: Seq<char>,
    name: Seq<char>,
    first: Option<Seq<u8>>,
    second: Option<Seq<u8>>,
)
    requires
        u.wf(),
        u.databases.has(dbname),
    ensures
        ({
            let after = apply(u, Command::CreateCollection { dbname, name, options: first }).0;
            apply(after, Command::CreateCollection { dbname, name, options: second }) == (
                after,
                Err::<Reply, ErrorModel>(ErrorModel::AlreadyExists("collection "@ + name)),
            )
        }),
{
    reveal(apply);
    let database = u.databases.at(dbname);
    let created = database.create_collection(name, options_or_empty(first)).0;
    u.lemma_database(dbname);
    u.databases.lemma_set(dbname, created);
    if !database.collections.has(name) {
        database.collections.bump().lemma_put(
            name,
            database.new_collection(name, options_or_empty(first)),
        );
    }
    let after = u.with_database(dbname, created);
    assert(after.databases.has(dbname));
    assert(after.databases.at(dbname) == created);
    assert(created.collections.has(name));
    lemma_set_same(after.databases, dbname);
}

/// Deleting a database always succeeds, and where no database has the name
/// it changes nothing.
pub proof fn law_delete_database_is_idempotent(u: UniverseModel, name: Seq<char>)
    requires
        u.wf(),
    ensures
        apply(u, Command::DeleteDatabase { name }).1 == Ok::<Reply, ErrorModel>(
            Reply::DeleteDatabase,
        ),
        !u.databases.has(name) ==> apply(u, Command::DeleteDatabase { name }).0 == u,
        ({
            let once = apply(u, Command::DeleteDatabase { name }).0;
            apply(once, Command::DeleteDatabase { name }).0 == once
        }),
{
    reveal(apply);
    u.databases.lemma_cut(name);
}

/// After a database was deleted, describing it fails with the error that
/// it is not found.
pub proof fn law_deleted_database_is_not_found(u: UniverseModel, name: Seq<char>)
    requires
        u.wf(),
    ensures
        ({
            let after = apply(u, Command::DeleteDatabase { name }).0;
            apply(after, Command::DescribeDatabase { name }) == (
                after,
                Err::<Reply, ErrorModel>(ErrorModel::NotFound("database "@ + name)),
            )
        }),
{
    reveal(apply);
    u.databases.lemma_cut(name);
}

/// Deleting a collection of a database that exists always succeeds, and
/// where the database has no collection of the name it changes nothing.
pub proof fn law_delete_collection_is_idempotent(
    u: UniverseModel,
    dbname: Seq<char>,
    name: Seq<char>,
)
    requires
        u.wf(),
        u.databases.has(dbname),
    ensures
        apply(u, Command::DeleteCollection { dbname, name }).1 == Ok::<Reply, ErrorModel>(
            Reply::DeleteCollection,
        ),
        !u.databases.at(dbname).collections.has(name) ==> apply(
            u,
            Command::DeleteCollection { dbname, name },
        ).0 == u,
{
    let database = u.databases.at(dbname);
    let deleted = database.delete_collection(name);
    assert(apply(u, Command::DeleteCollection { dbname, name }) == (
        u.with_database(dbname, deleted),
        Ok::<Reply, ErrorModel>(Reply::DeleteCollection),
    )) by {
        reveal(apply);
    }
    if !database.collections.has(name) {
        assert(deleted == database);
        lemma_set_same(u.databases, dbname);
    }
}

/// After a collection was deleted, describing it fails with the error that
/// it is not found.
pub proof fn law_deleted_collection_is_not_found(
    u: UniverseModel,
    dbname: Seq<char>,
    name: Seq<char>,
)
    requires
        u.wf(),
        u.databases.has(dbname),
    ensures
        ({
            let after = apply(u, Command::DeleteCollection { dbname, name }).0;
            apply(after, Command::DescribeCollection { dbname, name }) == (
                after,
                Err::<Reply, ErrorModel>(ErrorModel::NotFound("collection "@ + name)),
            )
        }),
{
    let database = u.databases.at(dbname);
    let deleted = database.delete_collection(name);
    let after = u.with_database(dbname, deleted);
    assert(apply(u, Command::DeleteCollection { dbname, name }).0 == after) by {
        reveal(apply);
    }
    assert(after.databases.has(dbname) && after.databases.at(dbname) == deleted) by {
        u.databases.lemma_set(dbname, deleted);
    }
    assert(!deleted.collections.has(name)) by {
        u.lemma_database(dbname);
        database.collections.lemma_cut(name);
    }
    assert(apply(after, Command::DescribeCollection { dbname, name }) == (
        after,
        match after.database(dbname) {
            Ok(d) => match d.collection(name) {
                Ok(c) => Ok(Reply::DescribeCollection { desc: Some(c.desc()) }),
                Err(e) => Err(e),
            },
            Err(e) => Err(e),
        },
    )) by {
        reveal(apply);
    }
}

/// What a batch does is what its first `k` envelopes do, where these are
/// served without error, followed by the others.
pub proof fn lemma_run_splits(u: UniverseModel, batch: Seq<Option<Command>>, k: int)
    requires
        0 <= k <= batch.len(),
        served(u, batch, k),
    ensures
        run(u, batch) == behind(
            replies(u, batch, k),
            run_from(reached(u, batch, k), batch, k),
        ),
    decreases k,
{
    if k == 0 {
        let rest = run_from(u, batch, 0);
        if let Ok(r) = rest.1 {
            assert(replies(u, batch, 0) + r =~= r);
        }
    } else {
        lemma_run_splits(u, batch, k - 1);
        let before = reached(u, batch, k - 1);
        let done = replies(u, batch, k - 1);
        assert(step(before, batch[k - 1]).1 is Ok);
        let reply = step(before, batch[k - 1]).1->Ok_0;
        let rest = run_from(reached(u, batch, k), batch, k);
        assert(replies(u, batch, k) =~= done.push(reply));
        if let Ok(r) = rest.1 {
            assert(done + (seq![reply] + r) =~= done.push(reply) + r);
        }
    }
}

/// The first request of a batch that fails ends the batch: the batch
/// returns the error of that request and no response, the catalog is what
/// the requests before it made of it, and nothing after it is served.
pub proof fn law_batch_stops_at_first_failure(
    u: UniverseModel,
    batch: Seq<Option<Command>>,
    k: int,
)
    requires
        u.wf(),
        0 <= k < batch.len(),
        served(u, batch, k),
        step(reached(u, batch, k), batch[k]).1 is Err,
    ensures
        run(u, batch).1 == Err::<Seq<Option<Reply>>, ErrorModel>(
            step(reached(u, batch, k), batch[k]).1->Err_0,
        ),
        run(u, batch).0 == reached(u, batch, k),
{
    lemma_run_splits(u, batch, k);
    law_catalog_stays_well_formed(u, batch, k);
    law_failure_changes_nothing(reached(u, batch, k), batch[k]);
}

/// A batch of which every request is served returns one response for each
/// request, in the order of the requests, and leaves the catalog that the
/// requests made one after the other.
pub proof fn law_batch_answers_in_order(u: UniverseModel, batch: Seq<Option<Command>>)
    requires
        served(u, batch, batch.len() as int),
    ensures
        run(u, batch).1 == Ok::<Seq<Option<Reply>>, ErrorModel>(
            replies(u, batch, batch.len() as int),
        ),
        run(u, batch).0 == reached(u, batch, batch.len() as int),
{
    lemma_run_splits(u, batch, batch.len() as int);
    assert(replies(u, batch, batch.len() as int) + Seq::<Option<Reply>>::empty() =~= replies(
        u,
        batch,
        batch.len() as int,
    ));
}

/// The children that a caller is given who lists from `token` on, page
/// after page of up to `page_size` children, each time starting at the
/// token that came with the page before, until none comes.
pub open spec fn walk<T>(node: NamespaceModel<T>, page_size: nat, token: Seq<char>) -> Seq<
    (Seq<char>, T),
>
    decreases node.entries.len() - node.rank(token),
    when node.wf() && page_size >= 1
    via walk_decreases::<T>
{
    match node.next_token(page_size, token) {
        Some(next) => node.page(page_size, token) + walk(node, page_size, next),
        None => node.page(page_size, token),
    }
}

#[via_fn]
proof fn walk_decreases<T>(node: NamespaceModel<T>, page_size: nat, token: Seq<char>) {
    if let Some(next) = node.next_token(page_size, token) {
        lemma_next_token_rank(node, page_size, token);
    }
}

/// The token that comes with a page is the name of the child just behind
/// the page: the next page starts there and repeats nothing.
pub proof fn lemma_next_token_rank<T>(node: NamespaceModel<T>, page_size: nat, token: Seq<char>)
    requires
        node.wf(),
        node.next_token(page_size, token) is Some,
    ensures
        node.rank(node.next_token(page_size, token)->Some_0) == node.rank(token) + page_size,
        node.has(node.next_token(page_size, token)->Some_0),
{
    lemma_rank_bounds(node.entries, token);
    node.lemma_entry(node.rank(token) + page_size);
}

/// A listing that starts at the empty token starts at the first child.
pub proof fn lemma_empty_token_is_first<T>(node: NamespaceModel<T>)
    ensures
        node.rank(Seq::<char>::empty()) == 0,
{
    assert forall|i: int| 0 <= i < node.entries.len() implies !crate::names::name_before(
        (#[trigger] node.entries[i]).0,
        Seq::<char>::empty(),
    ) by {
        crate::names::lemma_empty_name_is_least(node.entries[i].0);
    }
    crate::namespace::lemma_rank_unique(node.entries, Seq::<char>::empty(), 0);
}

/// Listing page after page from `token` on gives every child whose name is
/// not before `token`, each once, in ascending order of name.
pub proof fn lemma_walk<T>(node: NamespaceModel<T>, page_size: nat, token: Seq<char>)
    requires
        node.wf(),
        page_size >= 1,
    ensures
        walk(node, page_size, token) == node.entries.subrange(
            node.rank(token),
            node.entries.len() as int,
        ),
    decreases node.entries.len() - node.rank(token),
{
    lemma_rank_bounds(node.entries, token);
    match node.next_token(page_size, token) {
        Some(next) => {
            lemma_next_token_rank(node, page_size, token);
            lemma_walk(node, page_size, next);
            assert(node.page(page_size, token) + node.entries.subrange(
                node.rank(next),
                node.entries.len() as int,
            ) =~= node.entries.subrange(node.rank(token), node.entries.len() as int));
        },
        None => {
            assert(node.page(page_size, token) =~= node.entries.subrange(
                node.rank(token),
                node.entries.len() as int,
            ));
        },
    }
}

/// Pagination is complete: listing from the empty token, page after page of
/// at least one child, gives all the children of the node, in ascending
/// order of name, none twice and none left out.
pub proof fn law_listing_is_complete<T>(node: NamespaceModel<T>, page_size: nat)
    requires
        node.wf(),
        page_size >= 1,
    ensures
        walk(node, page_size, Seq::<char>::empty()) == node.entries,
        ascending(walk(node, page_size, Seq::<char>::empty())),
{
    lemma_walk(node, page_size, Seq::<char>::empty());
    lemma_empty_token_is_first(node);
    assert(node.entries.subrange(0, node.entries.len() as int) =~= node.entries);
}

/// The token that comes with a page of at least one child is never the
/// empty name, so the empty token of a list response always says that
/// nothing follows.
pub proof fn law_next_token_is_not_empty<T>(
    node: NamespaceModel<T>,
    page_size: nat,
    token: Seq<char>,
)
    requires
        node.wf(),
        page_size >= 1,
        node.next_token(page_size, token) is Some,
    ensures
        node.next_token(page_size, token)->Some_0 != Seq::<char>::empty(),
{
    lemma_next_token_rank(node, page_size, token);
    lemma_empty_token_is_first(node);
    lemma_rank_bounds(node.entries, token);
}

/// The descriptions in a response to a listing, and the token that it
/// carries.
pub open spec fn listed(reply: Result<Reply, ErrorModel>) -> (Seq<DatabaseDescModel>, Seq<char>) {
    match reply {
        Ok(Reply::ListDatabases { descs, next_page_token }) => (descs, next_page_token),
        _ => (Seq::empty(), Seq::empty()),
    }
}

/// The descriptions that a client collects who lists the databases from
/// `token` on: it asks for one page of up to `page_size` databases after
/// the other, each time with the token of the response before, until a
/// response carries the empty token.
pub open spec fn collected(u: UniverseModel, page_size: u64, token: Seq<char>) -> Seq<
    DatabaseDescModel,
>
    decreases u.databases.entries.len() - u.databases.rank(token),
    when u.wf() && page_size >= 1
    via collected_decreases
{
    let page = listed(apply(u, Command::ListDatabases { page_size, page_token: token }).1);
    if page.1.len() == 0 {
        page.0
    } else {
        page.0 + collected(u, page_size, page.1)
    }
}

#[via_fn]
proof fn collected_decreases(u: UniverseModel, page_size: u64, token: Seq<char>) {
    lemma_list_databases(u, page_size, token);
    if u.databases.next_token(page_size as nat, token) is Some {
        lemma_next_token_rank(u.databases, page_size as nat, token);
    }
}

/// What a response to a listing of the databases carries: the descriptions
/// of the databases of the page, and the name that the next page starts
/// at, or the empty token exactly where no database follows the page.
pub proof fn lemma_list_databases(u: UniverseModel, page_size: u64, token: Seq<char>)
    requires
        u.wf(),
        page_size >= 1,
    ensures
        ({
            let page = listed(apply(u, Command::ListDatabases { page_size, page_token: token }).1);
            let next = u.databases.next_token(page_size as nat, token);
            &&& page.0 == database_descs(children(u.databases.page(page_size as nat, token)))
            &&& next is None <==> page.1.len() == 0
            &&& next matches Some(t) ==> page.1 == t
        }),
{
    reveal(apply);
    if u.databases.next_token(page_size as nat, token) is Some {
        law_next_token_is_not_empty(u.databases, page_size as nat, token);
        assert(forall|t: Seq<char>| t.len() == 0 ==> t =~= Seq::<char>::empty());
    }
}

/// The client's listing from `token` on holds the descriptions of the
/// databases whose names are not before `token`, in ascending order of name.
pub proof fn lemma_collected(u: UniverseModel, page_size: u64, token: Seq<char>)
    requires
        u.wf(),
        page_size >= 1,
    ensures
        collected(u, page_size, token) == database_descs(
            children(walk(u.databases, page_size as nat, token)),
        ),
    decreases u.databases.entries.len() - u.databases.rank(token),
{
    lemma_list_databases(u, page_size, token);
    let node = u.databases;
    let n = page_size as nat;
    match node.next_token(n, token) {
        Some(next) => {
            lemma_next_token_rank(node, n, token);
            lemma_collected(u, page_size, next);
            assert(database_descs(children(node.page(n, token) + walk(node, n, next)))
                =~= database_descs(children(node.page(n, token))) + database_descs(
                children(walk(node, n, next)),
            ));
        },
        None => {},
    }
}

/// Pagination is complete for the clients of the service: listing the
/// databases from the empty token, page after page of at least one
/// database, with the token of each response, gives the description of
/// every database of the catalog, in ascending order of name, none twice
/// and none left out.
pub proof fn law_database_listing_is_complete(u: UniverseModel, page_size: u64)
    requires
        u.wf(),
        page_size >= 1,
    ensures
        collected(u, page_size, Seq::<char>::empty()) == database_descs(
            children(u.databases.entries),
        ),
{
    lemma_collected(u, page_size, Seq::<char>::empty());
    law_listing_is_complete(u.databases, page_size as nat);
}

/// The identifier that the next database gets.
pub open spec fn database_counter(u: UniverseModel) -> u64 {
    u.databases.next_id
}

/// The identifier that the next collection of the database `dbname` gets.
pub open spec fn collection_counter(u: UniverseModel, dbname: Seq<char>) -> u64 {
    u.databases.at(dbname).collections.next_id
}

/// Whether a request asks for a database to be created.
pub open spec fn creates_database(request: Option<Command>) -> bool {
    request matches Some(Command::CreateDatabase { .. })
}

/// Whether a request asks for a collection to be created in `dbname`.
pub open spec fn creates_collection_in(request: Option<Command>, dbname: Seq<char>) -> bool {
    request matches Some(Command::CreateCollection { dbname: d, .. }) && d == dbname
}

/// Whether a request asks for the database `dbname` to be deleted.
pub open spec fn deletes_database(request: Option<Command>, dbname: Seq<char>) -> bool {
    request matches Some(Command::DeleteDatabase { name }) && name == dbname
}

/// The identifier in the description that a response to a creation carries.
pub open spec fn created_id(reply: Option<Reply>) -> u64 {
    match reply {
        Some(Reply::CreateDatabase { desc: Some(d) }) => d.id,
        Some(Reply::CreateCollection { desc: Some(d) }) => d.id,
        _ => 0,
    }
}

/// One request moves the counter of the universe by one where it creates
/// a database, and leaves it where it is otherwise. The database created
/// gets the identifier that the counter showed.
pub proof fn lemma_step_database_counter(u: UniverseModel, request: Option<Command>)
    requires
        u.wf(),
    ensures
        creates_database(request) && step(u, request).1 is Ok ==> {
            &&& created_id(step(u, request).1->Ok_0) == database_counter(u)
            &&& database_counter(step(u, request).0) == id_after(database_counter(u))
        },
        !(creates_database(request) && step(u, request).1 is Ok) ==> database_counter(
            step(u, request).0,
        ) == database_counter(u),
{
    reveal(apply);
}

/// While the counter of the universe has not come to its end, it never
/// goes back, and moves by at most one with each request.
pub proof fn lemma_database_counter_grows(
    u: UniverseModel,
    batch: Seq<Option<Command>>,
    a: int,
    b: int,
)
    requires
        u.wf(),
        0 <= a <= b <= batch.len(),
        database_counter(reached(u, batch, a)) + (b - a) <= u64::MAX,
    ensures
        database_counter(reached(u, batch, a)) <= database_counter(reached(u, batch, b))
            <= database_counter(reached(u, batch, a)) + (b - a),
    decreases b - a,
{
    if a < b {
        lemma_database_counter_grows(u, batch, a, b - 1);
        law_catalog_stays_well_formed(u, batch, b - 1);
        lemma_step_database_counter(reached(u, batch, b - 1), batch[b - 1]);
    }
}

/// Identifiers of databases strictly increase: of two databases created
/// under one universe, the later gets the greater identifier, whatever was
/// created or deleted in between. This holds until the counter of the
/// universe comes to its end.
pub proof fn law_database_ids_increase(
    u: UniverseModel,
    batch: Seq<Option<Command>>,
    i: int,
    j: int,
)
    requires
        u.wf(),
        0 <= i < j < batch.len(),
        creates_database(batch[i]),
        creates_database(batch[j]),
        step(reached(u, batch, i), batch[i]).1 is Ok,
        step(reached(u, batch, j), batch[j]).1 is Ok,
        database_counter(reached(u, batch, i)) + (j - i) <= u64::MAX,
    ensures
        created_id(step(reached(u, batch, i), batch[i]).1->Ok_0) < created_id(
            step(reached(u, batch, j), batch[j]).1->Ok_0,
        ),
{
    law_catalog_stays_well_formed(u, batch, i);
    law_catalog_stays_well_formed(u, batch, j);
    lemma_step_database_counter(reached(u, batch, i), batch[i]);
    lemma_step_database_counter(reached(u, batch, j), batch[j]);
    assert(reached(u, batch, i + 1) == step(reached(u, batch, i), batch[i]).0);
    lemma_database_counter_grows(u, batch, i + 1, j);
}

/// A request that does not delete the database `dbname` leaves it in the
/// catalog. It moves the counter of that database by one where it creates a
/// collection in it, and leaves the counter where it is otherwise. The
/// collection created gets the identifier that the counter showed.
pub proof fn lemma_step_collection_counter(
    u: UniverseModel,
    request: Option<Command>,
    dbname: Seq<char>,
)
    requires
        u.wf(),
        u.databases.has(dbname),
        !deletes_database(request, dbname),
    ensures
        step(u, request).0.databases.has(dbname),
        creates_collection_in(request, dbname) && step(u, request).1 is Ok ==> {
            &&& created_id(step(u, request).1->Ok_0) == collection_counter(u, dbname)
            &&& collection_counter(step(u, request).0, dbname) == id_after(
                collection_counter(u, dbname),
            )
        },
        !(creates_collection_in(request, dbname) && step(u, request).1 is Ok)
            ==> collection_counter(step(u, request).0, dbname) == collection_counter(u, dbname),
{
    let after = step(u, request).0;
    match request {
        Some(Command::CreateDatabase { name, options }) => {
            let child = u.new_database(name, options_or_empty(options));
            assert(after == u.create_database(name, options_or_empty(options)).0) by {
                reveal(apply);
            }
            if !u.databases.has(name) {
                assert(after.databases.has(dbname) && after.databases.at(dbname)
                    == u.databases.at(dbname)) by {
                    let before = u.databases.bump();
                    before.lemma_put(name, child);
                    assert(before.has(dbname));
                    assert(before.put(name, child).has(dbname) == before.has(dbname));
                    assert(before.put(name, child).at(dbname) == before.at(dbname));
                    assert(after.databases == before.put(name, child));
                }
            }
        },
        Some(Command::DeleteDatabase { name }) => {
            assert(after == u.delete_database(name)) by {
                reveal(apply);
            }
            assert(after.databases.has(dbname) && after.databases.at(dbname) == u.databases.at(
                dbname,
            )) by {
                u.databases.lemma_cut(name);
            }
        },
        Some(Command::CreateCollection { dbname: d, name, options }) => {
            if u.databases.has(d) {
                let database = u.databases.at(d);
                let created = database.create_collection(name, options_or_empty(options));
                assert(step(u, request) == (
                    u.with_database(d, created.0),
                    match created.1 {
                        Ok(c) => Ok(Some(Reply::CreateCollection { desc: Some(c.desc()) })),
                        Err(e) => Err::<Option<Reply>, ErrorModel>(e),
                    },
                )) by {
                    reveal(apply);
                }
                assert(after.databases.has(dbname) && after.databases.at(dbname) == (if d
                    == dbname {
                    created.0
                } else {
                    u.databases.at(dbname)
                })) by {
                    u.databases.lemma_set(d, created.0);
                }
            } else {
                assert(step(u, request).0 == u && step(u, request).1 is Err) by {
                    reveal(apply);
                }
            }
        },
        Some(Command::DeleteCollection { dbname: d, name }) => {
            if u.databases.has(d) {
                let database = u.databases.at(d);
                let deleted = database.delete_collection(name);
                assert(after == u.with_database(d, deleted)) by {
                    reveal(apply);
                }
                assert(after.databases.has(dbname) && after.databases.at(dbname) == (if d
                    == dbname {
                    deleted
                } else {
                    u.databases.at(dbname)
                })) by {
                    u.databases.lemma_set(d, deleted);
                }
                assert(deleted.collections.next_id == database.collections.next_id);
            } else {
                assert(after == u) by {
                    reveal(apply);
                }
            }
        },
        _ => {
            assert(after == u) by {
                reveal(apply);
            }
        },
    }
}

/// Whether none of the requests of a batch from position `a` up to, and
/// without, position `b` deletes the database `dbname`.
pub open spec fn keeps_database(
    batch: Seq<Option<Command>>,
    dbname: Seq<char>,
    a: int,
    b: int,
) -> bool {
    forall|k: int| a <= k < b ==> !deletes_database(#[trigger] batch[k], dbname)
}

/// While a database is not deleted and its counter has not come to its
/// end, the counter never goes back, and moves by at most one with each
/// request.
pub proof fn lemma_collection_counter_grows(
    u: UniverseModel,
    batch: Seq<Option<Command>>,
    dbname: Seq<char>,
    a: int,
    b: int,
)
    requires
        u.wf(),
        0 <= a <= b <= batch.len(),
        reached(u, batch, a).databases.has(dbname),
        keeps_database(batch, dbname, a, b),
        collection_counter(reached(u, batch, a), dbname) + (b - a) <= u64::MAX,
    ensures
        reached(u, batch, b).databases.has(dbname),
        collection_counter(reached(u, batch, a), dbname) <= collection_counter(
            reached(u, batch, b),
            dbname,
        ) <= collection_counter(reached(u, batch, a), dbname) + (b - a),
    decreases b - a,
{
    if a < b {
        lemma_collection_counter_grows(u, batch, dbname, a, b - 1);
        law_catalog_stays_well_formed(u, batch, b - 1);
        assert(!deletes_database(batch[b - 1], dbname));
        lemma_step_collection_counter(reached(u, batch, b - 1), batch[b - 1], dbname);
    }
}

/// Identifiers of collections strictly increase: of two collections
/// created in one database, the later gets the greater identifier,
/// whatever was created or deleted in between, as long as the database
/// itself is not deleted. This holds until the counter of the database
/// comes to its end.
pub proof fn law_collection_ids_increase(
    u: UniverseModel,
    batch: Seq<Option<Command>>,
    dbname: Seq<char>,
    i: int,
    j: int,
)
    requires
        u.wf(),
        0 <= i < j < batch.len(),
        creates_collection_in(batch[i], dbname),
        creates_collection_in(batch[j], dbname),
        step(reached(u, batch, i), batch[i]).1 is Ok,
        step(reached(u, batch, j), batch[j]).1 is Ok,
        keeps_database(batch, dbname, i, j),
        reached(u, batch, i).databases.has(dbname) ==> collection_counter(
            reached(u, batch, i),
            dbname,
        ) + (j - i) <= u64::MAX,
    ensures
        created_id(step(reached(u, batch, i), batch[i]).1->Ok_0) < created_id(
            step(reached(u, batch, j), batch[j]).1->Ok_0,
        ),
{
    let at_i = reached(u, batch, i);
    let at_j = reached(u, batch, j);
    law_catalog_stays_well_formed(u, batch, i);
    law_catalog_stays_well_formed(u, batch, j);
    assert(at_i.databases.has(dbname)) by {
        reveal(apply);
    }
    lemma_step_collection_counter(at_i, batch[i], dbname);
    assert(reached(u, batch, i + 1) == step(at_i, batch[i]).0);
    lemma_collection_counter_grows(u, batch, dbname, i + 1, j);
    lemma_step_collection_counter(at_j, batch[j], dbname);
}

/// What is done in one database leaves every other database as it was:
/// creating a collection in `first` changes nothing of `second`.
pub proof fn law_databases_are_isolated(
    u: UniverseModel,
    first: Seq<char>,
    second: Seq<char>,
    name: Seq<char>,
    options: Option<Seq<u8>>,
)
    requires
        u.wf(),
        u.databases.has(second),
        first != second,
    ensures
        ({
            let after = apply(u, Command::CreateCollection { dbname: first, name, options }).0;
            after.databases.has(second) && after.databases.at(second) == u.databases.at(second)
        }),
{
    let request = Some(Command::CreateCollection { dbname: first, name, options });
    if u.databases.has(first) {
        let created = u.databases.at(first).create_collection(name, options_or_empty(options));
        assert(apply(u, request->Some_0).0 == u.with_database(first, created.0)) by {
            reveal(apply);
        }
        u.databases.lemma_set(first, created.0);
    } else {
        assert(apply(u, request->Some_0).0 == u) by {
            reveal(apply);
        }
    }
}

/// Creations in two different databases do not stand in each other's way:
/// each is answered as if the other had not happened, and the catalog ends
/// the same in either order.
pub proof fn law_creations_in_two_databases_commute(
    u: UniverseModel,
    first: Command,
    second: Command,
)
    requires
        u.wf(),
        first matches Command::CreateCollection { dbname: a, .. } && second matches Command::CreateCollection {
            dbname: b,
            ..
        } && a != b,
    ensures
        apply(apply(u, first).0, second).1 == apply(u, second).1,
        apply(apply(u, second).0, first).1 == apply(u, first).1,
        apply(apply(u, first).0, second).0 == apply(apply(u, second).0, first).0,
{
    let a = first->CreateCollection_dbname;
    let b = second->CreateCollection_dbname;
    let one = apply(u, first).0;
    let two = apply(u, second).0;
    lemma_create_collection_elsewhere(u, first, second);
    lemma_create_collection_elsewhere(u, second, first);
    if u.databases.has(a) && u.databases.has(b) {
        let x = u.databases.at(a).create_collection(
            first->CreateCollection_name,
            options_or_empty(first->CreateCollection_options),
        ).0;
        let y = u.databases.at(b).create_collection(
            second->CreateCollection_name,
            options_or_empty(second->CreateCollection_options),
        ).0;
        assert(one == u.with_database(a, x) && two == u.with_database(b, y)) by {
            reveal(apply);
        }
        assert(apply(one, second).0 == one.with_database(b, y)) by {
            reveal(apply);
        }
        assert(apply(two, first).0 == two.with_database(a, x)) by {
            reveal(apply);
        }
        u.databases.lemma_set(a, x);
        u.databases.lemma_set(b, y);
        lemma_rank_bounds(u.databases.entries, a);
        lemma_rank_bounds(u.databases.entries, b);
        assert(one.with_database(b, y).databases.entries =~= two.with_database(
            a,
            x,
        ).databases.entries);
    } else if u.databases.has(a) {
        assert(two == u && apply(one, second).0 == one) by {
            reveal(apply);
        }
    } else {
        assert(one == u && apply(two, first).0 == two) by {
            reveal(apply);
        }
    }
}

/// A creation in one database is answered the same, and does the same to
/// its database, whether or not a creation in another database came first.
proof fn lemma_create_collection_elsewhere(u: UniverseModel, first: Command, second: Command)
    requires
        u.wf(),
        first matches Command::CreateCollection { dbname: a, .. } && second matches Command::CreateCollection {
            dbname: b,
            ..
        } && a != b,
    ensures
        apply(apply(u, first).0, second).1 == apply(u, second).1,
        apply(u, first).0.databases.has(second->CreateCollection_dbname) == u.databases.has(
            second->CreateCollection_dbname,
        ),
        u.databases.has(second->CreateCollection_dbname) ==> apply(u, first).0.databases.at(
            second->CreateCollection_dbname,
        ) == u.databases.at(second->CreateCollection_dbname),
{
    let a = first->CreateCollection_dbname;
    let b = second->CreateCollection_dbname;
    let one = apply(u, first).0;
    if u.databases.has(a) {
        let x = u.databases.at(a).create_collection(
            first->CreateCollection_name,
            options_or_empty(first->CreateCollection_options),
        ).0;
        assert(one == u.with_database(a, x)) by {
            reveal(apply);
        }
        assert(one.databases.has(b) == u.databases.has(b) && (u.databases.has(b)
            ==> one.databases.at(b) == u.databases.at(b))) by {
            u.databases.lemma_set(a, x);
        }
    } else {
        assert(one == u) by {
            reveal(apply);
        }
    }
    assert(apply(one, second).1 == apply(u, second).1) by {
        reveal(apply);
    }
}

} // verus!
