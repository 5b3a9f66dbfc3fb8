//! The response that an envelope carries.
use vstd::prelude::*;
use crate::apis::{
    CreateCollectionResponse, CreateDatabaseResponse, DeleteCollectionResponse,
    DeleteDatabaseResponse, DescribeCollectionResponse, DescribeDatabaseResponse,
    ListCollectionsResponse, ListDatabasesResponse, Reply,
};

verus! {

/// One of the eight responses of the catalog service, each to the request
/// of the same name.
#[derive(Debug, PartialEq, Eq)]
pub enum Response {
    ListDatabases(ListDatabasesResponse),
    CreateDatabase(CreateDatabaseResponse),
    DeleteDatabase(DeleteDatabaseResponse),
    DescribeDatabase(DescribeDatabaseResponse),
    ListCollections(ListCollectionsResponse),
    CreateCollection(CreateCollectionResponse),
    DeleteCollection(DeleteCollectionResponse),
    DescribeCollection(DescribeCollectionResponse),
}

impl View for Response {
    type V = Reply;

    open spec fn view(&self) -> Reply {
        match self {
            Response::ListDatabases(r) => r@,
            Response::CreateDatabase(r) => r@,
            Response::DeleteDatabase(r) => r@,
            Response::DescribeDatabase(r) => r@,
            Response::ListCollections(r) => r@,
            Response::CreateCollection(r) => r@,
            Response::DeleteCollection(r) => r@,
            Response::DescribeCollection(r) => r@,
        }
    }
}

} // verus!
