//! The request that an envelope carries.
use vstd::prelude::*;
use crate::apis::{
    Command, CreateCollectionRequest, CreateDatabaseRequest, DeleteCollectionRequest,
    DeleteDatabaseRequest, DescribeCollectionRequest, DescribeDatabaseRequest,
    ListCollectionsRequest, ListDatabasesRequest,
};

verus! {

/// One of the eight requests of the catalog service.
#[derive(Debug, PartialEq, Eq)]
pub enum Request {
    ListDatabases(ListDatabasesRequest),
    CreateDatabase(CreateDatabaseRequest),
    DeleteDatabase(DeleteDatabaseRequest),
    DescribeDatabase(DescribeDatabaseRequest),
    ListCollections(ListCollectionsRequest),
    CreateCollection(CreateCollectionRequest),
    DeleteCollection(DeleteCollectionRequest),
    DescribeCollection(DescribeCollectionRequest),
}

impl View for Request {
    type V = Command;

    open spec fn view(&self) -> Command {
        match self {
            Request::ListDatabases(r) => r@,
            Request::CreateDatabase(r) => r@,
            Request::DeleteDatabase(r) => r@,
            Request::DescribeDatabase(r) => r@,
            Request::ListCollections(r) => r@,
            Request::CreateCollection(r) => r@,
            Request::DeleteCollection(r) => r@,
            Request::DescribeCollection(r) => r@,
        }
    }
}

} // verus!
