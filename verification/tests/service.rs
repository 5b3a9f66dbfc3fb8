use engula::apis::universe_request::Request;
use engula::apis::universe_response::Response;
use engula::apis::{
    BatchRequest, CollectionOptions, CreateCollectionRequest, CreateDatabaseRequest,
    DatabaseOptions, DatabaseProperties, DeleteCollectionRequest, DeleteCollectionResponse,
    DeleteDatabaseRequest, DeleteDatabaseResponse, DescribeCollectionRequest,
    DescribeDatabaseRequest, ListCollectionsRequest, ListDatabasesRequest, UniverseRequest,
};
use engula::error::{Code, Error};
use engula::supervisor::Supervisor;

fn create_db(name: &str) -> UniverseRequest {
    UniverseRequest {
        request: Some(Request::CreateDatabase(CreateDatabaseRequest {
            name: name.to_string(),
            options: None,
        })),
    }
}

fn create_co(dbname: &str, name: &str) -> CreateCollectionRequest {
    CreateCollectionRequest { dbname: dbname.to_string(), name: name.to_string(), options: None }
}

fn describe_db(sv: &Supervisor, name: &str) -> Result<engula::apis::DatabaseDesc, Error> {
    sv.describe_database(DescribeDatabaseRequest { name: name.to_string() })
        .map(|r| r.desc.unwrap())
}

#[test]
fn batch_stops_at_the_first_failure() {
    let mut sv = Supervisor::new();
    let batch = BatchRequest { universes: vec![create_db("a"), create_db("a"), create_db("b")] };
    let res = sv.batch(batch);
    assert_eq!(res.err(), Some(Error::AlreadyExists("database a".to_string())));
    assert_eq!(describe_db(&sv, "a").unwrap().id, 1);
    assert_eq!(describe_db(&sv, "b").err(), Some(Error::NotFound("database b".to_string())));
}

#[test]
fn batch_answers_each_request_in_order() {
    let mut sv = Supervisor::default();
    let batch = BatchRequest {
        universes: vec![
            create_db("sales"),
            UniverseRequest { request: Some(Request::CreateCollection(create_co("sales", "orders"))) },
            UniverseRequest {
                request: Some(Request::DescribeDatabase(DescribeDatabaseRequest {
                    name: "sales".to_string(),
                })),
            },
            UniverseRequest {
                request: Some(Request::DeleteCollection(DeleteCollectionRequest {
                    dbname: "sales".to_string(),
                    name: "orders".to_string(),
                })),
            },
            UniverseRequest {
                request: Some(Request::ListCollections(ListCollectionsRequest {
                    dbname: "sales".to_string(),
                    page_size: 5,
                    page_token: String::new(),
                })),
            },
            UniverseRequest {
                request: Some(Request::DeleteDatabase(DeleteDatabaseRequest {
                    name: "sales".to_string(),
                })),
            },
        ],
    };
    let res = sv.batch(batch).unwrap();
    assert_eq!(res.universes.len(), 6);
    match &res.universes[0].response {
        Some(Response::CreateDatabase(r)) => {
            let desc = r.desc.as_ref().unwrap();
            assert_eq!(desc.id, 1);
            assert_eq!(desc.name, "sales");
            assert_eq!(desc.options, Some(DatabaseOptions::default()));
            assert_eq!(desc.properties, Some(DatabaseProperties { num_collections: 0 }));
        }
        other => panic!("unexpected response {:?}", other),
    }
    match &res.universes[1].response {
        Some(Response::CreateCollection(r)) => {
            let desc = r.desc.as_ref().unwrap();
            assert_eq!(desc.id, 1);
            assert_eq!(desc.name, "orders");
            assert_eq!(desc.options, Some(CollectionOptions::default()));
            assert_eq!(desc.properties, None);
        }
        other => panic!("unexpected response {:?}", other),
    }
    match &res.universes[2].response {
        Some(Response::DescribeDatabase(r)) => {
            let desc = r.desc.as_ref().unwrap();
            assert_eq!(desc.properties, Some(DatabaseProperties { num_collections: 1 }));
        }
        other => panic!("unexpected response {:?}", other),
    }
    assert_eq!(
        res.universes[3].response,
        Some(Response::DeleteCollection(DeleteCollectionResponse {}))
    );
    match &res.universes[4].response {
        Some(Response::ListCollections(r)) => {
            assert!(r.descs.is_empty());
            assert_eq!(r.next_page_token, "");
        }
        other => panic!("unexpected response {:?}", other),
    }
    assert_eq!(res.universes[5].response, Some(Response::DeleteDatabase(DeleteDatabaseResponse {})));
    assert_eq!(describe_db(&sv, "sales").err(), Some(Error::NotFound("database sales".to_string())));
}

#[test]
fn empty_batch_gives_empty_response() {
    let mut sv = Supervisor::new();
    let res = sv.batch(BatchRequest { universes: vec![] }).unwrap();
    assert!(res.universes.is_empty());
}

#[test]
fn envelope_without_request_is_invalid() {
    let mut sv = Supervisor::new();
    let err = sv.universe(UniverseRequest { request: None }).err().unwrap();
    assert_eq!(err, Error::InvalidArgument("missing request".to_string()));
    assert_eq!(err.code(), Code::InvalidArgument);
    let batch = BatchRequest {
        universes: vec![create_db("a"), UniverseRequest { request: None }, create_db("b")],
    };
    assert_eq!(sv.batch(batch).err(), Some(Error::InvalidArgument("missing request".to_string())));
    assert!(describe_db(&sv, "a").is_ok());
    assert!(describe_db(&sv, "b").is_err());
}

#[test]
fn sales_and_orders_through_the_service() {
    let mut sv = Supervisor::new();
    let db = sv
        .create_database(CreateDatabaseRequest {
            name: "sales".to_string(),
            options: Some(DatabaseOptions::default()),
        })
        .unwrap()
        .desc
        .unwrap();
    assert_eq!(db.id, 1);
    let co = sv.create_collection(create_co("sales", "orders")).unwrap().desc.unwrap();
    assert_eq!(co.id, 1);
    assert_eq!(describe_db(&sv, "sales").unwrap().properties.unwrap().num_collections, 1);
    sv.delete_collection(DeleteCollectionRequest {
        dbname: "sales".to_string(),
        name: "orders".to_string(),
    })
    .unwrap();
    assert_eq!(describe_db(&sv, "sales").unwrap().properties.unwrap().num_collections, 0);
    let gone = sv.describe_collection(DescribeCollectionRequest {
        dbname: "sales".to_string(),
        name: "orders".to_string(),
    });
    assert_eq!(gone.err(), Some(Error::NotFound("collection orders".to_string())));
}

#[test]
fn list_databases_through_the_service() {
    let mut sv = Supervisor::new();
    for name in ["a", "b", "c", "d"] {
        sv.universe(create_db(name)).unwrap();
    }
    let first = sv
        .list_databases(ListDatabasesRequest { page_size: 2, page_token: String::new() })
        .unwrap();
    let names: Vec<&str> = first.descs.iter().map(|d| d.name.as_str()).collect();
    assert_eq!(names, vec!["a", "b"]);
    assert_eq!(first.next_page_token, "c");
    let second = sv
        .list_databases(ListDatabasesRequest { page_size: 2, page_token: first.next_page_token })
        .unwrap();
    let names: Vec<&str> = second.descs.iter().map(|d| d.name.as_str()).collect();
    assert_eq!(names, vec!["c", "d"]);
    assert_eq!(second.next_page_token, "");
    let all = sv
        .list_databases(ListDatabasesRequest { page_size: u64::MAX, page_token: String::new() })
        .unwrap();
    assert_eq!(all.descs.len(), 4);
    assert_eq!(all.next_page_token, "");
}

#[test]
fn collection_requests_need_their_database() {
    let mut sv = Supervisor::new();
    let missing = Error::NotFound("database nowhere".to_string());
    assert_eq!(sv.create_collection(create_co("nowhere", "c")).err(), Some(missing));
    let res = sv.delete_collection(DeleteCollectionRequest {
        dbname: "nowhere".to_string(),
        name: "c".to_string(),
    });
    assert_eq!(res.err(), Some(Error::NotFound("database nowhere".to_string())));
    let res = sv.list_collections(ListCollectionsRequest {
        dbname: "nowhere".to_string(),
        page_size: 1,
        page_token: String::new(),
    });
    assert_eq!(res.err(), Some(Error::NotFound("database nowhere".to_string())));
    let res = sv.describe_collection(DescribeCollectionRequest {
        dbname: "nowhere".to_string(),
        name: "c".to_string(),
    });
    assert_eq!(res.err(), Some(Error::NotFound("database nowhere".to_string())));
}

#[test]
fn list_collections_through_the_service() {
    let mut sv = Supervisor::new();
    sv.universe(create_db("d")).unwrap();
    for name in ["z", "x", "y"] {
        sv.create_collection(create_co("d", name)).unwrap();
    }
    let page = sv
        .list_collections(ListCollectionsRequest {
            dbname: "d".to_string(),
            page_size: 2,
            page_token: String::new(),
        })
        .unwrap();
    let seen: Vec<(u64, &str)> = page.descs.iter().map(|c| (c.id, c.name.as_str())).collect();
    assert_eq!(seen, vec![(2, "x"), (3, "y")]);
    assert_eq!(page.next_page_token, "z");
}

#[test]
fn delete_database_through_the_service_is_idempotent() {
    let mut sv = Supervisor::new();
    sv.universe(create_db("a")).unwrap();
    let req = || DeleteDatabaseRequest { name: "a".to_string() };
    assert_eq!(sv.delete_database(req()), Ok(DeleteDatabaseResponse {}));
    assert_eq!(sv.delete_database(req()), Ok(DeleteDatabaseResponse {}));
    assert_eq!(describe_db(&sv, "a").err(), Some(Error::NotFound("database a".to_string())));
}

#[test]
fn create_collection_keeps_the_options() {
    let mut sv = Supervisor::new();
    sv.universe(create_db("d")).unwrap();
    let desc = sv
        .create_collection(CreateCollectionRequest {
            dbname: "d".to_string(),
            name: "c".to_string(),
            options: Some(CollectionOptions { payload: vec![1, 2] }),
        })
        .unwrap()
        .desc
        .unwrap();
    assert_eq!(desc.options, Some(CollectionOptions { payload: vec![1, 2] }));
    let again = sv
        .describe_collection(DescribeCollectionRequest {
            dbname: "d".to_string(),
            name: "c".to_string(),
        })
        .unwrap()
        .desc
        .unwrap();
    assert_eq!(again, desc);
}

#[test]
fn error_codes_match_their_kinds() {
    assert_eq!(Error::NotFound("x".to_string()).code(), Code::NotFound);
    assert_eq!(Error::AlreadyExists("x".to_string()).code(), Code::AlreadyExists);
    assert_eq!(Error::invalid_argument("x").code(), Code::InvalidArgument);
    assert_eq!(Error::corrupted("x").code(), Code::DataLoss);
    assert_eq!(Error::not_found("database ", "a"), Error::NotFound("database a".to_string()));
    assert_eq!(Error::already_exists("tenant ", "t").message(), "tenant t");
}
