use engula::args::{typed, Args};
use engula::block_handle::{BlockHandle, ENCODED_SIZE};
use engula::error::Error;
use engula::names::{place, Place};
use engula::store::Store;

#[test]
fn encode_to_vec_is_big_endian() {
    let handle = BlockHandle { offset: 0x0102030405060708, length: 0x1112131415161718 };
    let bytes = handle.encode_to_vec();
    assert_eq!(
        bytes,
        vec![
            0x01, 0x02, 0x03, 0x04, 0x05, 0x06, 0x07, 0x08, 0x11, 0x12, 0x13, 0x14, 0x15, 0x16,
            0x17, 0x18
        ]
    );
    assert_eq!(bytes.len(), ENCODED_SIZE);
}

#[test]
fn encode_to_appends() {
    let mut buf = vec![0xaa];
    BlockHandle { offset: 1, length: 2 }.encode_to(&mut buf);
    assert_eq!(buf, vec![0xaa, 0, 0, 0, 0, 0, 0, 0, 1, 0, 0, 0, 0, 0, 0, 0, 2]);
}

#[test]
fn decode_reads_what_encode_wrote() {
    for handle in [
        BlockHandle { offset: 0, length: 0 },
        BlockHandle { offset: 4096, length: 123 },
        BlockHandle { offset: u64::MAX, length: u64::MAX - 1 },
    ] {
        let mut bytes = handle.encode_to_vec();
        bytes.extend_from_slice(b"rest");
        let mut buf: &[u8] = &bytes;
        assert_eq!(BlockHandle::decode_from(&mut buf), Ok(handle));
        assert_eq!(buf, b"rest");
    }
}

#[test]
fn decode_of_short_input_is_corrupted() {
    let bytes = [0u8; 15];
    let mut buf: &[u8] = &bytes;
    let res = BlockHandle::decode_from(&mut buf);
    assert_eq!(res, Err(Error::Corrupted("block handle is too small".to_string())));
    assert_eq!(buf.len(), 15);
    let mut empty: &[u8] = &[];
    assert!(BlockHandle::decode_from(&mut empty).is_err());
}

#[test]
fn decode_of_exactly_sixteen_bytes() {
    let bytes: Vec<u8> = (1..=16).collect();
    let mut buf: &[u8] = &bytes;
    let handle = BlockHandle::decode_from(&mut buf).unwrap();
    assert_eq!(handle.offset, 0x0102030405060708);
    assert_eq!(handle.length, 0x090a0b0c0d0e0f10);
    assert!(buf.is_empty());
}

#[test]
fn args_are_taken_from_the_front() {
    let mut args: Args<i64> = Args::new(vec![1, 2, 300]);
    assert_eq!(args.len(), 3);
    assert_eq!(args.take::<i64>(), Ok(1));
    assert_eq!(args.take::<u8>(), Ok(2));
    assert_eq!(
        args.take::<u8>(),
        Err(Error::InvalidArgument("argument type mismatch".to_string()))
    );
    assert_eq!(args.len(), 0);
    assert_eq!(args.take::<i64>(), Err(Error::InvalidArgument("missing argument".to_string())));
}

#[test]
fn typed_maps_a_failed_conversion() {
    assert_eq!(typed::<u8, ()>(Ok(3)), Ok(3));
    assert_eq!(
        typed::<u8, &str>(Err("no")),
        Err(Error::InvalidArgument("argument type mismatch".to_string()))
    );
}

#[test]
fn store_refuses_a_tenant_that_exists() {
    let store = Store::new("/var/lib/engula".to_string());
    assert_eq!(store.path(), "/var/lib/engula");
    assert_eq!(store.create_tenant("t1", false), Ok(()));
    assert_eq!(store.create_tenant("t1", true), Err(Error::AlreadyExists("tenant t1".to_string())));
}

#[test]
fn place_compares_bytes() {
    assert_eq!(place("a", "b"), Place::Before);
    assert_eq!(place("b", "a"), Place::After);
    assert_eq!(place("abc", "abc"), Place::Same);
    assert_eq!(place("", ""), Place::Same);
    assert_eq!(place("", "a"), Place::Before);
    assert_eq!(place("ab", "a"), Place::After);
    assert_eq!(place("Z", "a"), Place::Before);
    assert_eq!(place("z", "\u{e9}"), Place::Before);
    assert_eq!(place("\u{10000}", "\u{ffff}"), Place::After);
    for (a, b) in [("x", "y"), ("same", "same"), ("long", "lo"), ("\u{3b1}", "a")] {
        let expected = match a.cmp(b) {
            std::cmp::Ordering::Less => Place::Before,
            std::cmp::Ordering::Equal => Place::Same,
            std::cmp::Ordering::Greater => Place::After,
        };
        assert_eq!(place(a, b), expected);
    }
}
