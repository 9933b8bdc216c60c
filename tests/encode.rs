use nsswitch_service::glue::{
    call_gethostbyaddr_r, call_gethostbyname2_r, call_gethostbyname_r, family_from_tag,
    query_address, write_host_lookup_result,
};
use nsswitch_service::words::encode_uint;
use nsswitch_service::{
    AddressFamily, BumpAllocator, ByteOrder, Error, HostAddressList, HostEntry, HostError,
    HostRecord, IpAddress, LookupReply, NameService, NssStatus, Report,
};
use std::mem;

const W: usize = mem::size_of::<usize>();

fn word(image: &[u8], base: usize, at: usize) -> usize {
    let i = at - base;
    let mut b = [0_u8; W];
    b.copy_from_slice(&image[i..i + W]);
    usize::from_le_bytes(b)
}

fn c_str(image: &[u8], base: usize, at: usize) -> Vec<u8> {
    let i = at - base;
    let end = image[i..].iter().position(|b| *b == 0).unwrap();
    image[i..i + end].to_vec()
}

fn pointers(image: &[u8], base: usize, at: usize) -> Vec<usize> {
    let mut out = Vec::new();
    let mut k = 0;
    loop {
        let p = word(image, base, at + k * W);
        if p == 0 {
            return out;
        }
        out.push(p);
        k += 1;
    }
}

fn a_test() -> HostEntry {
    HostEntry {
        name: b"a.test".to_vec(),
        aliases: vec![],
        addr_list: HostAddressList::V4(vec![0x7f00_0001]),
    }
}

fn found(reply: LookupReply) -> (HostRecord, Vec<u8>) {
    match reply {
        LookupReply::Found { record, image } => (record, image),
        LookupReply::Failed(r) => panic!("lookup failed: {:?}", r),
    }
}

fn failed(reply: LookupReply) -> Report {
    match reply {
        LookupReply::Failed(r) => r,
        LookupReply::Found { .. } => panic!("lookup unexpectedly succeeded"),
    }
}

#[test]
fn encodes_loopback_ipv4_entry() {
    let base = 0x10000;
    let (rec, image) = found(write_host_lookup_result(Ok(Some(a_test())), base, 256, ByteOrder::Little));
    assert_eq!(c_str(&image, base, rec.name), b"a.test".to_vec());
    assert_eq!(rec.name, base);
    assert_eq!(rec.aliases, 0);
    assert_eq!(rec.addrtype, 2);
    assert_eq!(rec.length, 4);
    let ptrs = pointers(&image, base, rec.addr_list);
    assert_eq!(ptrs.len(), 1);
    let at = ptrs[0] - base;
    assert_eq!(image[at..at + 4], [127, 0, 0, 1]);
    assert_eq!(rec.addr_list % mem::align_of::<usize>(), 0);
    assert_eq!(image.len(), rec.addr_list - base + 2 * W);
}

#[test]
fn encoding_into_one_byte_buffer_asks_to_try_again() {
    let reply = write_host_lookup_result(Ok(Some(a_test())), 0x10000, 1, ByteOrder::Little);
    assert_eq!(reply.status(), NssStatus::TryAgain);
    let r = failed(reply);
    assert_eq!(r, Report { status: NssStatus::TryAgain, errno: Some(34), h_errno: -1 });
    assert_eq!(r.status.code(), -2);
}

#[test]
fn no_result_is_not_found() {
    let reply = write_host_lookup_result(Ok(None), 0x10000, 256, ByteOrder::Little);
    assert_eq!(reply.status(), NssStatus::NotFound);
    assert_eq!(failed(reply), Report { status: NssStatus::NotFound, errno: Some(2), h_errno: -1 });
}

#[test]
fn collaborator_error_is_reported_as_given() {
    let e = Error::with_host(NssStatus::NotFound, 0, HostError::HostNotFound);
    let r = failed(write_host_lookup_result(Err(e), 0x10000, 256, ByteOrder::Little));
    assert_eq!(r, Report { status: NssStatus::NotFound, errno: None, h_errno: 1 });

    let e = Error::with_errno(NssStatus::Unavailable, 5);
    let r = failed(write_host_lookup_result(Err(e), 0x10000, 256, ByteOrder::Little));
    assert_eq!(r, Report { status: NssStatus::Unavailable, errno: Some(5), h_errno: -1 });
}

#[test]
fn overflowing_buffer_is_invalid_args() {
    let r = failed(write_host_lookup_result(Ok(Some(a_test())), usize::MAX - 10, 64, ByteOrder::Little));
    assert_eq!(r, Report { status: NssStatus::Unavailable, errno: Some(22), h_errno: -1 });
}

#[test]
fn same_query_gives_identical_records() {
    let first = found(write_host_lookup_result(Ok(Some(a_test())), 0x20000, 128, ByteOrder::Little));
    let second = found(write_host_lookup_result(Ok(Some(a_test())), 0x20000, 128, ByteOrder::Little));
    assert_eq!(first, second);

    let other = found(write_host_lookup_result(Ok(Some(a_test())), 0x30000, 128, ByteOrder::Little));
    assert_eq!(other.0.name - 0x30000, first.0.name - 0x20000);
    assert_eq!(other.0.addr_list - 0x30000, first.0.addr_list - 0x20000);
    assert_eq!(c_str(&other.1, 0x30000, other.0.name), c_str(&first.1, 0x20000, first.0.name));
}

#[test]
fn encodes_aliases_and_ipv6() {
    let base = 0x40000;
    let mut v6 = [0_u8; 16];
    v6[15] = 1;
    let entry = HostEntry {
        name: b"host.test".to_vec(),
        aliases: vec![b"one".to_vec(), b"two.test".to_vec()],
        addr_list: HostAddressList::V6(vec![v6, [0xfe; 16]]),
    };
    let (rec, image) = found(write_host_lookup_result(Ok(Some(entry)), base, 512, ByteOrder::Little));
    assert_eq!(c_str(&image, base, rec.name), b"host.test".to_vec());
    let aliases = pointers(&image, base, rec.aliases);
    assert_eq!(aliases.len(), 2);
    assert_eq!(c_str(&image, base, aliases[0]), b"one".to_vec());
    assert_eq!(c_str(&image, base, aliases[1]), b"two.test".to_vec());
    assert_eq!(rec.addrtype, 10);
    assert_eq!(rec.length, 16);
    let addrs = pointers(&image, base, rec.addr_list);
    assert_eq!(addrs.len(), 2);
    assert_eq!(addrs[1], addrs[0] + 16);
    assert_eq!(addrs[0] % 4, 0);
    let at = addrs[0] - base;
    assert_eq!(image[at..at + 16], v6);
    assert_eq!(image[at + 16..at + 32], [0xfe; 16]);
}

#[test]
fn encoding_into_allocator_follows_fixed_order() {
    let mut a = BumpAllocator::new(0x50000, 256, ByteOrder::Little);
    let rec = a_test().write_to(&mut a).unwrap();
    assert_eq!(rec.name, 0x50000);
    // name (7 bytes), padded to 4, one address, padded to a word, pointer array.
    let addr_at = 0x50000 + 8;
    let list_at = (addr_at + 4 + W - 1) / W * W;
    assert_eq!(rec.addr_list, list_at);
    assert_eq!(word(a.bytes(), 0x50000, list_at), addr_at);
    assert_eq!(a.point(), list_at + 2 * W);
}

#[test]
fn encoding_fails_at_each_exhaustion_point() {
    for len in 0..40 {
        let mut a = BumpAllocator::new(0x60000, len, ByteOrder::Little);
        let r = a_test().write_to(&mut a);
        let need = ((0x60000 + 8 + 4 + W - 1) / W * W) + 2 * W - 0x60000;
        assert_eq!(r.is_ok(), len >= need, "len {}", len);
        if let Err(e) = r {
            assert_eq!(e.parts().status, NssStatus::TryAgain);
        }
    }
}

#[test]
fn encodes_integers_in_either_order() {
    assert_eq!(encode_uint(0x0102_0304, 4, ByteOrder::Big), vec![1, 2, 3, 4]);
    assert_eq!(encode_uint(0x0102_0304, 4, ByteOrder::Little), vec![4, 3, 2, 1]);
    assert_eq!(encode_uint(0x7f00_0001, 4, ByteOrder::Big), vec![127, 0, 0, 1]);
    assert_eq!(encode_uint(0x1_0000_00ff, 2, ByteOrder::Little), vec![0xff, 0]);
    assert_eq!(encode_uint(5, 0, ByteOrder::Big), Vec::<u8>::new());
}

#[test]
fn family_tags() {
    assert_eq!(family_from_tag(2).unwrap(), AddressFamily::Ipv4);
    assert_eq!(family_from_tag(10).unwrap(), AddressFamily::Ipv6);
    assert_eq!(family_from_tag(99).unwrap_err().parts().errno, 22);
}

#[test]
fn query_addresses() {
    match query_address(&[127, 0, 0, 1], 2).unwrap() {
        IpAddress::V4(x) => assert_eq!(x, 0x7f00_0001),
        IpAddress::V6(_) => panic!("wrong family"),
    }
    let mut v6 = [0_u8; 16];
    v6[0] = 0xfe;
    v6[15] = 7;
    match query_address(&v6, 10).unwrap() {
        IpAddress::V6(a) => assert_eq!(a, v6),
        IpAddress::V4(_) => panic!("wrong family"),
    }
    assert!(query_address(&[127, 0, 0, 1], 10).is_err());
    assert!(query_address(&v6, 2).is_err());
    assert!(query_address(&[1, 2, 3, 4], 3).is_err());
}

struct Loopback;

impl NameService for Loopback {
    fn gethostbyname2_r(name: &[u8], af: AddressFamily) -> Result<Option<HostEntry>, Error> {
        if !name.ends_with(b".test") {
            return Ok(None);
        }
        let addr_list = match af {
            AddressFamily::Ipv4 => HostAddressList::V4(vec![0x7f00_0001]),
            AddressFamily::Ipv6 => {
                let mut a = [0_u8; 16];
                a[15] = 1;
                HostAddressList::V6(vec![a])
            }
        };
        Ok(Some(HostEntry { name: name.to_vec(), aliases: vec![], addr_list }))
    }

    fn gethostbyaddr_r(_addr: &IpAddress) -> Result<Option<HostEntry>, Error> {
        Ok(None)
    }
}

#[test]
fn entry_points_dispatch() {
    let (rec, image) = found(call_gethostbyname_r::<Loopback>(b"x.test", 0x70000, 128, ByteOrder::Little));
    assert_eq!(rec.addrtype, 2);
    assert_eq!(c_str(&image, 0x70000, rec.name), b"x.test".to_vec());

    let (rec, _) = found(call_gethostbyname2_r::<Loopback>(b"x.test", 10, 0x70000, 128, ByteOrder::Little));
    assert_eq!(rec.length, 16);

    let r = failed(call_gethostbyname2_r::<Loopback>(b"x.test", 7, 0x70000, 128, ByteOrder::Little));
    assert_eq!(r, Report { status: NssStatus::Unavailable, errno: Some(22), h_errno: -1 });

    let r = failed(call_gethostbyname_r::<Loopback>(b"x.example", 0x70000, 128, ByteOrder::Little));
    assert_eq!(r.status, NssStatus::NotFound);

    let r = failed(call_gethostbyaddr_r::<Loopback>(&[127, 0, 0], 2, 0x70000, 128, ByteOrder::Little));
    assert_eq!(r.status, NssStatus::Unavailable);
    let r = failed(call_gethostbyaddr_r::<Loopback>(&[127, 0, 0, 1], 2, 0x70000, 128, ByteOrder::Little));
    assert_eq!(r.status, NssStatus::NotFound);
}

#[test]
fn larger_buffer_gives_same_reply() {
    let base = 0x80000;
    let mut need = 0;
    while write_host_lookup_result(Ok(Some(a_test())), base, need, ByteOrder::Little).status()
        != NssStatus::Success
    {
        need += 1;
    }
    assert_eq!(need, 8 + W + 2 * W);
    let small = found(write_host_lookup_result(Ok(Some(a_test())), base, need, ByteOrder::Little));
    let large = found(write_host_lookup_result(Ok(Some(a_test())), base, 4096, ByteOrder::Little));
    assert_eq!(small, large);
}
