//! Laying a host entry out in the caller's scratch buffer, and turning the
//! outcome of a lookup into what the host runtime is handed back.

use vstd::prelude::*;
use crate::arena::{contents, joined, lemma_joined_uniform, ArenaView, BumpAllocator, ByteOrder};
use crate::errors::{Error, NssStatus, Report};
use crate::interfaces::{AddressFamily, HostAddressList, HostEntry, IpAddress, NameService};
use crate::sys::{af_inet, af_inet6, enoent, spec_af_inet, spec_af_inet6};
use crate::words::{encode_uint, lemma_uint_bytes_len, pointer_items, uint_bytes, word_align};

verus! {

/// Size in bytes of an IPv4 address.
pub const INADDRSZ: usize = 4;

/// Size in bytes of an IPv6 address.
pub const IN6ADDRSZ: usize = 16;

/// Alignment of a stored address of either family.
pub const ADDR_ALIGN: usize = 4;

/// The host runtime's host record: addresses inside the scratch buffer.
#[derive(Clone, Copy, Debug, PartialEq, Eq, Structural)]
pub struct HostRecord {
    /// The host's name, a zero-terminated string.
    pub name: usize,
    /// A null-terminated array of pointers to the aliases, or 0 (null) when
    /// there are none.
    pub aliases: usize,
    /// The address family tag.
    pub addrtype: i32,
    /// The size of one address: 4 or 16.
    pub length: i32,
    /// A null-terminated array of pointers to the addresses.
    pub addr_list: usize,
}

/// The in-memory image of each address, in network byte order.
pub open spec fn address_images(list: HostAddressList) -> Seq<Seq<u8>> {
    match list {
        HostAddressList::V4(v) => v@.map_values(|a: u32| uint_bytes(a as nat, 4, ByteOrder::Big)),
        HostAddressList::V6(v) => v@.map_values(|a: [u8; 16]| a@),
    }
}

/// The size of one address of the list's family.
pub open spec fn address_size(list: HostAddressList) -> int {
    match list {
        HostAddressList::V4(_) => 4,
        HostAddressList::V6(_) => 16,
    }
}

/// The family tag of the list.
pub open spec fn address_tag(list: HostAddressList) -> i32 {
    match list {
        HostAddressList::V4(_) => spec_af_inet(),
        HostAddressList::V6(_) => spec_af_inet6(),
    }
}

/// The addresses of `n` consecutive items of `size` bytes from `start`.
pub open spec fn element_addrs(start: int, n: int, size: int) -> Seq<usize> {
    Seq::new(n as nat, |k: int| (start + k * size) as usize)
}

/// Copies each string of `strs`, with its terminator, one after the other:
/// the addresses of the copies and the state after, if they all fit.
pub open spec fn copied_strs(a: ArenaView, strs: Seq<Seq<u8>>) -> Option<(Seq<usize>, ArenaView)>
    decreases strs.len(),
{
    if strs.len() == 0 {
        Some((Seq::empty(), a))
    } else {
        match copied_strs(a, strs.drop_last()) {
            Some((ptrs, a1)) => match a1.placed(strs.last().push(0u8)) {
                Some((p, a2)) => Some((ptrs.push(p as usize), a2)),
                None => None,
            },
            None => None,
        }
    }
}

/// Places a null-terminated array of the pointers `ptrs`.
pub open spec fn placed_pointer_array(a: ArenaView, ptrs: Seq<usize>) -> Option<(int, ArenaView)> {
    a.placed_aligned(joined(pointer_items(ptrs, a.order)), word_align() as int)
}

/// The aliases step: null when there are no aliases, else the copies of the
/// aliases followed by the array of pointers to them.
pub open spec fn encoded_aliases(a: ArenaView, aliases: Seq<Seq<u8>>) -> Option<(int, ArenaView)> {
    if aliases.len() == 0 {
        Some((0, a))
    } else {
        match copied_strs(a, aliases) {
            Some((ptrs, a1)) => placed_pointer_array(a1, ptrs),
            None => None,
        }
    }
}

/// The addresses step: the addresses as one contiguous array, then the
/// array of pointers to its elements.
pub open spec fn encoded_addresses(a: ArenaView, list: HostAddressList) -> Option<(int, ArenaView)> {
    let images = address_images(list);
    match a.placed_aligned(joined(images), ADDR_ALIGN as int) {
        Some((start, a1)) => placed_pointer_array(
            a1,
            element_addrs(start, images.len() as int, address_size(list)),
        ),
        None => None,
    }
}

/// The record that encoding `e` into `a` yields, and the state after: the
/// name, then the aliases, then the addresses. `None` when they do not fit.
pub open spec fn encoded(e: HostEntry, a: ArenaView) -> Option<(HostRecord, ArenaView)> {
    match a.placed(e.name@.push(0u8)) {
        None => None,
        Some((name, a1)) => match encoded_aliases(a1, contents(e.aliases@)) {
            None => None,
            Some((aliases, a2)) => match encoded_addresses(a2, e.addr_list) {
                None => None,
                Some((addr_list, a3)) => Some(
                    (
                        HostRecord {
                            name: name as usize,
                            aliases: aliases as usize,
                            addrtype: address_tag(e.addr_list),
                            length: address_size(e.addr_list) as i32,
                            addr_list: addr_list as usize,
                        },
                        a3,
                    ),
                ),
            },
        },
    }
}

/// Once copying a prefix of `strs` fails, copying all of them fails.
proof fn lemma_copied_strs_fails(a: ArenaView, strs: Seq<Seq<u8>>, j: int)
    requires
        0 <= j <= strs.len(),
        copied_strs(a, strs.take(j)) is None,
    ensures
        copied_strs(a, strs) is None,
    decreases strs.len(),
{
    if j == strs.len() {
        assert(strs.take(j) =~= strs);
    } else {
        assert(strs.drop_last().take(j) =~= strs.take(j));
        lemma_copied_strs_fails(a, strs.drop_last(), j);
    }
}

/// Network byte order of an IPv4 address.
fn to_in_addr_t(ip: u32) -> (r: Vec<u8>)
    ensures
        r@ == uint_bytes(ip as nat, 4, ByteOrder::Big),
{
    encode_uint(ip as u64, INADDRSZ, ByteOrder::Big)
}

/// The octets of an IPv6 address.
fn to_in6_addr(ip: &[u8; 16]) -> (r: Vec<u8>)
    ensures
        r@ == ip@,
{
    let mut out: Vec<u8> = Vec::new();
    let mut i: usize = 0;
    while i < IN6ADDRSZ
        invariant
            i <= 16,
            out@ == ip@.take(i as int),
        decreases 16 - i,
    {
        out.push(ip[i]);
        i = i + 1;
        assert(out@ =~= ip@.take(i as int));
    }
    assert(ip@.take(16) =~= ip@);
    out
}

/// The images of the addresses of `list`, each of `address_size` bytes.
fn address_images_exec(list: &HostAddressList) -> (r: Vec<Vec<u8>>)
    ensures
        contents(r@) == address_images(*list),
        forall|i: int|
            0 <= i < contents(r@).len() ==> (#[trigger] contents(r@)[i]).len() == address_size(
                *list,
            ),
{
    let mut out: Vec<Vec<u8>> = Vec::new();
    match list {
        HostAddressList::V4(addrs) => {
            let mut i: usize = 0;
            while i < addrs.len()
                invariant
                    i <= addrs@.len(),
                    out@.len() == i,
                    forall|k: int|
                        0 <= k < i ==> (#[trigger] out@[k])@ == uint_bytes(
                            addrs@[k] as nat,
                            4,
                            ByteOrder::Big,
                        ),
                decreases addrs@.len() - i,
            {
                out.push(to_in_addr_t(addrs[i]));
                i = i + 1;
            }
            assert(contents(out@) =~= address_images(*list));
            assert forall|k: int| 0 <= k < contents(out@).len() implies (#[trigger] contents(
                out@,
            )[k]).len() == 4 by {
                lemma_uint_bytes_len(addrs@[k] as nat, 4, ByteOrder::Big);
            }
        },
        HostAddressList::V6(addrs) => {
            let mut i: usize = 0;
            while i < addrs.len()
                invariant
                    i <= addrs@.len(),
                    out@.len() == i,
                    forall|k: int| 0 <= k < i ==> (#[trigger] out@[k])@ == addrs@[k]@,
                decreases addrs@.len() - i,
            {
                out.push(to_in6_addr(&addrs[i]));
                i = i + 1;
            }
            assert(contents(out@) =~= address_images(*list));
        },
    }
    out
}

/// The addresses of `n` consecutive items of `size` bytes from `start`.
fn element_addresses(start: usize, n: usize, size: usize) -> (r: Vec<usize>)
    requires
        start + n * size <= usize::MAX,
    ensures
        r@ == element_addrs(start as int, n as int, size as int),
{
    let mut out: Vec<usize> = Vec::new();
    let mut p: usize = start;
    let mut i: usize = 0;
    while i < n
        invariant
            i <= n,
            start + n * size <= usize::MAX,
            p == start + i * size,
            out@ =~= element_addrs(start as int, i as int, size as int),
        decreases n - i,
    {
        out.push(p);
        assert(start + (i + 1) * size <= start + n * size) by (nonlinear_arith)
            requires
                i < n,
        ;
        assert((i + 1) * size == i * size + size) by (nonlinear_arith);
        p = p + size;
        i = i + 1;
        assert(out@ =~= element_addrs(start as int, i as int, size as int));
    }
    out
}

/// Copies each alias, with its terminator, and returns the addresses of the
/// copies.
fn copy_aliases(allocator: &mut BumpAllocator, aliases: &Vec<Vec<u8>>) -> (r: Result<
    Vec<usize>,
    Error,
>)
    requires
        old(allocator)@.wf(),
    ensures
        final(allocator)@.wf(),
        match copied_strs(old(allocator)@, contents(aliases@)) {
            Some((ptrs, v)) => r matches Ok(p) && p@ == ptrs && final(allocator)@ == v,
            None => r matches Err(e) && e@ == Error::spec_buffer_too_small(),
        },
        final(allocator)@.base == old(allocator)@.base,
        final(allocator)@.stop == old(allocator)@.stop,
        final(allocator)@.order == old(allocator)@.order,
{
    let ghost v0 = allocator@;
    let ghost strs = contents(aliases@);
    let mut ptrs: Vec<usize> = Vec::new();
    let mut i: usize = 0;
    assert(strs.take(0) =~= Seq::<Seq<u8>>::empty());
    while i < aliases.len()
        invariant
            i <= aliases@.len(),
            v0 == old(allocator)@,
            strs == contents(aliases@),
            copied_strs(v0, strs.take(i as int)) == Some((ptrs@, allocator@)),
            allocator@.wf(),
            allocator@.base == v0.base,
            allocator@.stop == v0.stop,
            allocator@.order == v0.order,
        decreases aliases@.len() - i,
    {
        assert(strs.take(i + 1).drop_last() =~= strs.take(i as int));
        assert(strs.take(i + 1).last() == aliases@[i as int]@);
        match allocator.copy_c_str(aliases[i].as_slice()) {
            Ok(p) => {
                ptrs.push(p);
            },
            Err(e) => {
                proof {
                    lemma_copied_strs_fails(v0, strs, i + 1);
                }
                return Err(e);
            },
        }
        i = i + 1;
    }
    assert(strs.take(aliases@.len() as int) =~= strs);
    Ok(ptrs)
}

impl HostEntry {
    /// Lays this entry out in the allocator's buffer: the name, then the
    /// aliases and the array of pointers to them (none when there are no
    /// aliases), then the addresses and the array of pointers to them.
    /// Fails with the buffer-too-small error at the first piece that does not
    /// fit.
    pub fn write_to(&self, allocator: &mut BumpAllocator) -> (r: Result<HostRecord, Error>)
        requires
            old(allocator)@.wf(),
        ensures
            final(allocator)@.wf(),
            match encoded(*self, old(allocator)@) {
                Some((rec, v)) => r == Ok::<HostRecord, Error>(rec) && final(allocator)@ == v,
                None => r matches Err(e) && e@ == Error::spec_buffer_too_small(),
            },
    {
        let name = match allocator.copy_c_str(self.name.as_slice()) {
            Ok(p) => p,
            Err(e) => return Err(e),
        };
        let ghost v1 = allocator@;
        let aliases: usize = if self.aliases.len() == 0 {
            0
        } else {
            let ptrs = match copy_aliases(allocator, &self.aliases) {
                Ok(p) => p,
                Err(e) => return Err(e),
            };
            match allocator.allocate_pointer_array(&ptrs) {
                Ok(p) => p,
                Err(e) => return Err(e),
            }
        };
        assert(encoded_aliases(v1, contents(self.aliases@)) == Some((aliases as int, allocator@)));
        let images = address_images_exec(&self.addr_list);
        let (tag, size) = match &self.addr_list {
            HostAddressList::V4(_) => (af_inet(), INADDRSZ),
            HostAddressList::V6(_) => (af_inet6(), IN6ADDRSZ),
        };
        let start = match allocator.allocate_array(&images, ADDR_ALIGN) {
            Ok(p) => p,
            Err(e) => return Err(e),
        };
        proof {
            lemma_joined_uniform(contents(images@), size as int);
        }
        let addrs = element_addresses(start, images.len(), size);
        let addr_list = match allocator.allocate_pointer_array(&addrs) {
            Ok(p) => p,
            Err(e) => return Err(e),
        };
        Ok(HostRecord { name, aliases, addrtype: tag, length: size as i32, addr_list })
    }
}

/// What the host runtime is handed back after a lookup.
pub enum LookupReply {
    /// Success: the record, and the image of the used part of the scratch
    /// buffer, starting at its first byte.
    Found { record: HostRecord, image: Vec<u8> },
    /// Failure: what to write to the two error slots, and the status.
    Failed(Report),
}

/// The abstract value of a `LookupReply`.
pub enum ReplyView {
    Found(HostRecord, Seq<u8>),
    Failed(Report),
}

impl ReplyView {
    pub open spec fn status(self) -> NssStatus {
        match self {
            ReplyView::Found(_, _) => NssStatus::Success,
            ReplyView::Failed(r) => r.status,
        }
    }
}

impl View for LookupReply {
    type V = ReplyView;

    open spec fn view(&self) -> ReplyView {
        match self {
            LookupReply::Found { record, image } => ReplyView::Found(*record, image@),
            LookupReply::Failed(r) => ReplyView::Failed(*r),
        }
    }
}

impl LookupReply {
    /// The status returned to the host runtime.
    pub fn status(&self) -> (r: NssStatus)
        ensures
            r == self@.status(),
    {
        match self {
            LookupReply::Found { .. } => NssStatus::Success,
            LookupReply::Failed(r) => r.status,
        }
    }
}

/// The reply to a lookup whose result is `lookup`, for the scratch buffer of
/// `buflen` bytes at address `base`.
pub open spec fn lookup_reply(
    lookup: Result<Option<HostEntry>, Error>,
    base: usize,
    buflen: usize,
    order: ByteOrder,
) -> ReplyView {
    match lookup {
        Err(e) => ReplyView::Failed(e@.spec_report()),
        Ok(None) => ReplyView::Failed(Error::spec_not_found().spec_report()),
        Ok(Some(h)) => if buflen > isize::MAX || base + buflen > usize::MAX {
            ReplyView::Failed(Error::spec_invalid_args().spec_report())
        } else {
            match encoded(h, ArenaView::fresh(base as int, buflen as int, order)) {
                Some((rec, v)) => ReplyView::Found(rec, v.bytes),
                None => ReplyView::Failed(Error::spec_buffer_too_small().spec_report()),
            }
        },
    }
}

/// Turns the result of a lookup into the reply: a failure is reported as
/// it is; "nothing found" is reported as not-found; an entry is laid out in
/// the scratch buffer of `buflen` bytes at address `base`, and reported as
/// try-again when it does not fit. The reply depends on these arguments
/// alone.
pub fn write_host_lookup_result(
    lookup_result: Result<Option<HostEntry>, Error>,
    base: usize,
    buflen: usize,
    order: ByteOrder,
) -> (r: LookupReply)
    ensures
        r@ == lookup_reply(lookup_result, base, buflen, order),
{
    match lookup_result {
        Err(err) => LookupReply::Failed(err.report_with_host()),
        Ok(None) => LookupReply::Failed(
            Error::with_errno(NssStatus::NotFound, enoent()).report_with_host(),
        ),
        Ok(Some(host)) => {
            let mut allocator = match BumpAllocator::from_ptr(base, buflen, order) {
                Ok(a) => a,
                Err(err) => return LookupReply::Failed(err.report_with_host()),
            };
            match host.write_to(&mut allocator) {
                Ok(record) => LookupReply::Found { record, image: allocator.into_bytes() },
                Err(err) => LookupReply::Failed(err.report_with_host()),
            }
        },
    }
}

/// The address family with tag `af`; other tags are invalid arguments.
pub fn family_from_tag(af: i32) -> (r: Result<AddressFamily, Error>)
    ensures
        r == Ok::<AddressFamily, Error>(AddressFamily::Ipv4) <==> af == spec_af_inet(),
        r == Ok::<AddressFamily, Error>(AddressFamily::Ipv6) <==> af == spec_af_inet6(),
        r is Err <==> af != spec_af_inet() && af != spec_af_inet6(),
        r matches Err(e) ==> e@ == Error::spec_invalid_args(),
{
    if af == af_inet() {
        Ok(AddressFamily::Ipv4)
    } else if af == af_inet6() {
        Ok(AddressFamily::Ipv6)
    } else {
        Err(Error::invalid_args())
    }
}

/// The IPv4 address whose network-order bytes are `b`.
pub open spec fn ipv4_from_bytes(b: Seq<u8>) -> int {
    b[0] * 16777216 + b[1] * 65536 + b[2] * 256 + b[3]
}

/// The address of family `af` whose bytes, in network order, are `addr`;
/// an unknown family or a length wrong for the family is an invalid
/// argument.
pub fn query_address(addr: &[u8], af: i32) -> (r: Result<IpAddress, Error>)
    ensures
        r is Err <==> !((af == spec_af_inet() && addr@.len() == INADDRSZ) || (af
            == spec_af_inet6() && addr@.len() == IN6ADDRSZ)),
        r matches Err(e) ==> e@ == Error::spec_invalid_args(),
        r matches Ok(IpAddress::V4(x)) ==> af == spec_af_inet() && x == ipv4_from_bytes(addr@),
        r matches Ok(IpAddress::V6(a)) ==> af == spec_af_inet6() && a@ == addr@,
{
    if af == af_inet() {
        if addr.len() != INADDRSZ {
            return Err(Error::invalid_args());
        }
        let x: u32 = (addr[0] as u32) * 16777216 + (addr[1] as u32) * 65536 + (addr[2] as u32)
            * 256 + addr[3] as u32;
        Ok(IpAddress::V4(x))
    } else if af == af_inet6() {
        if addr.len() != IN6ADDRSZ {
            return Err(Error::invalid_args());
        }
        let a: [u8; 16] = [
            addr[0],
            addr[1],
            addr[2],
            addr[3],
            addr[4],
            addr[5],
            addr[6],
            addr[7],
            addr[8],
            addr[9],
            addr[10],
            addr[11],
            addr[12],
            addr[13],
            addr[14],
            addr[15],
        ];
        assert(a@ =~= addr@);
        Ok(IpAddress::V6(a))
    } else {
        Err(Error::invalid_args())
    }
}

/// Forward IPv4 lookup: asks the plugin `T`, then replies as
/// `write_host_lookup_result` does for whatever it answered.
pub fn call_gethostbyname_r<T: NameService>(
    name: &[u8],
    base: usize,
    buflen: usize,
    order: ByteOrder,
) -> (r: LookupReply)
    ensures
        exists|lookup: Result<Option<HostEntry>, Error>|
            r@ == #[trigger] lookup_reply(lookup, base, buflen, order),
{
    let lookup_result = T::gethostbyname_r(name);
    write_host_lookup_result(lookup_result, base, buflen, order)
}

/// Forward lookup for the family tagged `af`: an unknown tag is reported as
/// an invalid argument without asking the plugin; otherwise as
/// `call_gethostbyname_r`.
pub fn call_gethostbyname2_r<T: NameService>(
    name: &[u8],
    af: i32,
    base: usize,
    buflen: usize,
    order: ByteOrder,
) -> (r: LookupReply)
    ensures
        af != spec_af_inet() && af != spec_af_inet6() ==> r@ == ReplyView::Failed(
            Error::spec_invalid_args().spec_report(),
        ),
        exists|lookup: Result<Option<HostEntry>, Error>|
            r@ == #[trigger] lookup_reply(lookup, base, buflen, order),
{
    let family = match family_from_tag(af) {
        Ok(f) => f,
        Err(err) => {
            let r = LookupReply::Failed(err.report_with_host());
            assert(r@ == lookup_reply(Err(err), base, buflen, order));
            return r;
        },
    };
    let lookup_result = T::gethostbyname2_r(name, family);
    write_host_lookup_result(lookup_result, base, buflen, order)
}

/// Reverse lookup of the address of family `af` whose bytes are `addr`: an
/// unknown family or a length wrong for it is reported as an invalid
/// argument without asking the plugin; otherwise as
/// `call_gethostbyname_r`.
pub fn call_gethostbyaddr_r<T: NameService>(
    addr: &[u8],
    af: i32,
    base: usize,
    buflen: usize,
    order: ByteOrder,
) -> (r: LookupReply)
    ensures
        !((af == spec_af_inet() && addr@.len() == INADDRSZ) || (af == spec_af_inet6()
            && addr@.len() == IN6ADDRSZ)) ==> r@ == ReplyView::Failed(
            Error::spec_invalid_args().spec_report(),
        ),
        exists|lookup: Result<Option<HostEntry>, Error>|
            r@ == #[trigger] lookup_reply(lookup, base, buflen, order),
{
    let ip = match query_address(addr, af) {
        Ok(ip) => ip,
        Err(err) => {
            let r = LookupReply::Failed(err.report_with_host());
            assert(r@ == lookup_reply(Err(err), base, buflen, order));
            return r;
        },
    };
    let lookup_result = T::gethostbyaddr_r(&ip);
    write_host_lookup_result(lookup_result, base, buflen, order)
}

} // verus!
