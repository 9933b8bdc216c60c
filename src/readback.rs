//! What an encoded host record reads back as: every address in the record
//! leads, through the final image of the buffer, to what the entry holds.

use vstd::prelude::*;
use crate::arena::{contents, joined, ArenaView};
use crate::glue::{
    address_images, address_size, address_tag, copied_strs, element_addrs, encoded,
    placed_pointer_array, HostRecord,
};
use crate::interfaces::{HostAddressList, HostEntry};
use crate::words::{lemma_uint_bytes_len, pointer_items, word_image, word_size};

verus! {

/// `later` is `earlier` with more of the same buffer handed out.
pub open spec fn grows_into(earlier: ArenaView, later: ArenaView) -> bool {
    &&& earlier.wf()
    &&& later.wf()
    &&& earlier.base == later.base
    &&& earlier.stop == later.stop
    &&& earlier.order == later.order
    &&& earlier.bytes.is_prefix_of(later.bytes)
}

/// The image holds `len` bytes at `at`.
pub open spec fn covers(v: ArenaView, at: int, len: int) -> bool {
    v.base <= at && 0 <= len && at + len <= v.point
}

/// The image holds the zero-terminated string `s` at `at`.
pub open spec fn holds_c_str(v: ArenaView, at: int, s: Seq<u8>) -> bool {
    covers(v, at, (s.len() + 1) as int) && v.read(at, (s.len() + 1) as int) == s.push(0u8)
}

/// The `k`-th word of the array at `at`.
pub open spec fn word_at(v: ArenaView, at: int, k: int) -> Seq<u8> {
    v.read(at + k * word_size(), word_size() as int)
}

/// The image holds, at `at`, the words of `ptrs` followed by a null word.
pub open spec fn holds_pointer_array(v: ArenaView, at: int, ptrs: Seq<usize>) -> bool {
    &&& covers(v, at, ((ptrs.len() + 1) * word_size()) as int)
    &&& forall|k: int|
        0 <= k <= ptrs.len() ==> #[trigger] word_at(v, at, k) == word_image(
            ptrs.push(0usize)[k],
            v.order,
        )
}

/// The image holds, at `at`, a null-terminated array of pointers to copies
/// of the strings `strs`.
pub open spec fn holds_string_array(v: ArenaView, at: int, strs: Seq<Seq<u8>>) -> bool {
    exists|ptrs: Seq<usize>|
        #[trigger] holds_pointer_array(v, at, ptrs) && ptrs.len() == strs.len() && forall|k: int|
            0 <= k < strs.len() ==> holds_c_str(v, ptrs[k] as int, #[trigger] strs[k])
}

/// The image holds, at `at`, a null-terminated array of pointers to the
/// byte sequences `items`.
pub open spec fn holds_address_array(v: ArenaView, at: int, items: Seq<Seq<u8>>) -> bool {
    exists|ptrs: Seq<usize>|
        #[trigger] holds_pointer_array(v, at, ptrs) && ptrs.len() == items.len() && forall|k: int|
            0 <= k < items.len() ==> covers(v, ptrs[k] as int, items[k].len() as int) && v.read(
                ptrs[k] as int,
                items[k].len() as int,
            ) == #[trigger] items[k]
}

proof fn lemma_grows_trans(a: ArenaView, b: ArenaView, c: ArenaView)
    requires
        grows_into(a, b),
        grows_into(b, c),
    ensures
        grows_into(a, c),
{
    assert(a.bytes =~= c.bytes.subrange(0, a.bytes.len() as int));
}

/// Bytes already handed out never change.
proof fn lemma_read_stable(v1: ArenaView, v2: ArenaView, at: int, len: int)
    requires
        grows_into(v1, v2),
        covers(v1, at, len),
    ensures
        covers(v2, at, len),
        v2.read(at, len) == v1.read(at, len),
{
    assert(v1.bytes =~= v2.bytes.subrange(0, v1.bytes.len() as int));
    assert(v2.read(at, len) =~= v1.read(at, len));
}

proof fn lemma_read_sub(v: ArenaView, at: int, len: int, off: int, l: int)
    requires
        v.wf(),
        covers(v, at, len),
        0 <= off,
        0 <= l,
        off + l <= len,
    ensures
        covers(v, at + off, l),
        v.read(at + off, l) == v.read(at, len).subrange(off, off + l),
{
    assert(v.read(at + off, l) =~= v.read(at, len).subrange(off, off + l));
}

proof fn lemma_placed(a: ArenaView, d: Seq<u8>, p: int, v: ArenaView)
    requires
        a.wf(),
        a.placed(d) == Some((p, v)),
    ensures
        grows_into(a, v),
        p == a.point,
        v.point == p + d.len(),
        covers(v, p, d.len() as int),
        v.read(p, d.len() as int) == d,
{
    assert(a.bytes =~= v.bytes.subrange(0, a.bytes.len() as int));
    assert(v.read(p, d.len() as int) =~= d);
}

proof fn lemma_placed_aligned(a: ArenaView, d: Seq<u8>, al: int, p: int, v: ArenaView)
    requires
        a.wf(),
        a.placed_aligned(d, al) == Some((p, v)),
    ensures
        grows_into(a, v),
        a.point <= p,
        v.point == p + d.len(),
        covers(v, p, d.len() as int),
        v.read(p, d.len() as int) == d,
{
    let w = a.aligned(al)->Some_0;
    assert(a.bytes =~= w.bytes.subrange(0, a.bytes.len() as int));
    lemma_placed(w, d, p, v);
    lemma_grows_trans(a, w, v);
}

/// Item `k` of equally long items sits at `k * size` in their join.
proof fn lemma_joined_item(items: Seq<Seq<u8>>, size: int, k: int)
    requires
        size >= 0,
        0 <= k < items.len(),
        forall|i: int| 0 <= i < items.len() ==> (#[trigger] items[i]).len() == size,
    ensures
        joined(items).len() == items.len() * size,
        k * size + size <= items.len() * size,
        joined(items).subrange(k * size, k * size + size) == items[k],
    decreases items.len(),
{
    crate::arena::lemma_joined_uniform(items, size);
    crate::arena::lemma_joined_uniform(items.drop_last(), size);
    let n = items.len() - 1;
    assert(k * size + size <= items.len() * size) by (nonlinear_arith)
        requires
            k < items.len(),
            size >= 0,
    ;
    if k < n {
        lemma_joined_item(items.drop_last(), size, k);
        assert(joined(items).subrange(k * size, k * size + size) =~= joined(
            items.drop_last(),
        ).subrange(k * size, k * size + size));
    } else {
        assert(n * size + size == items.len() * size) by (nonlinear_arith)
            requires
                n == items.len() - 1,
        ;
        assert(joined(items).subrange(k * size, k * size + size) =~= items[k]);
    }
}

/// A placed pointer array holds its pointers followed by null.
proof fn lemma_pointer_array(a: ArenaView, ptrs: Seq<usize>, at: int, v: ArenaView)
    requires
        a.wf(),
        placed_pointer_array(a, ptrs) == Some((at, v)),
    ensures
        grows_into(a, v),
        a.point <= at,
        holds_pointer_array(v, at, ptrs),
{
    let items = pointer_items(ptrs, a.order);
    let w = word_size() as int;
    assert forall|i: int| 0 <= i < items.len() implies (#[trigger] items[i]).len() == w by {
        lemma_uint_bytes_len(ptrs.push(0usize)[i] as nat, word_size(), a.order);
    }
    let d = joined(items);
    crate::arena::lemma_joined_uniform(items, w);
    lemma_placed_aligned(a, d, crate::words::word_align() as int, at, v);
    assert forall|k: int| 0 <= k <= ptrs.len() implies #[trigger] word_at(v, at, k) == word_image(
        ptrs.push(0usize)[k],
        v.order,
    ) by {
        lemma_joined_item(items, w, k);
        lemma_read_sub(v, at, d.len() as int, k * w, w);
    }
}

/// Copied strings read back from the final image.
proof fn lemma_copied_strs(a: ArenaView, strs: Seq<Seq<u8>>, ptrs: Seq<usize>, v: ArenaView)
    requires
        a.wf(),
        copied_strs(a, strs) == Some((ptrs, v)),
    ensures
        grows_into(a, v),
        ptrs.len() == strs.len(),
        forall|k: int| 0 <= k < strs.len() ==> holds_c_str(v, ptrs[k] as int, #[trigger] strs[k]),
        strs.len() > 0 ==> a.point < v.point,
    decreases strs.len(),
{
    if strs.len() == 0 {
        assert(a.bytes =~= v.bytes.subrange(0, a.bytes.len() as int));
    } else {
        let (ptrs1, a1) = copied_strs(a, strs.drop_last())->Some_0;
        lemma_copied_strs(a, strs.drop_last(), ptrs1, a1);
        let (p, a2) = a1.placed(strs.last().push(0u8))->Some_0;
        lemma_placed(a1, strs.last().push(0u8), p, a2);
        lemma_grows_trans(a, a1, v);
        assert forall|k: int| 0 <= k < strs.len() implies holds_c_str(
            v,
            ptrs[k] as int,
            #[trigger] strs[k],
        ) by {
            if k < strs.len() - 1 {
                assert(strs[k] == strs.drop_last()[k]);
                lemma_read_stable(a1, v, ptrs1[k] as int, (strs[k].len() + 1) as int);
            }
        }
    }
}

/// The record that encoding an entry yields reads back, through the final
/// image of the buffer, as the entry: its name is the entry's name with a
/// terminator; its aliases field is null exactly when there are no aliases,
/// and otherwise leads to a null-terminated array of pointers to the
/// aliases, in order; its family tag and address length are those of the
/// entry's addresses; and its address list is a null-terminated array of
/// pointers to each address, in network byte order, in order. Encoding only
/// appends to what the buffer already held.
pub proof fn lemma_encoded_reads_back(e: HostEntry, a: ArenaView, rec: HostRecord, v: ArenaView)
    requires
        a.wf(),
        encoded(e, a) == Some((rec, v)),
    ensures
        grows_into(a, v),
        holds_c_str(v, rec.name as int, e.name@),
        rec.aliases == 0 <==> e.aliases@.len() == 0,
        e.aliases@.len() > 0 ==> holds_string_array(v, rec.aliases as int, contents(e.aliases@)),
        rec.addrtype == address_tag(e.addr_list),
        rec.length == address_size(e.addr_list),
        holds_address_array(v, rec.addr_list as int, address_images(e.addr_list)),
{
    let name_s = e.name@.push(0u8);
    let (name, a1) = a.placed(name_s)->Some_0;
    lemma_placed(a, name_s, name, a1);
    let strs = contents(e.aliases@);
    let (aliases, a2) = crate::glue::encoded_aliases(a1, strs)->Some_0;
    if strs.len() == 0 {
        assert(a1.bytes =~= a2.bytes.subrange(0, a1.bytes.len() as int));
    } else {
        let (ptrs, a1b) = copied_strs(a1, strs)->Some_0;
        lemma_copied_strs(a1, strs, ptrs, a1b);
        lemma_pointer_array(a1b, ptrs, aliases, a2);
        lemma_grows_trans(a1, a1b, a2);
    }
    let images = address_images(e.addr_list);
    let size = address_size(e.addr_list);
    let (start, a2b) = a2.placed_aligned(joined(images), crate::glue::ADDR_ALIGN as int)->Some_0;
    lemma_placed_aligned(a2, joined(images), crate::glue::ADDR_ALIGN as int, start, a2b);
    let addrs = element_addrs(start, images.len() as int, size);
    let (list, a3) = placed_pointer_array(a2b, addrs)->Some_0;
    lemma_pointer_array(a2b, addrs, list, a3);
    assert(v == a3);
    lemma_grows_trans(a, a1, a2);
    lemma_grows_trans(a, a2, a2b);
    lemma_grows_trans(a, a2b, v);
    lemma_grows_trans(a1, a2, a2b);
    lemma_grows_trans(a1, a2b, v);
    lemma_read_stable(a1, v, name, name_s.len() as int);
    if strs.len() > 0 {
        let (ptrs, a1b) = copied_strs(a1, strs)->Some_0;
        lemma_grows_trans(a2, a2b, v);
        lemma_grows_trans(a1b, a2, v);
        assert forall|k: int| 0 <= k <= ptrs.len() implies #[trigger] word_at(v, aliases, k)
            == word_image(ptrs.push(0usize)[k], v.order) by {
            assert(word_at(a2, aliases, k) == word_image(ptrs.push(0usize)[k], a2.order));
            assert(aliases + k * word_size() + word_size() <= aliases + (ptrs.len() + 1)
                * word_size()) by (nonlinear_arith)
                requires
                    k <= ptrs.len(),
            ;
            assert(0 <= k * word_size()) by (nonlinear_arith)
                requires
                    0 <= k,
            ;
            lemma_read_stable(a2, v, aliases + k * word_size(), word_size() as int);
        }
        assert forall|k: int| 0 <= k < strs.len() implies holds_c_str(
            v,
            ptrs[k] as int,
            #[trigger] strs[k],
        ) by {
            lemma_read_stable(a1b, v, ptrs[k] as int, (strs[k].len() + 1) as int);
        }
        assert(holds_pointer_array(v, aliases, ptrs));
    }
    assert forall|i: int| 0 <= i < images.len() implies (#[trigger] images[i]).len() == size by {
        if let HostAddressList::V4(l) = e.addr_list {
            lemma_uint_bytes_len(l@[i] as nat, 4, crate::arena::ByteOrder::Big);
        }
    }
    assert forall|k: int| 0 <= k < images.len() implies covers(v, addrs[k] as int, size) && v.read(
        addrs[k] as int,
        size,
    ) == #[trigger] images[k] by {
        lemma_joined_item(images, size, k);
        lemma_read_sub(a2b, start, joined(images).len() as int, k * size, size);
        assert(0 <= k * size) by (nonlinear_arith)
            requires
                0 <= k,
                0 <= size,
        ;
        assert(addrs[k] as int == start + k * size);
        lemma_read_stable(a2b, v, start + k * size, size);
    }
    assert(holds_pointer_array(v, list, addrs));
}

} // verus!
