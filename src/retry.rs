//! Encoding does not depend on how much of the buffer is left over: a larger
//! buffer at the same address yields the very same record and image.

use vstd::prelude::*;
use crate::arena::{contents, joined, ArenaView, ByteOrder};
use crate::errors::Error;
use crate::glue::{
    address_images, address_size, copied_strs, element_addrs, encoded, encoded_aliases,
    lookup_reply, placed_pointer_array, ADDR_ALIGN,
};
use crate::interfaces::HostEntry;
use crate::words::{pointer_items, word_align};

verus! {

/// `b` is `a` over a buffer that ends no earlier.
pub open spec fn same_but_larger(a: ArenaView, b: ArenaView) -> bool {
    &&& a.base == b.base
    &&& a.point == b.point
    &&& a.order == b.order
    &&& a.bytes == b.bytes
    &&& a.stop <= b.stop
}

proof fn lemma_placed_larger(a: ArenaView, b: ArenaView, d: Seq<u8>)
    requires
        same_but_larger(a, b),
        a.placed(d) is Some,
    ensures
        b.placed(d) is Some,
        b.placed(d)->Some_0.0 == a.placed(d)->Some_0.0,
        same_but_larger(a.placed(d)->Some_0.1, b.placed(d)->Some_0.1),
{
}

proof fn lemma_placed_aligned_larger(a: ArenaView, b: ArenaView, d: Seq<u8>, al: int)
    requires
        same_but_larger(a, b),
        a.placed_aligned(d, al) is Some,
    ensures
        b.placed_aligned(d, al) is Some,
        b.placed_aligned(d, al)->Some_0.0 == a.placed_aligned(d, al)->Some_0.0,
        same_but_larger(a.placed_aligned(d, al)->Some_0.1, b.placed_aligned(d, al)->Some_0.1),
{
    lemma_placed_larger(a.aligned(al)->Some_0, b.aligned(al)->Some_0, d);
}

proof fn lemma_copied_strs_larger(a: ArenaView, b: ArenaView, strs: Seq<Seq<u8>>)
    requires
        same_but_larger(a, b),
        copied_strs(a, strs) is Some,
    ensures
        copied_strs(b, strs) is Some,
        copied_strs(b, strs)->Some_0.0 == copied_strs(a, strs)->Some_0.0,
        same_but_larger(copied_strs(a, strs)->Some_0.1, copied_strs(b, strs)->Some_0.1),
    decreases strs.len(),
{
    if strs.len() > 0 {
        lemma_copied_strs_larger(a, b, strs.drop_last());
        lemma_placed_larger(
            copied_strs(a, strs.drop_last())->Some_0.1,
            copied_strs(b, strs.drop_last())->Some_0.1,
            strs.last().push(0u8),
        );
    }
}

proof fn lemma_pointer_array_larger(a: ArenaView, b: ArenaView, ptrs: Seq<usize>)
    requires
        same_but_larger(a, b),
        placed_pointer_array(a, ptrs) is Some,
    ensures
        placed_pointer_array(b, ptrs) is Some,
        placed_pointer_array(b, ptrs)->Some_0.0 == placed_pointer_array(a, ptrs)->Some_0.0,
        same_but_larger(placed_pointer_array(a, ptrs)->Some_0.1, placed_pointer_array(b, ptrs)->Some_0.1),
{
    lemma_placed_aligned_larger(a, b, joined(pointer_items(ptrs, a.order)), word_align() as int);
}

proof fn lemma_encoded_larger(e: HostEntry, a: ArenaView, b: ArenaView)
    requires
        same_but_larger(a, b),
        encoded(e, a) is Some,
    ensures
        encoded(e, b) is Some,
        encoded(e, b)->Some_0.0 == encoded(e, a)->Some_0.0,
        same_but_larger(encoded(e, a)->Some_0.1, encoded(e, b)->Some_0.1),
{
    let name_s = e.name@.push(0u8);
    lemma_placed_larger(a, b, name_s);
    let a1 = a.placed(name_s)->Some_0.1;
    let b1 = b.placed(name_s)->Some_0.1;
    let strs = contents(e.aliases@);
    if strs.len() > 0 {
        lemma_copied_strs_larger(a1, b1, strs);
        lemma_pointer_array_larger(
            copied_strs(a1, strs)->Some_0.1,
            copied_strs(b1, strs)->Some_0.1,
            copied_strs(a1, strs)->Some_0.0,
        );
    }
    let a2 = encoded_aliases(a1, strs)->Some_0.1;
    let b2 = encoded_aliases(b1, strs)->Some_0.1;
    let images = address_images(e.addr_list);
    lemma_placed_aligned_larger(a2, b2, joined(images), ADDR_ALIGN as int);
    let start = a2.placed_aligned(joined(images), ADDR_ALIGN as int)->Some_0.0;
    lemma_pointer_array_larger(
        a2.placed_aligned(joined(images), ADDR_ALIGN as int)->Some_0.1,
        b2.placed_aligned(joined(images), ADDR_ALIGN as int)->Some_0.1,
        element_addrs(start, images.len() as int, address_size(e.addr_list)),
    );
}

/// The same entry, encoded into fresh buffers at the same address, yields
/// byte-identical records and buffer contents, whatever the sizes of the
/// buffers, as long as the smaller one is large enough: no state carries
/// over from one call to the next, and a caller told to try again with a
/// larger buffer gets the record the smaller one could not hold.
pub proof fn lemma_larger_buffer_same_reply(
    e: HostEntry,
    base: usize,
    n1: usize,
    n2: usize,
    order: ByteOrder,
)
    requires
        n1 <= n2 <= isize::MAX,
        base + n2 <= usize::MAX,
        lookup_reply(Ok::<Option<HostEntry>, Error>(Some(e)), base, n1, order) is Found,
    ensures
        lookup_reply(Ok::<Option<HostEntry>, Error>(Some(e)), base, n2, order) == lookup_reply(
            Ok::<Option<HostEntry>, Error>(Some(e)),
            base,
            n1,
            order,
        ),
{
    let a = ArenaView::fresh(base as int, n1 as int, order);
    let b = ArenaView::fresh(base as int, n2 as int, order);
    lemma_encoded_larger(e, a, b);
}

} // verus!
