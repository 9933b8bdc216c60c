//! In-memory images of unsigned integers and of machine words.

use vstd::prelude::*;
use crate::arena::ByteOrder;

verus! {

/// The `n` low-order bytes of `x`, least significant first.
pub open spec fn le_bytes(x: nat, n: nat) -> Seq<u8>
    decreases n,
{
    if n == 0 {
        Seq::empty()
    } else {
        seq![(x % 256) as u8] + le_bytes(x / 256, (n - 1) as nat)
    }
}

/// The `n` low-order bytes of `x`, in the given byte order.
pub open spec fn uint_bytes(x: nat, n: nat, order: ByteOrder) -> Seq<u8> {
    match order {
        ByteOrder::Little => le_bytes(x, n),
        ByteOrder::Big => le_bytes(x, n).reverse(),
    }
}

/// Size of a machine word (and of a pointer), in bytes.
pub open spec fn word_size() -> nat {
    vstd::layout::size_of::<usize>()
}

/// Alignment of a machine word (and of a pointer).
pub open spec fn word_align() -> nat {
    vstd::layout::align_of::<usize>()
}

/// The in-memory image of the machine word `x`.
pub open spec fn word_image(x: usize, order: ByteOrder) -> Seq<u8> {
    uint_bytes(x as nat, word_size(), order)
}

/// The images of the words of `ptrs` followed by a null word, one per item.
pub open spec fn pointer_items(ptrs: Seq<usize>, order: ByteOrder) -> Seq<Seq<u8>> {
    ptrs.push(0usize).map_values(|p: usize| word_image(p, order))
}

/// `le_bytes(x, n)` has `n` bytes, in either order.
pub proof fn lemma_uint_bytes_len(x: nat, n: nat, order: ByteOrder)
    ensures
        le_bytes(x, n).len() == n,
        uint_bytes(x, n, order).len() == n,
    decreases n,
{
    if n > 0 {
        lemma_uint_bytes_len(x / 256, (n - 1) as nat, order);
    }
}

/// The image of `s` reversed.
fn reversed(s: &Vec<u8>) -> (r: Vec<u8>)
    ensures
        r@ == s@.reverse(),
{
    let mut out: Vec<u8> = Vec::new();
    let mut j: usize = s.len();
    while j > 0
        invariant
            j <= s@.len(),
            out@.len() == s@.len() - j,
            forall|k: int| 0 <= k < out@.len() ==> out@[k] == s@[s@.len() - 1 - k],
        decreases j,
    {
        j = j - 1;
        out.push(s[j]);
    }
    assert(out@ =~= s@.reverse());
    out
}

/// The `width` low-order bytes of `x`, in the given byte order.
pub fn encode_uint(x: u64, width: usize, order: ByteOrder) -> (r: Vec<u8>)
    ensures
        r@ == uint_bytes(x as nat, width as nat, order),
{
    let mut le: Vec<u8> = Vec::new();
    let mut v: u64 = x;
    let mut i: usize = 0;
    while i < width
        invariant
            i <= width,
            le@ + le_bytes(v as nat, (width - i) as nat) == le_bytes(x as nat, width as nat),
        decreases width - i,
    {
        let ghost before = le@;
        le.push((v % 256) as u8);
        assert(before + le_bytes(v as nat, (width - i) as nat) =~= le@ + le_bytes(
            (v / 256) as nat,
            (width - i - 1) as nat,
        ));
        v = v / 256;
        i = i + 1;
    }
    assert(le@ + le_bytes(v as nat, 0) =~= le@);
    match order {
        ByteOrder::Little => le,
        ByteOrder::Big => reversed(&le),
    }
}

/// The size of a machine word, which is at most eight bytes.
pub fn word_size_exec() -> (r: usize)
    ensures
        r == word_size(),
        r == 4 || r == 8,
{
    broadcast use vstd::layout::layout_of_primitives;

    core::mem::size_of::<usize>()
}

/// The images of the words of `ptrs` followed by a null word.
pub fn pointer_items_exec(ptrs: &Vec<usize>, order: ByteOrder) -> (r: Vec<Vec<u8>>)
    ensures
        crate::arena::contents(r@) == pointer_items(ptrs@, order),
{
    let w = word_size_exec();
    let ghost want = pointer_items(ptrs@, order);
    let mut out: Vec<Vec<u8>> = Vec::new();
    let mut i: usize = 0;
    while i < ptrs.len()
        invariant
            i <= ptrs@.len(),
            w == word_size(),
            w <= 8,
            want == pointer_items(ptrs@, order),
            out@.len() == i,
            forall|k: int| 0 <= k < i ==> (#[trigger] out@[k])@ == want[k],
        decreases ptrs@.len() - i,
    {
        let item = encode_uint(ptrs[i] as u64, w, order);
        assert(item@ == want[i as int]);
        out.push(item);
        i = i + 1;
    }
    let null = encode_uint(0, w, order);
    assert(null@ == want[ptrs@.len() as int]);
    out.push(null);
    assert(crate::arena::contents(out@) =~= want);
    out
}

} // verus!
