//! A bump allocator over a scratch buffer that the caller owns.
//!
//! The allocator never sees the buffer's memory itself: it knows the
//! buffer's address range and keeps, in `bytes`, the image of every byte it
//! has handed out so far (the range from `base` up to the cursor). Whoever
//! owns the real buffer copies that image into it. Handed-out addresses are
//! therefore real addresses inside the caller's buffer.

use vstd::prelude::*;
use vstd::arithmetic::div_mod::{lemma_fundamental_div_mod, lemma_mod_multiples_basic};
use crate::errors::Error;
use crate::words::{pointer_items, pointer_items_exec, word_align};

verus! {

/// The byte order in which machine words are stored in the buffer.
#[derive(Clone, Copy, Debug, PartialEq, Eq, Structural)]
pub enum ByteOrder {
    Little,
    Big,
}

/// `n` zero bytes.
pub open spec fn zeros(n: nat) -> Seq<u8> {
    Seq::new(n, |i: int| 0u8)
}

/// The smallest multiple of `a` that is at least `p`.
pub open spec fn align_up(p: int, a: int) -> int {
    if p % a == 0 {
        p
    } else {
        p + (a - p % a)
    }
}

/// The byte sequences of `items`, one after the other.
pub open spec fn joined(items: Seq<Seq<u8>>) -> Seq<u8>
    decreases items.len(),
{
    if items.len() == 0 {
        Seq::empty()
    } else {
        joined(items.drop_last()) + items.last()
    }
}

/// The contents of each vector.
pub open spec fn contents(items: Seq<Vec<u8>>) -> Seq<Seq<u8>> {
    items.map_values(|v: Vec<u8>| v@)
}

/// The abstract state of a `BumpAllocator`.
pub struct ArenaView {
    /// Address of the first byte of the buffer.
    pub base: int,
    /// Address of the first unused byte.
    pub point: int,
    /// Address one past the end of the buffer.
    pub stop: int,
    /// How machine words are laid out in memory.
    pub order: ByteOrder,
    /// The bytes from `base` up to `point`.
    pub bytes: Seq<u8>,
}

impl ArenaView {
    pub open spec fn fresh(base: int, len: int, order: ByteOrder) -> ArenaView {
        ArenaView { base, point: base, stop: base + len, order, bytes: Seq::empty() }
    }

    /// `base <= point <= stop` inside the address space, and the image covers
    /// exactly the used part of the buffer.
    pub open spec fn wf(self) -> bool {
        &&& 0 <= self.base <= self.point <= self.stop <= usize::MAX
        &&& self.bytes.len() == self.point - self.base
    }

    /// Bytes still free.
    pub open spec fn room(self) -> int {
        self.stop - self.point
    }

    /// The state after `data` is appended at the cursor.
    pub open spec fn pushed(self, data: Seq<u8>) -> ArenaView {
        ArenaView {
            base: self.base,
            point: self.point + data.len(),
            stop: self.stop,
            order: self.order,
            bytes: self.bytes + data,
        }
    }

    /// The state after the cursor is padded up to a multiple of `a`, if the
    /// padded cursor is still inside the buffer.
    pub open spec fn aligned(self, a: int) -> Option<ArenaView> {
        let p = align_up(self.point, a);
        if p <= self.stop {
            Some(self.pushed(zeros((p - self.point) as nat)))
        } else {
            None
        }
    }

    /// Places `data` at the cursor: its address and the state after, if it
    /// fits.
    pub open spec fn placed(self, data: Seq<u8>) -> Option<(int, ArenaView)> {
        if data.len() <= self.room() {
            Some((self.point, self.pushed(data)))
        } else {
            None
        }
    }

    /// Places `data` at the first multiple of `a` at or after the cursor.
    pub open spec fn placed_aligned(self, data: Seq<u8>, a: int) -> Option<(int, ArenaView)> {
        match self.aligned(a) {
            Some(v) => v.placed(data),
            None => None,
        }
    }

    /// The `len` bytes of the image at address `addr`.
    pub open spec fn read(self, addr: int, len: int) -> Seq<u8> {
        self.bytes.subrange(addr - self.base, addr - self.base + len)
    }
}

/// `align_up` is a multiple of `a` less than `a` past `p`.
pub proof fn lemma_align_up(p: int, a: int)
    requires
        p >= 0,
        a > 0,
    ensures
        align_up(p, a) % a == 0,
        p <= align_up(p, a) < p + a,
{
    lemma_fundamental_div_mod(p, a);
    if p % a != 0 {
        assert(align_up(p, a) == (p / a + 1) * a) by (nonlinear_arith)
            requires
                p == a * (p / a) + p % a,
                align_up(p, a) == p + (a - p % a),
        ;
        lemma_mod_multiples_basic(p / a + 1, a);
    }
}

/// The sequences of a prefix of `items` are part of `joined(items)`.
proof fn lemma_joined_prefix(items: Seq<Seq<u8>>, i: int)
    requires
        0 <= i < items.len(),
    ensures
        joined(items.take(i + 1)) == joined(items.take(i)) + items[i],
        joined(items.take(i)).len() + items[i].len() <= joined(items).len(),
    decreases items.len(),
{
    assert(items.take(i + 1).drop_last() =~= items.take(i));
    if i < items.len() - 1 {
        lemma_joined_prefix(items.drop_last(), i);
        assert(items.drop_last().take(i) =~= items.take(i));
        assert(items.drop_last().take(i + 1) =~= items.take(i + 1));
    } else {
        assert(items.take(i + 1) =~= items);
    }
}

/// Items of equal length `size` join to `size` bytes per item.
pub proof fn lemma_joined_uniform(items: Seq<Seq<u8>>, size: int)
    requires
        size >= 0,
        forall|i: int| 0 <= i < items.len() ==> (#[trigger] items[i]).len() == size,
    ensures
        joined(items).len() == items.len() * size,
    decreases items.len(),
{
    if items.len() > 0 {
        lemma_joined_uniform(items.drop_last(), size);
        assert(items.len() * size == (items.len() - 1) * size + size) by (nonlinear_arith);
    }
}

/// The failure of a request that does not fit in the buffer.
fn out_of_room<T>() -> (r: Result<T, Error>)
    ensures
        r matches Err(e) && e@ == Error::spec_buffer_too_small(),
{
    Err(Error::buffer_too_small())
}

/// A bump allocator: it hands out consecutive, aligned pieces of one buffer
/// and never frees them.
pub struct BumpAllocator {
    base: usize,
    point: usize,
    stop: usize,
    order: ByteOrder,
    bytes: Vec<u8>,
}

impl View for BumpAllocator {
    type V = ArenaView;

    closed spec fn view(&self) -> ArenaView {
        ArenaView {
            base: self.base as int,
            point: self.point as int,
            stop: self.stop as int,
            order: self.order,
            bytes: self.bytes@,
        }
    }
}

impl BumpAllocator {
    /// An allocator over the `len` bytes at address `base`.
    pub fn new(base: usize, len: usize, order: ByteOrder) -> (r: BumpAllocator)
        requires
            base + len <= usize::MAX,
        ensures
            r@ == ArenaView::fresh(base as int, len as int, order),
            r@.wf(),
    {
        BumpAllocator { base, point: base, stop: base + len, order, bytes: Vec::new() }
    }

    /// An allocator over the `buflen` bytes at address `base`, as handed over
    /// by a foreign caller; refused when the range does not fit in the
    /// address space or is larger than any object can be.
    pub fn from_ptr(base: usize, buflen: usize, order: ByteOrder) -> (r: Result<
        BumpAllocator,
        Error,
    >)
        ensures
            r is Err <==> (buflen > isize::MAX || base + buflen > usize::MAX),
            r matches Err(e) ==> e@ == Error::spec_invalid_args(),
            r matches Ok(a) ==> a@ == ArenaView::fresh(base as int, buflen as int, order) && a@.wf(),
    {
        if buflen > isize::MAX as usize || buflen > usize::MAX - base {
            return Err(Error::invalid_args());
        }
        Ok(BumpAllocator::new(base, buflen, order))
    }

    /// Address of the first byte of the buffer.
    pub fn base(&self) -> (r: usize)
        ensures
            r == self@.base,
    {
        self.base
    }

    /// Address of the first unused byte.
    pub fn point(&self) -> (r: usize)
        ensures
            r == self@.point,
    {
        self.point
    }

    /// Address one past the end of the buffer.
    pub fn stop(&self) -> (r: usize)
        ensures
            r == self@.stop,
    {
        self.stop
    }

    pub fn order(&self) -> (r: ByteOrder)
        ensures
            r == self@.order,
    {
        self.order
    }

    /// The image of the used part of the buffer, starting at `base`.
    pub fn bytes(&self) -> (r: &Vec<u8>)
        ensures
            r@ == self@.bytes,
    {
        &self.bytes
    }

    /// Consumes the allocator and hands back the image of the used part.
    pub fn into_bytes(self) -> (r: Vec<u8>)
        ensures
            r@ == self@.bytes,
    {
        self.bytes
    }

    /// Appends `n` zero bytes at the cursor.
    fn fill_zeros(&mut self, n: usize)
        requires
            old(self)@.wf(),
            n <= old(self)@.room(),
        ensures
            final(self)@ == old(self)@.pushed(zeros(n as nat)),
            final(self)@.wf(),
    {
        let ghost v0 = self@;
        let mut i: usize = 0;
        while i < n
            invariant
                i <= n,
                n <= v0.room(),
                v0.wf(),
                self@ == v0.pushed(zeros(i as nat)),
            decreases n - i,
        {
            self.bytes.push(0u8);
            self.point = self.point + 1;
            i = i + 1;
            assert(self@.bytes =~= v0.bytes + zeros(i as nat));
        }
    }

    /// Appends `data` at the cursor.
    fn append(&mut self, data: &[u8])
        requires
            old(self)@.wf(),
            data@.len() <= old(self)@.room(),
        ensures
            final(self)@ == old(self)@.pushed(data@),
            final(self)@.wf(),
    {
        let ghost v0 = self@;
        let mut i: usize = 0;
        while i < data.len()
            invariant
                i <= data@.len(),
                data@.len() <= v0.room(),
                v0.wf(),
                self@ == v0.pushed(data@.take(i as int)),
            decreases data@.len() - i,
        {
            self.bytes.push(data[i]);
            self.point = self.point + 1;
            i = i + 1;
            assert(self@.bytes =~= v0.bytes + data@.take(i as int));
        }
        assert(data@.take(data@.len() as int) =~= data@);
    }

    /// Moves the cursor up to the next multiple of `alignment`, padding with
    /// zero bytes. Fails, with the cursor unchanged, when that multiple lies
    /// past the end of the buffer.
    fn align_to_multiple_of(&mut self, alignment: usize) -> (r: Result<(), Error>)
        requires
            old(self)@.wf(),
            alignment > 0,
        ensures
            final(self)@.wf(),
            match old(self)@.aligned(alignment as int) {
                Some(v) => r is Ok && final(self)@ == v,
                None => r matches Err(e) && e@ == Error::spec_buffer_too_small()
                    && final(self)@ == old(self)@,
            },
    {
        proof {
            lemma_align_up(self.point as int, alignment as int);
        }
        let rem = self.point % alignment;
        let pad = if rem == 0 {
            0
        } else {
            alignment - rem
        };
        if pad > self.stop - self.point {
            return out_of_room();
        }
        self.fill_zeros(pad);
        Ok(())
    }

    /// Like `align_to_multiple_of`, with nothing to do for alignment 1.
    fn align_to(&mut self, alignment: usize) -> (r: Result<(), Error>)
        requires
            old(self)@.wf(),
            alignment > 0,
        ensures
            final(self)@.wf(),
            match old(self)@.aligned(alignment as int) {
                Some(v) => r is Ok && final(self)@ == v,
                None => r matches Err(e) && e@ == Error::spec_buffer_too_small()
                    && final(self)@ == old(self)@,
            },
    {
        if alignment == 1 {
            assert(self@.pushed(zeros(0)) =~= self@);
            Ok(())
        } else {
            self.align_to_multiple_of(alignment)
        }
    }

    /// Reserves `nbytes` zeroed bytes at the cursor and returns their address.
    /// Fails, with the cursor unchanged, when fewer than `nbytes` bytes are
    /// left.
    pub fn take(&mut self, nbytes: usize) -> (r: Result<usize, Error>)
        requires
            old(self)@.wf(),
        ensures
            final(self)@.wf(),
            match old(self)@.placed(zeros(nbytes as nat)) {
                Some((addr, v)) => r == Ok::<usize, Error>(addr as usize) && final(self)@ == v,
                None => r matches Err(e) && e@ == Error::spec_buffer_too_small()
                    && final(self)@ == old(self)@,
            },
            r is Err <==> nbytes > old(self)@.room(),
    {
        if self.stop - self.point < nbytes {
            return out_of_room();
        }
        let p = self.point;
        self.fill_zeros(nbytes);
        Ok(p)
    }

    /// Reserves `size` zeroed bytes at the first multiple of `align` at or
    /// after the cursor, and returns their address. Fails, with the cursor
    /// unchanged, when they do not fit.
    pub fn reserve_aligned(&mut self, size: usize, align: usize) -> (r: Result<usize, Error>)
        requires
            old(self)@.wf(),
            align > 0,
        ensures
            final(self)@.wf(),
            match old(self)@.placed_aligned(zeros(size as nat), align as int) {
                Some((addr, v)) => r == Ok::<usize, Error>(addr as usize) && final(self)@ == v,
                None => r matches Err(e) && e@ == Error::spec_buffer_too_small()
                    && final(self)@ == old(self)@,
            },
            r matches Ok(addr) ==> addr % align == 0,
    {
        proof {
            lemma_align_up(self.point as int, align as int);
        }
        let rem = self.point % align;
        let pad = if rem == 0 {
            0
        } else {
            align - rem
        };
        let room = self.stop - self.point;
        if pad > room || size > room - pad {
            return out_of_room();
        }
        self.fill_zeros(pad);
        let p = self.point;
        self.fill_zeros(size);
        Ok(p)
    }

    /// Stores the value whose in-memory image is `value` at the first
    /// multiple of `align` at or after the cursor, and returns its address.
    /// Fails, with the cursor unchanged, when it does not fit.
    pub fn allocate(&mut self, value: &[u8], align: usize) -> (r: Result<usize, Error>)
        requires
            old(self)@.wf(),
            align > 0,
        ensures
            final(self)@.wf(),
            match old(self)@.placed_aligned(value@, align as int) {
                Some((addr, v)) => r == Ok::<usize, Error>(addr as usize) && final(self)@ == v,
                None => r matches Err(e) && e@ == Error::spec_buffer_too_small()
                    && final(self)@ == old(self)@,
            },
            r matches Ok(addr) ==> addr % align == 0,
    {
        proof {
            lemma_align_up(self.point as int, align as int);
        }
        let rem = self.point % align;
        let pad = if rem == 0 {
            0
        } else {
            align - rem
        };
        let room = self.stop - self.point;
        if pad > room || value.len() > room - pad {
            return out_of_room();
        }
        self.fill_zeros(pad);
        let p = self.point;
        self.append(value);
        Ok(p)
    }

    /// Stores the images in `items` one after the other, starting at the
    /// first multiple of `align` at or after the cursor, and returns the
    /// address of the first. Fails when they do not all fit; the items
    /// stored before the one that did not fit stay in the buffer.
    pub fn allocate_array(&mut self, items: &Vec<Vec<u8>>, align: usize) -> (r: Result<
        usize,
        Error,
    >)
        requires
            old(self)@.wf(),
            align > 0,
        ensures
            final(self)@.wf(),
            match old(self)@.placed_aligned(joined(contents(items@)), align as int) {
                Some((addr, v)) => r == Ok::<usize, Error>(addr as usize) && final(self)@ == v,
                None => r matches Err(e) && e@ == Error::spec_buffer_too_small(),
            },
            r matches Ok(addr) ==> addr % align == 0,
            final(self)@.base == old(self)@.base,
            final(self)@.stop == old(self)@.stop,
            final(self)@.order == old(self)@.order,
            old(self)@.bytes.is_prefix_of(final(self)@.bytes),
    {
        proof {
            lemma_align_up(self.point as int, align as int);
        }
        let ghost v_in = self@;
        match self.align_to(align) {
            Ok(()) => {},
            Err(e) => {
                assert(v_in.bytes.is_prefix_of(self@.bytes));
                return Err(e);
            },
        }
        let start = self.point;
        let ghost v0 = self@;
        let ghost all = contents(items@);
        let mut i: usize = 0;
        while i < items.len()
            invariant
                i <= items@.len(),
                all == contents(items@),
                v0.wf(),
                v_in == old(self)@,
                align > 0,
                v_in.aligned(align as int) == Some(v0),
                v_in.bytes.is_prefix_of(v0.bytes),
                self@ == v0.pushed(joined(all.take(i as int))),
                self@.wf(),
            decreases items@.len() - i,
        {
            proof {
                lemma_joined_prefix(all, i as int);
            }
            assert(all[i as int] == items@[i as int]@);
            if items[i].len() > self.stop - self.point {
                assert(v_in.bytes.is_prefix_of(self@.bytes));
                return out_of_room();
            }
            self.append(items[i].as_slice());
            i = i + 1;
            assert(self@.bytes =~= v0.bytes + joined(all.take(i as int)));
        }
        assert(all.take(items@.len() as int) =~= all);
        assert(v_in.bytes.is_prefix_of(self@.bytes));
        Ok(start)
    }

    /// Copies `s` followed by a terminating zero byte to the cursor, as one
    /// reservation, and returns the address of the copy. Fails, with the
    /// cursor unchanged, when the copy does not fit.
    pub fn copy_c_str(&mut self, s: &[u8]) -> (r: Result<usize, Error>)
        requires
            old(self)@.wf(),
        ensures
            final(self)@.wf(),
            match old(self)@.placed(s@.push(0u8)) {
                Some((addr, v)) => r == Ok::<usize, Error>(addr as usize) && final(self)@ == v,
                None => r matches Err(e) && e@ == Error::spec_buffer_too_small()
                    && final(self)@ == old(self)@,
            },
    {
        if s.len() >= self.stop - self.point {
            return out_of_room();
        }
        let p = self.point;
        self.append(s);
        self.fill_zeros(1);
        assert(self@.bytes =~= old(self)@.bytes + s@.push(0u8));
        Ok(p)
    }

    /// Stores the words of `ptrs` followed by a null word as one array aligned
    /// for pointers, and returns the address of the array. Fails when the
    /// array does not fit.
    pub fn allocate_pointer_array(&mut self, ptrs: &Vec<usize>) -> (r: Result<usize, Error>)
        requires
            old(self)@.wf(),
        ensures
            final(self)@.wf(),
            match old(self)@.placed_aligned(
                joined(pointer_items(ptrs@, old(self)@.order)),
                word_align() as int,
            ) {
                Some((addr, v)) => r == Ok::<usize, Error>(addr as usize) && final(self)@ == v,
                None => r matches Err(e) && e@ == Error::spec_buffer_too_small(),
            },
            r matches Ok(addr) ==> addr as int % word_align() as int == 0,
            final(self)@.base == old(self)@.base,
            final(self)@.stop == old(self)@.stop,
            final(self)@.order == old(self)@.order,
            old(self)@.bytes.is_prefix_of(final(self)@.bytes),
    {
        let items = pointer_items_exec(ptrs, self.order);
        vstd::layout::layout_for_type_is_valid::<usize>();
        let align = core::mem::align_of::<usize>();
        self.allocate_array(&items, align)
    }
}

} // verus!
