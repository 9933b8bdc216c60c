use nsswitch_service::{BumpAllocator, ByteOrder, NssStatus};
use std::mem;

fn c_str_at(a: &BumpAllocator, addr: usize) -> String {
    let start = addr - a.base();
    let bytes = &a.bytes()[start..];
    let end = bytes.iter().position(|b| *b == 0).unwrap();
    String::from_utf8(bytes[..end].to_vec()).unwrap()
}

#[test]
fn test_alloc() {
    let buf = [0_u64; 2];

    // Find a slice of buf that is aligned to an 8-byte boundary.
    let addr = buf.as_ptr() as usize;
    let offset = (8 - addr % 8) % 8;
    assert!((addr + offset) % 8 == 0);

    let mut a = BumpAllocator::new(addr + offset, 8, ByteOrder::Little);

    let r = a.allocate(&0x12345678_u32.to_ne_bytes(), mem::align_of::<u32>()).unwrap();
    let at = r - a.base();
    assert_eq!(a.bytes()[at..at + 4], 0x12345678u32.to_ne_bytes());
    assert_eq!(r % mem::align_of::<u32>(), 0);

    let r = a.allocate(&[0xfe_u8], 1).unwrap();
    assert_eq!(a.bytes()[r - a.base()], 0xfe_u8);

    let r = a.allocate(&0xabcd_u16.to_ne_bytes(), mem::align_of::<u16>()).unwrap();
    let at = r - a.base();
    assert_eq!(a.bytes()[at..at + 2], 0xabcd_u16.to_ne_bytes());
    assert_eq!(r % mem::align_of::<u16>(), 0);

    assert!(a.allocate(&[0xef_u8], 1).is_err());
    assert!(a.allocate(&[0_u8], 1).is_err());

    assert_eq!((a.bytes()[4], offset), (0xfe, 0));
}

#[test]
fn test_copy_c_str() {
    let mut a = BumpAllocator::new(0x1000, 100, ByteOrder::Little);

    let copy1 = a.copy_c_str(b"hello world").unwrap();
    assert_eq!(c_str_at(&a, copy1), "hello world");

    let copy2 = a.copy_c_str(b"Jello squirreled").unwrap();
    assert_eq!(c_str_at(&a, copy2), "Jello squirreled");

    assert_eq!(c_str_at(&a, copy1), "hello world");
}

#[test]
fn copy_c_str_is_one_reservation() {
    let mut a = BumpAllocator::new(0x1000, 12, ByteOrder::Little);
    let p = a.copy_c_str(b"hello world").unwrap();
    assert_eq!(p, 0x1000);
    assert_eq!(a.point(), 0x1000 + 12);
    assert_eq!(a.bytes()[11], 0);
    assert!(a.copy_c_str(b"").is_err());
}

#[test]
fn copy_c_str_that_does_not_fit_leaves_cursor() {
    let mut a = BumpAllocator::new(0x1000, 5, ByteOrder::Little);
    let e = a.copy_c_str(b"hello").unwrap_err();
    assert_eq!(e.status(), NssStatus::TryAgain);
    assert_eq!(a.point(), 0x1000);
    assert!(a.bytes().is_empty());
}

#[test]
fn placement_is_aligned() {
    for align in [1_usize, 2, 4, 8, 16, 64] {
        let mut a = BumpAllocator::new(0x1001, 256, ByteOrder::Little);
        a.take(3).unwrap();
        let r = a.reserve_aligned(5, align).unwrap();
        assert_eq!(r % align, 0);
        assert!(r >= 0x1004);
        assert!(r < 0x1004 + align);
        assert_eq!(a.point(), r + 5);
        let v = a.allocate(&[1, 2, 3], align).unwrap();
        assert_eq!(v % align, 0);
    }
}

#[test]
fn alignment_padding_is_zero_filled() {
    let mut a = BumpAllocator::new(0x2000, 32, ByteOrder::Little);
    a.allocate(&[0xaa], 1).unwrap();
    let r = a.allocate(&[0xbb, 0xcc], 8).unwrap();
    assert_eq!(r, 0x2008);
    assert_eq!(a.bytes().to_vec(), vec![0xaa, 0, 0, 0, 0, 0, 0, 0, 0xbb, 0xcc]);
}

#[test]
fn overflowing_range_is_invalid_args() {
    let e = BumpAllocator::from_ptr(usize::MAX - 3, 8, ByteOrder::Little).err().unwrap();
    let p = e.parts();
    assert_eq!(p.status, NssStatus::Unavailable);
    assert_eq!(p.errno, 22);
    assert_eq!(p.h_errno, -1);

    assert!(BumpAllocator::from_ptr(0x1000, isize::MAX as usize + 1, ByteOrder::Little).is_err());
    assert!(BumpAllocator::from_ptr(usize::MAX, 1, ByteOrder::Little).is_err());

    let a = BumpAllocator::from_ptr(usize::MAX - 8, 8, ByteOrder::Little).unwrap();
    assert_eq!(a.base(), usize::MAX - 8);
    assert_eq!(a.stop(), usize::MAX);
    let a = BumpAllocator::from_ptr(0x1000, 0, ByteOrder::Big).unwrap();
    assert_eq!(a.point(), a.stop());
}

#[test]
fn take_more_than_remains_leaves_cursor() {
    let mut a = BumpAllocator::new(0x1000, 10, ByteOrder::Little);
    assert_eq!(a.take(4).unwrap(), 0x1000);
    let e = a.take(7).unwrap_err();
    assert_eq!(e.status(), NssStatus::TryAgain);
    assert_eq!(e.parts().errno, 34);
    assert_eq!(a.point(), 0x1004);
    assert_eq!(a.bytes().len(), 4);
    assert_eq!(a.take(6).unwrap(), 0x1004);
    assert_eq!(a.point(), a.stop());
    assert!(a.take(1).is_err());
    assert_eq!(a.take(0).unwrap(), 0x100a);
}

#[test]
fn aligned_request_that_does_not_fit_leaves_cursor() {
    let mut a = BumpAllocator::new(0x1001, 8, ByteOrder::Little);
    assert!(a.reserve_aligned(2, 8).is_err());
    assert_eq!(a.point(), 0x1001);
    assert!(a.allocate(&[1, 2, 3, 4, 5, 6, 7, 8], 1).is_ok());
    assert!(a.allocate(&[1], 1).is_err());
}

#[test]
fn array_items_are_consecutive() {
    let mut a = BumpAllocator::new(0x3001, 64, ByteOrder::Little);
    let items = vec![vec![1, 2, 3, 4], vec![5, 6, 7, 8]];
    let r = a.allocate_array(&items, 4).unwrap();
    assert_eq!(r, 0x3004);
    let at = r - a.base();
    assert_eq!(a.bytes()[at..at + 8], [1, 2, 3, 4, 5, 6, 7, 8]);
}

#[test]
fn array_that_does_not_fit_keeps_earlier_items() {
    let mut a = BumpAllocator::new(0x3000, 6, ByteOrder::Little);
    let items = vec![vec![1, 2, 3, 4], vec![5, 6, 7, 8]];
    assert!(a.allocate_array(&items, 4).is_err());
    assert_eq!(a.bytes().to_vec(), vec![1, 2, 3, 4]);
}

#[test]
fn pointer_array_is_null_terminated() {
    let w = mem::size_of::<usize>();
    let mut a = BumpAllocator::new(0x4000, 64, ByteOrder::Big);
    let r = a.allocate_pointer_array(&vec![0x1234, 0x5678]).unwrap();
    assert_eq!(r % mem::align_of::<usize>(), 0);
    let at = r - a.base();
    let word = |k: usize| {
        let mut b = [0_u8; 8];
        b[8 - w..].copy_from_slice(&a.bytes()[at + k * w..at + (k + 1) * w]);
        u64::from_be_bytes(b)
    };
    assert_eq!(word(0), 0x1234);
    assert_eq!(word(1), 0x5678);
    assert_eq!(word(2), 0);
    assert_eq!(a.bytes().len(), at + 3 * w);
}
