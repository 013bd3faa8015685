use cc_alloc::AllocError;
use cc_alloc::Allocator;
use cc_alloc::CellChunkAlloc;
use cc_alloc::ForwardAlloc;
use cc_alloc::Key;

const CHUNK_SPAN: u128 = 1u128 << 32;

fn small_alloc() -> CellChunkAlloc {
    CellChunkAlloc::new(Key::new(100), Key::new(100 + CHUNK_SPAN)).unwrap()
}

#[test]
fn uniqueness_of_allocated_keys() {
    let mut a = small_alloc();
    let mut keys: Vec<u128> = Vec::new();
    for _ in 0..5 {
        keys.push(a.allocate(1).unwrap().value());
    }
    for _ in 0..3 {
        keys.push(a.allocate(7).unwrap().value());
    }
    for i in 0..keys.len() {
        for j in 0..keys.len() {
            if i != j {
                assert_ne!(keys[i], keys[j]);
            }
        }
    }
}

#[test]
fn cell_recycling_returns_same_key() {
    let mut a = small_alloc();
    let k = a.allocate(1).unwrap();
    a.dealloc(k).unwrap();
    let k2 = a.allocate(1).unwrap();
    assert_eq!(k, k2);
}

#[test]
fn chunk_recycling_returns_same_key() {
    let mut a = small_alloc();
    let k = a.allocate(1000).unwrap();
    a.dealloc(k).unwrap();
    let k2 = a.allocate(2).unwrap();
    assert_eq!(k, k2);
}

#[test]
fn cell_round_trip() {
    let a = small_alloc();
    let key = a.cell_index_to_key(7);
    assert_eq!(key.value(), 107);
    assert_eq!(a.key_to_cell_index(key), Ok(7));
}

#[test]
fn cell_round_trip_occupied() {
    let mut a = small_alloc();
    let k0 = a.allocate(1).unwrap();
    let k1 = a.allocate(1).unwrap();
    assert_eq!(a.key_to_cell_index(k0), Ok(0));
    assert_eq!(a.key_to_cell_index(k1), Ok(1));
    assert_eq!(a.cell_index_to_key(0), k0);
    assert_eq!(a.cell_index_to_key(1), k1);
}

#[test]
fn chunk_round_trip() {
    let a = small_alloc();
    let key = a.chunk_index_to_key(5);
    assert_eq!(key.value(), 100 + 6 * CHUNK_SPAN);
    assert_eq!(a.key_to_chunk_index(key), Ok(5));
}

#[test]
fn chunk_round_trip_occupied() {
    let mut a = small_alloc();
    let k0 = a.allocate(4).unwrap();
    let k1 = a.allocate(4).unwrap();
    assert_eq!(a.key_to_chunk_index(k0), Ok(0));
    assert_eq!(a.key_to_chunk_index(k1), Ok(1));
    assert_eq!(a.chunk_index_to_key(0), k0);
    assert_eq!(a.chunk_index_to_key(1), k1);
}

#[test]
fn range_classification() {
    let mut a = small_alloc();
    assert_eq!(a.allocate(1).unwrap().value(), 100);
    assert_eq!(a.allocate(1).unwrap().value(), 101);
    a.dealloc(Key::new(100)).unwrap();
    assert_eq!(a.allocate(1).unwrap().value(), 100);
    assert_eq!(a.allocate(4).unwrap().value(), 100 + CHUNK_SPAN);
}

#[test]
fn boundary_failure_below_cells_offset() {
    let mut a = small_alloc();
    assert_eq!(a.dealloc(Key::new(99)), Err(AllocError::KeyOutOfRange));
}

#[test]
fn double_free_failure_cell() {
    let mut a = small_alloc();
    let k = a.allocate(1).unwrap();
    assert_eq!(a.dealloc(k), Ok(()));
    assert_eq!(a.dealloc(k), Err(AllocError::DoubleFreeOrUnknownKey));
}

#[test]
fn double_free_failure_chunk() {
    let mut a = small_alloc();
    let k = a.allocate(9).unwrap();
    assert_eq!(a.dealloc(k), Ok(()));
    assert_eq!(a.dealloc(k), Err(AllocError::DoubleFreeOrUnknownKey));
}

#[test]
fn unknown_key_failure() {
    let mut a = small_alloc();
    assert_eq!(a.dealloc(Key::new(100)), Err(AllocError::DoubleFreeOrUnknownKey));
    assert_eq!(
        a.dealloc(Key::new(100 + CHUNK_SPAN)),
        Err(AllocError::DoubleFreeOrUnknownKey)
    );
}

#[test]
fn zero_size_failure() {
    let mut a = small_alloc();
    assert_eq!(a.allocate(0), Err(AllocError::ZeroSizeRequest));
}

#[test]
fn index_overflow_cell() {
    // A wide gap between the offsets leaves room for cell-classified keys
    // whose difference does not fit a cell index.
    let mut a = CellChunkAlloc::new(Key::new(0), Key::new(1u128 << 33)).unwrap();
    assert_eq!(
        a.dealloc(Key::new(CHUNK_SPAN)),
        Err(AllocError::IndexOverflow)
    );
    assert_eq!(a.key_to_cell_index(Key::new(CHUNK_SPAN)), Err(AllocError::IndexOverflow));
}

#[test]
fn index_overflow_chunk() {
    let mut a = CellChunkAlloc::new(Key::new(0), Key::new(1u128 << 33)).unwrap();
    let far = Key::new((1u128 << 33) + (1u128 << 65));
    assert_eq!(a.dealloc(far), Err(AllocError::IndexOverflow));
    assert_eq!(a.key_to_chunk_index(far), Err(AllocError::IndexOverflow));
}

#[test]
fn key_conversions_report_out_of_range() {
    let a = small_alloc();
    assert_eq!(a.key_to_cell_index(Key::new(5)), Err(AllocError::KeyOutOfRange));
    assert_eq!(a.key_to_chunk_index(Key::new(150)), Err(AllocError::KeyOutOfRange));
}

#[test]
fn offset_key_getters() {
    let a = small_alloc();
    assert_eq!(a.cells_offset_key(), Key::new(100));
    assert_eq!(a.chunks_offset_key(), Key::new(100 + CHUNK_SPAN));
}

#[test]
fn new_rejects_overlapping_offsets() {
    assert_eq!(
        CellChunkAlloc::new(Key::new(100), Key::new(100)).err(),
        Some(AllocError::KeyOutOfRange)
    );
    assert_eq!(
        CellChunkAlloc::new(Key::new(100), Key::new(99 + CHUNK_SPAN)).err(),
        Some(AllocError::KeyOutOfRange)
    );
    assert!(CellChunkAlloc::new(Key::new(100), Key::new(100 + CHUNK_SPAN)).is_ok());
}

#[test]
fn new_rejects_offsets_near_address_space_end() {
    let too_high = Key::new(u128::MAX - (CHUNK_SPAN * (CHUNK_SPAN - 1)) + 1);
    assert_eq!(
        CellChunkAlloc::new(Key::new(100), too_high).err(),
        Some(AllocError::KeyOutOfRange)
    );
}

#[test]
fn construction_from_forward_allocator() {
    let mut boot = ForwardAlloc::new(Key::new(100));
    let mut a = CellChunkAlloc::new_using_alloc(&mut boot).unwrap();
    assert_eq!(a.cells_offset_key(), Key::new(100));
    assert_eq!(a.chunks_offset_key(), Key::new(100 + CHUNK_SPAN));
    assert_eq!(a.allocate(1).unwrap().value(), 100);
    assert_eq!(a.allocate(2).unwrap().value(), 100 + CHUNK_SPAN);
}

#[test]
fn construction_fails_when_bootstrap_exhausted() {
    let mut boot = ForwardAlloc::new(Key::new(u128::MAX - 5));
    assert_eq!(
        CellChunkAlloc::new_using_alloc(&mut boot).err(),
        Some(AllocError::AddressSpaceExhausted)
    );
}

#[test]
fn forward_allocator_bumps_and_never_reclaims() {
    let mut boot = ForwardAlloc::new(Key::new(1000));
    let k1 = boot.allocate(10).unwrap();
    let k2 = boot.allocate(1).unwrap();
    assert_eq!(k1.value(), 1000);
    assert_eq!(k2.value(), 1010);
    assert_eq!(boot.dealloc(k1), Err(AllocError::DoubleFreeOrUnknownKey));
}

#[test]
fn persistence_round_trip() {
    let mut a = small_alloc();
    let k0 = a.allocate(1).unwrap();
    let _k1 = a.allocate(1).unwrap();
    let _c0 = a.allocate(4).unwrap();
    a.dealloc(k0).unwrap();

    let rebuilt = CellChunkAlloc::from_parts(
        a.cells().occupancy(),
        a.cells().free_stack(),
        a.chunks().occupancy(),
        a.chunks().free_stack(),
        a.cells_offset_key(),
        a.chunks_offset_key(),
    )
    .unwrap();

    let mut orig = a;
    let mut copy = rebuilt;
    // Both continue identically: the freed cell index 0 is reused first.
    assert_eq!(orig.allocate(1), copy.allocate(1));
    assert_eq!(orig.allocate(1), copy.allocate(1));
    assert_eq!(orig.allocate(3), copy.allocate(3));
}

#[test]
fn from_parts_rejects_bad_offsets() {
    let r = CellChunkAlloc::from_parts(
        Vec::new(),
        Vec::new(),
        Vec::new(),
        Vec::new(),
        Key::new(100),
        Key::new(200),
    );
    assert!(r.is_none());
}
