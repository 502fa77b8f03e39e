use transfer::chunk::{all_chunks, chunk_count, chunk_offset, CHUNK_SIZE, MAX_CHUNK_INDEX};

#[test]
fn chunk_count_rounds_up() {
    assert_eq!(chunk_count(0), 0);
    assert_eq!(chunk_count(1), 1);
    assert_eq!(chunk_count(1023), 1);
    assert_eq!(chunk_count(1024), 1);
    assert_eq!(chunk_count(1025), 2);
    assert_eq!(chunk_count(2048), 2);
    assert_eq!(chunk_count(2049), 3);
}

#[test]
fn chunk_count_of_largest_file() {
    assert_eq!(chunk_count(u64::MAX), MAX_CHUNK_INDEX + 1);
    assert_eq!(MAX_CHUNK_INDEX + 1, 1u64 << 54);
}

#[test]
fn chunk_offsets() {
    assert_eq!(CHUNK_SIZE, 1024);
    assert_eq!(chunk_offset(0), 0);
    assert_eq!(chunk_offset(3), 3072);
    assert_eq!(chunk_offset(MAX_CHUNK_INDEX), u64::MAX - 1023);
}

#[test]
fn all_chunks_lists_every_index() {
    assert_eq!(all_chunks(4), vec![0, 1, 2, 3]);
    assert_eq!(all_chunks(0), Vec::<u64>::new());
}

#[test]
fn chunks_cover_every_byte_once() {
    let size: u64 = 2500;
    let n = chunk_count(size);
    assert_eq!(n, 3);
    for b in 0..size {
        let holders: Vec<u64> = (0..n)
            .filter(|i| chunk_offset(*i) <= b && b < chunk_offset(*i) + CHUNK_SIZE)
            .collect();
        assert_eq!(holders, vec![b / CHUNK_SIZE]);
    }
    for i in 0..n {
        assert!(chunk_offset(i) < size);
    }
}
