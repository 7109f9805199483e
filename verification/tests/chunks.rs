use file_cloud::chunk::{join_chunks, write_stream, CHUNK_SIZE};

fn pattern(len: usize) -> Vec<u8> {
    let mut bytes = Vec::with_capacity(len);
    for i in 0..len {
        bytes.push((i % 251) as u8);
    }
    bytes
}

fn round_trip(len: usize, slice_len: usize) {
    let bytes = pattern(len);
    let mut slices: Vec<Vec<u8>> = Vec::new();
    let mut at = 0;
    while at < len {
        let end = std::cmp::min(at + slice_len, len);
        slices.push(bytes[at..end].to_vec());
        at = end;
    }
    let (chunks, size) = write_stream(&slices);
    assert_eq!(size, len as u64);
    let total: usize = chunks.iter().map(|c| c.len()).sum();
    assert_eq!(total, len);
    assert_eq!(chunks.len(), (len + CHUNK_SIZE - 1) / CHUNK_SIZE);
    for (i, chunk) in chunks.iter().enumerate() {
        if i + 1 < chunks.len() {
            assert_eq!(chunk.len(), CHUNK_SIZE);
        } else {
            assert!(chunk.len() >= 1 && chunk.len() <= CHUNK_SIZE);
        }
    }
    assert!(join_chunks(&chunks) == bytes);
}

#[test]
fn chunk_round_trip_empty_stream() {
    round_trip(0, 1024);
    let (chunks, size) = write_stream(&Vec::new());
    assert!(chunks.is_empty());
    assert_eq!(size, 0);
}

#[test]
fn chunk_round_trip_one_byte() {
    round_trip(1, 1024);
}

#[test]
fn chunk_round_trip_one_short_of_a_chunk() {
    round_trip(CHUNK_SIZE - 1, 65536);
}

#[test]
fn chunk_round_trip_exactly_one_chunk() {
    round_trip(CHUNK_SIZE, 65536);
    let (chunks, _) = write_stream(&vec![pattern(CHUNK_SIZE)]);
    assert_eq!(chunks.len(), 1);
}

#[test]
fn chunk_round_trip_one_over_a_chunk() {
    round_trip(CHUNK_SIZE + 1, 65536);
    let (chunks, _) = write_stream(&vec![pattern(CHUNK_SIZE + 1)]);
    assert_eq!(chunks.len(), 2);
    assert_eq!(chunks[1].len(), 1);
}

#[test]
fn chunk_round_trip_three_chunks() {
    round_trip(3 * CHUNK_SIZE, 1000003);
    let (chunks, _) = write_stream(&vec![pattern(3 * CHUNK_SIZE)]);
    assert_eq!(chunks.len(), 3);
}

#[test]
fn buffer_hands_out_full_chunks_then_the_rest() {
    let mut buffer = file_cloud::chunk::ChunkBuffer::new();
    assert_eq!(buffer.size(), 0);
    assert!(buffer.take_chunk().is_none());
    assert!(buffer.take_rest().is_none());

    let bytes = pattern(2 * CHUNK_SIZE + 5);
    buffer.push(&bytes[..10]);
    assert_eq!(buffer.pending_len(), 10);
    assert!(buffer.take_chunk().is_none());
    buffer.push(&bytes[10..]);
    assert_eq!(buffer.size(), (2 * CHUNK_SIZE + 5) as u64);

    let first = buffer.take_chunk().unwrap();
    assert!(first == bytes[..CHUNK_SIZE].to_vec());
    let second = buffer.take_chunk().unwrap();
    assert!(second == bytes[CHUNK_SIZE..2 * CHUNK_SIZE].to_vec());
    assert!(buffer.take_chunk().is_none());
    assert_eq!(buffer.pending_len(), 5);
    let rest = buffer.take_rest().unwrap();
    assert_eq!(rest, bytes[2 * CHUNK_SIZE..].to_vec());
    assert_eq!(buffer.pending_len(), 0);
    assert!(buffer.take_rest().is_none());
    assert_eq!(buffer.size(), (2 * CHUNK_SIZE + 5) as u64);
}

#[test]
fn chunk_size_is_four_mebibytes() {
    assert_eq!(CHUNK_SIZE, 4 * 1024 * 1024);
}

#[test]
fn slicing_does_not_change_the_chunks() {
    let bytes = pattern(CHUNK_SIZE + 4321);
    let whole = write_stream(&vec![bytes.clone()]).0;
    let halves = write_stream(&vec![bytes[..777].to_vec(), bytes[777..].to_vec()]).0;
    let with_empty = write_stream(&vec![Vec::new(), bytes.clone(), Vec::new()]).0;
    assert!(whole == halves);
    assert!(whole == with_empty);
}
