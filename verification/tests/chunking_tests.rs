use rust_threadpool::chunking::{chunk_bounds, chunks};

#[test]
fn bounds_non_dividing() {
    let b = chunk_bounds(10, 3);
    assert_eq!(b, vec![(0, 3), (3, 6), (6, 9), (9, 10)]);
}

#[test]
fn bounds_exact_division() {
    let b = chunk_bounds(9, 3);
    assert_eq!(b, vec![(0, 3), (3, 6), (6, 9)]);
    // the last batch is full when the chunk size divides evenly
    let (s, e) = b[b.len() - 1];
    assert_eq!(e - s, 3);
}

#[test]
fn bounds_empty_input() {
    assert_eq!(chunk_bounds(0, 4), vec![]);
}

#[test]
fn bounds_chunk_size_one() {
    let b = chunk_bounds(4, 1);
    assert_eq!(b, vec![(0, 1), (1, 2), (2, 3), (3, 4)]);
}

#[test]
fn bounds_chunk_larger_than_input() {
    assert_eq!(chunk_bounds(3, 100), vec![(0, 3)]);
}

#[test]
fn chunks_reconstruct_input() {
    let items: Vec<u64> = (0..10).collect();
    let batches = chunks(&items, 3);
    assert_eq!(batches.len(), 4);
    let concat: Vec<u64> = batches.iter().flatten().copied().collect();
    assert_eq!(concat, items);
    assert_eq!(batches[3], vec![9]);
}

#[test]
fn chunks_chunk_equals_input_len() {
    let items: Vec<u64> = (0..7).collect();
    let batches = chunks(&items, 7);
    assert_eq!(batches.len(), 1);
    assert_eq!(batches[0], items);
}

#[test]
fn chunks_of_empty_input() {
    let items: Vec<u64> = Vec::new();
    let batches = chunks(&items, 5);
    assert!(batches.is_empty());
}

#[test]
fn chunks_non_dividing_large() {
    // chunk size floor(1000 / 7): does not divide 1000
    let items: Vec<u64> = (0..1000).collect();
    let batches = chunks(&items, 142);
    assert_eq!(batches.len(), 8);
    for b in batches.iter().take(7) {
        assert_eq!(b.len(), 142);
    }
    assert_eq!(batches[7].len(), 1000 % 142);
    assert!(!batches[7].is_empty());
    let concat: Vec<u64> = batches.iter().flatten().copied().collect();
    assert_eq!(concat, items);
}

#[test]
fn chunks_preserve_inner_order() {
    let items: Vec<u64> = vec![5, 4, 3, 2, 1];
    let batches = chunks(&items, 2);
    assert_eq!(batches[0], vec![5, 4]);
    assert_eq!(batches[1], vec![3, 2]);
    assert_eq!(batches[2], vec![1]);
}
