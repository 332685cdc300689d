use simple_whisper::stitch::find_chunk_overlap;

#[test]
fn true_boundary_is_recovered() {
    let prev = [1usize, 2, 3, 4, 5];
    let curr = [3usize, 4, 5, 6, 7];
    assert_eq!(find_chunk_overlap(&prev, &curr, 30, 3), Some((2, 0)));
    let mut joined = prev[..2].to_vec();
    joined.extend_from_slice(&curr[0..]);
    assert_eq!(joined, vec![1, 2, 3, 4, 5, 6, 7]);
}

#[test]
fn short_boundary_is_no_overlap() {
    let prev = [1usize, 2, 3, 4];
    let curr = [3usize, 4, 9];
    assert_eq!(find_chunk_overlap(&prev, &curr, 30, 3), None);
    assert_eq!(find_chunk_overlap(&prev, &curr, 30, 2), Some((2, 0)));
}

#[test]
fn empty_sides_have_no_overlap() {
    assert_eq!(find_chunk_overlap(&[], &[1, 2, 3], 30, 3), None);
    assert_eq!(find_chunk_overlap(&[1, 2, 3], &[], 30, 3), None);
    assert_eq!(find_chunk_overlap(&[], &[], 30, 0), Some((0, 0)));
}

#[test]
fn offsets_are_bounded() {
    let prev = [7usize, 8, 9, 1, 2, 3];
    let curr = [7usize, 8, 9, 4, 4, 4];
    assert_eq!(find_chunk_overlap(&prev, &curr, 30, 3), Some((0, 0)));
    assert_eq!(find_chunk_overlap(&prev, &curr, 3, 3), None);
}

#[test]
fn first_best_offset_wins() {
    let prev = [5usize, 5, 5];
    let curr = [5usize, 5, 5];
    assert_eq!(find_chunk_overlap(&prev, &curr, 30, 1), Some((0, 0)));
    let prev = [1usize, 2, 1, 2];
    let curr = [1usize, 2, 8, 8];
    assert_eq!(find_chunk_overlap(&prev, &curr, 30, 2), Some((2, 0)));
    let prev = [1usize, 9, 2, 9];
    let curr = [2usize, 9, 2, 9];
    assert_eq!(find_chunk_overlap(&prev, &curr, 30, 2), Some((1, 1)));
}

#[test]
fn cut_starts_at_first_agreeing_position() {
    let prev = [1usize, 2, 3, 4, 5];
    let curr = [9usize, 3, 4, 5, 9];
    assert_eq!(find_chunk_overlap(&prev, &curr, 30, 3), Some((2, 1)));
}
