use inferox::ops::embedding_lookup;

#[test]
fn embedding_lookup_copies_rows() {
    // vocab of 3 rows of width 2
    let embeddings: Vec<f32> = vec![0.0, 0.5, 1.0, 1.5, 2.0, 2.5];
    let ids = [2u32, 0, 2];
    let mut out = vec![0.0f32; 6];
    embedding_lookup(&embeddings, &ids, 2, &mut out);
    assert_eq!(out, vec![2.0, 2.5, 0.0, 0.5, 2.0, 2.5]);
}

#[test]
fn embedding_lookup_with_no_ids_leaves_nothing() {
    let embeddings: Vec<u16> = vec![1, 2, 3];
    let mut out: Vec<u16> = Vec::new();
    embedding_lookup(&embeddings, &[], 3, &mut out);
    assert!(out.is_empty());
}
