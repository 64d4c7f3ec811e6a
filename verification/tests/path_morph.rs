use lottie_core::PathMorphCache;

// The cache is keyed by a hash of the source path and the vertex count; the
// normalized path is stood for by its vertex list.
#[test]
fn test_cache() {
    let mut cache: PathMorphCache<Vec<[i64; 2]>> = PathMorphCache::new();
    let key: u64 = 0x5EED_0004;
    let normalize = || vec![[0, 0], [33, 0], [66, 0], [100, 0]];

    let norm1 = cache.get_normalized(key, normalize);
    assert_eq!(cache.len(), 1);

    let norm2 = cache.get_normalized(key, || vec![[0, 0]]);
    assert_eq!(cache.len(), 1); // Should still be 1 (cached)

    assert_eq!(norm1.len(), norm2.len());
}
