//! The key/value cache.
use super_inference::cache::KvCache;

fn bits(values: &[f32]) -> Vec<u32> {
    values.iter().map(|value| value.to_bits()).collect()
}

#[test]
fn appends_token_major_prefill_into_head_major_capacity_layout() {
    let mut cache = KvCache::new(2, 2, 3).expect("valid cache");
    let keys = [
        1.0_f32, 2.0, 3.0, 4.0, // token 0, heads 0/1
        5.0, 6.0, 7.0, 8.0, // token 1, heads 0/1
    ];
    let values = [10.0_f32, 20.0, 30.0, 40.0, 50.0, 60.0, 70.0, 80.0];
    cache
        .append_sequence(&bits(&keys), &bits(&values), 2)
        .expect("prefill fits");
    assert_eq!(cache.cached_tokens(), 2);
    assert_eq!(cache.remaining_tokens(), 1);
    assert_eq!(cache.active_bytes(), 64);
    assert_eq!(
        cache.key_storage(),
        &bits(&[1.0, 2.0, 5.0, 6.0, 0.0, 0.0, 3.0, 4.0, 7.0, 8.0, 0.0, 0.0])
    );
    assert_eq!(cache.value_storage()[0..4], bits(&[10.0, 20.0, 50.0, 60.0])[..]);
    assert_eq!(cache.value_storage()[6..10], bits(&[30.0, 40.0, 70.0, 80.0])[..]);
}

#[test]
fn rejects_bad_token_shape_and_capacity_overflow() {
    let mut cache = KvCache::new(1, 2, 1).expect("valid cache");
    assert!(cache.append_token(&bits(&[1.0]), &bits(&[2.0, 3.0])).is_err());
    cache
        .append_token(&bits(&[1.0, 2.0]), &bits(&[3.0, 4.0]))
        .expect("first token fits");
    assert!(cache.append_token(&bits(&[5.0, 6.0]), &bits(&[7.0, 8.0])).is_err());
}

#[test]
fn clear_reuses_allocated_capacity() {
    let mut cache = KvCache::new(2, 4, 8).expect("valid cache");
    let pointer = cache.key_storage().as_ptr();
    cache
        .append_token(&bits(&[0.0; 8]), &bits(&[0.0; 8]))
        .expect("token fits");
    cache.clear();
    assert_eq!(cache.cached_tokens(), 0);
    assert_eq!(cache.key_storage().as_ptr(), pointer);
}

#[test]
fn truncate_to_discards_speculative_suffix_without_reallocating() {
    let mut cache = KvCache::new(1, 2, 4).expect("valid cache");
    cache
        .append_sequence(&bits(&[1.0, 2.0, 3.0, 4.0]), &bits(&[5.0, 6.0, 7.0, 8.0]), 2)
        .expect("sequence fits");
    let key_pointer = cache.key_storage().as_ptr();
    let value_pointer = cache.value_storage().as_ptr();

    cache.truncate_to(1).expect("truncation fits");

    assert_eq!(cache.cached_tokens(), 1);
    assert_eq!(cache.key_storage().as_ptr(), key_pointer);
    assert_eq!(cache.value_storage().as_ptr(), value_pointer);
    assert_eq!(cache.key_storage()[..2], bits(&[1.0, 2.0])[..]);
    assert_eq!(cache.value_storage()[..2], bits(&[5.0, 6.0])[..]);
}

#[test]
fn truncate_to_rejects_future_position() {
    let mut cache = KvCache::new(1, 2, 2).expect("valid cache");
    cache
        .append_token(&bits(&[1.0, 2.0]), &bits(&[3.0, 4.0]))
        .expect("token fits");
    assert!(cache.truncate_to(2).is_err());
}

#[test]
fn copy_prefix_reuses_destination_storage_and_discards_old_suffix() {
    let mut source = KvCache::new(1, 2, 4).expect("valid source cache");
    source
        .append_sequence(&bits(&[1.0, 2.0, 3.0, 4.0]), &bits(&[5.0, 6.0, 7.0, 8.0]), 2)
        .expect("source sequence fits");
    let mut destination = KvCache::new(1, 2, 4).expect("valid destination cache");
    destination
        .append_sequence(&bits(&[9.0, 10.0, 11.0, 12.0]), &bits(&[13.0, 14.0, 15.0, 16.0]), 2)
        .expect("destination sequence fits");
    let key_pointer = destination.key_storage().as_ptr();
    destination
        .copy_prefix_from(&source)
        .expect("matching layouts should copy");
    assert_eq!(destination.key_storage().as_ptr(), key_pointer);
    assert_eq!(destination.cached_tokens(), 2);
    assert_eq!(destination.key_storage()[..4], bits(&[1.0, 2.0, 3.0, 4.0])[..]);
    assert_eq!(destination.value_storage()[..4], bits(&[5.0, 6.0, 7.0, 8.0])[..]);
}

#[test]
fn copy_prefix_allows_compact_source_into_larger_destination() {
    let mut source = KvCache::new(2, 2, 3).expect("valid compact source");
    source
        .append_sequence(
            &bits(&[1.0, 2.0, 3.0, 4.0, 5.0, 6.0, 7.0, 8.0]),
            &bits(&[11.0, 12.0, 13.0, 14.0, 15.0, 16.0, 17.0, 18.0]),
            2,
        )
        .expect("source sequence fits");
    let mut destination = KvCache::new(2, 2, 8).expect("valid destination");
    destination
        .copy_prefix_from(&source)
        .expect("larger destination should accept active source prefix");
    assert_eq!(destination.cached_tokens(), 2);
    assert_eq!(destination.key_storage()[..4], bits(&[1.0, 2.0, 5.0, 6.0])[..]);
    assert_eq!(destination.key_storage()[16..20], bits(&[3.0, 4.0, 7.0, 8.0])[..]);
    assert_eq!(destination.value_storage()[..4], bits(&[11.0, 12.0, 15.0, 16.0])[..]);
    assert_eq!(
        destination.value_storage()[16..20],
        bits(&[13.0, 14.0, 17.0, 18.0])[..]
    );
}

#[test]
fn each_cache_error_is_reported() {
    assert_eq!(
        KvCache::new(0, 2, 1).err().unwrap().0,
        "KV-cache dimensions must be non-zero"
    );
    assert_eq!(
        KvCache::new(usize::MAX, 2, 1).err().unwrap().0,
        "KV-cache dimensions overflow"
    );
    let mut cache = KvCache::new(1, 2, 1).expect("valid cache");
    assert_eq!(
        cache.append_sequence(&[1, 2, 3, 4], &[1, 2, 3, 4], 2).unwrap_err().0,
        "KV-cache sequence exceeds remaining capacity"
    );
    assert_eq!(
        cache.append_sequence(&[], &[], usize::MAX).unwrap_err().0,
        "KV sequence dimensions overflow"
    );
    cache.append_token(&[1, 2], &[3, 4]).expect("token fits");
    assert_eq!(
        cache.append_token(&[5, 6], &[7, 8]).unwrap_err().0,
        "KV-cache capacity exhausted"
    );
    assert_eq!(
        cache.truncate_to(2).unwrap_err().0,
        "cannot truncate KV-cache to a future position"
    );
    let other = KvCache::new(1, 3, 1).expect("valid cache");
    assert_eq!(
        cache.copy_prefix_from(&other).unwrap_err().0,
        "KV-cache layouts do not match"
    );
    assert_eq!(cache.key_storage(), &[1, 2]);
    assert_eq!(cache.value_storage(), &[3, 4]);
}

#[test]
fn a_truncated_token_is_replaced_by_the_next() {
    let mut cache = KvCache::new(2, 1, 3).expect("valid cache");
    cache.append_token(&[1, 2], &[3, 4]).expect("token fits");
    cache.append_token(&[5, 6], &[7, 8]).expect("token fits");
    cache.truncate_to(1).expect("truncation fits");
    cache.append_token(&[9, 10], &[11, 12]).expect("token fits");
    assert_eq!(cache.key_storage(), &[1, 9, 0, 2, 10, 0]);
    assert_eq!(cache.value_storage(), &[3, 11, 0, 4, 12, 0]);
    assert_eq!(cache.cached_tokens(), 2);
}

#[test]
fn drafted_tokens_are_rolled_back_together() {
    let mut cache = KvCache::new(2, 1, 5).expect("valid cache");
    cache.append_sequence(&[1, 2, 3, 4], &[5, 6, 7, 8], 2).expect("prompt fits");
    let before: Vec<u32> = cache.key_storage().to_vec();
    cache.append_sequence(&[9, 10, 11, 12], &[13, 14, 15, 16], 2).expect("draft fits");
    assert_eq!(cache.key_storage(), [1, 3, 9, 11, 0, 2, 4, 10, 12, 0]);
    cache.truncate_to(2).expect("a shorter prefix");
    for head in 0..2 {
        let start = head * 5;
        assert_eq!(cache.key_storage()[start..start + 2], before[start..start + 2]);
        assert_eq!(cache.key_storage()[start + 4], 0);
    }
    cache.append_token(&[20, 21], &[22, 23]).expect("the token fits");
    assert_eq!(cache.cached_tokens(), 3);
    assert_eq!(cache.key_storage()[..3], [1, 3, 20]);
    assert_eq!(cache.value_storage()[5..8], [6, 8, 23]);
}
