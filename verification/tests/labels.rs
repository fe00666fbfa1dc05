use lib::cipso_ipv4::{
    cipso_v4_cache_add, cipso_v4_cache_check, cipso_v4_cache_init, cipso_v4_cache_invalidate,
    cipso_v4_map_cache_hash, jhash,
};

#[test]
fn jhash_folds_each_byte() {
    assert_eq!(jhash(&vec![], 0, 0), 0);
    assert_eq!(jhash(&vec![], 0, 9), 9);
    assert_eq!(jhash(&vec![1, 2, 3, 4, 5], 5, 0), 0x0203_0404);
}

#[test]
fn test_jhash() {
    let key = vec![0x01u8, 0x02, 0x03, 0x04];
    let hash = jhash(&key, 4, 0);
    assert_eq!(hash, 0x01020304);
}

#[test]
fn cache_hash_uses_the_prefix_only() {
    let opt = vec![0x86, 6, 0, 0, 0, 1, 0xff, 0xff];
    assert_eq!(cipso_v4_map_cache_hash(&opt, 6), 0x8607);
    assert_eq!(cipso_v4_map_cache_hash(&opt, 6), jhash(&vec![0x86, 6, 0, 0, 0, 1], 6, 0));
}

#[test]
fn cache_init_without_memory() {
    assert_eq!(cipso_v4_cache_init(false).err(), Some(12));
    let c = cipso_v4_cache_init(true).ok().unwrap();
    assert!(c.enabled);
    assert_eq!(c.bucketsize, 10);
    assert_eq!(c.buckets.len(), 128);
}

#[test]
fn cache_add_then_check_hits() {
    let mut c = cipso_v4_cache_init(true).ok().unwrap();
    let opt = vec![0x86, 6, 0, 0, 0, 1];
    assert_eq!(cipso_v4_cache_add(&mut c, &opt, 77), 0);
    assert_eq!(c.buckets[7].list.len(), 1);
    assert_eq!(c.buckets[7].size, 1);
    assert_eq!(c.buckets[7].list[0].lsm_refcnt, 1);
    assert_eq!(cipso_v4_cache_check(&mut c, &opt, 6), (0, Some(77)));
    assert_eq!(c.buckets[7].list[0].activity, 1);
    assert_eq!(c.buckets[7].list[0].lsm_refcnt, 2);
    let other = vec![0x86, 6, 0, 0, 0, 2];
    assert_eq!(cipso_v4_cache_check(&mut c, &other, 6), (2, None));
}

#[test]
fn cache_check_second_entry_ages_the_first() {
    let mut c = cipso_v4_cache_init(true).ok().unwrap();
    let opt = vec![0x86, 6, 0, 0, 0, 1];
    assert_eq!(cipso_v4_cache_add(&mut c, &opt, 5), 0);
    assert_eq!(cipso_v4_cache_check(&mut c, &opt, 6), (0, Some(5)));
    // a newer label for the same option goes in front; the older one is found behind it only
    assert_eq!(cipso_v4_cache_add(&mut c, &opt, 6), 0);
    assert_eq!(cipso_v4_cache_check(&mut c, &opt, 6), (0, Some(6)));
    assert_eq!(c.buckets[7].list[0].activity, 1);
    assert_eq!(c.buckets[7].list[1].activity, 1);
}

#[test]
fn cache_full_bucket_drops_its_last_entry() {
    let mut c = cipso_v4_cache_init(true).ok().unwrap();
    c.bucketsize = 1;
    let opt = vec![0x86, 6, 0, 0, 0, 1];
    assert_eq!(cipso_v4_cache_add(&mut c, &opt, 1), 0);
    assert_eq!(cipso_v4_cache_add(&mut c, &opt, 2), 0);
    assert_eq!(c.buckets[7].list.len(), 1);
    assert_eq!(c.buckets[7].size, 1);
    assert_eq!(c.buckets[7].list[0].lsm_data, 2);
}

#[test]
fn cache_off_or_empty_buckets() {
    let mut c = cipso_v4_cache_init(true).ok().unwrap();
    let opt = vec![0x86, 6, 0, 0, 0, 1];
    c.bucketsize = 0;
    assert_eq!(cipso_v4_cache_add(&mut c, &opt, 1), 0);
    assert_eq!(c.buckets[7].list.len(), 0);
    c.bucketsize = 10;
    assert_eq!(cipso_v4_cache_add(&mut c, &opt, 1), 0);
    c.enabled = false;
    assert_eq!(cipso_v4_cache_check(&mut c, &opt, 6), (2, None));
    c.enabled = true;
    cipso_v4_cache_invalidate(&mut c);
    assert_eq!(cipso_v4_cache_check(&mut c, &opt, 6), (2, None));
    assert_eq!(c.buckets[7].size, 0);
}

#[test]
fn cache_check_moves_a_busy_entry_forward() {
    let mut c = cipso_v4_cache_init(true).ok().unwrap();
    let a = vec![0x86, 6, 0, 0, 0, 1];
    let b = vec![0x86, 6, 0, 0, 0, 0x81];
    assert_eq!(cipso_v4_map_cache_hash(&a, 6) & 127, cipso_v4_map_cache_hash(&b, 6) & 127);
    assert_eq!(cipso_v4_cache_add(&mut c, &a, 1), 0);
    assert_eq!(cipso_v4_cache_add(&mut c, &b, 2), 0);
    assert_eq!(c.buckets[7].list[0].lsm_data, 2);
    for _ in 0..10 {
        assert_eq!(cipso_v4_cache_check(&mut c, &a, 6), (0, Some(1)));
    }
    // ten more uses than the entry in front: not yet enough to move
    assert_eq!(c.buckets[7].list[1].lsm_data, 1);
    assert_eq!(c.buckets[7].list[1].activity, 10);
    assert_eq!(cipso_v4_cache_check(&mut c, &a, 6), (0, Some(1)));
    assert_eq!(c.buckets[7].list[0].lsm_data, 1);
    assert_eq!(c.buckets[7].list[0].activity, 11);
    assert_eq!(c.buckets[7].list[0].lsm_refcnt, 12);
    assert_eq!(c.buckets[7].list[1].lsm_data, 2);
}
