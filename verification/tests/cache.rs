use okapi::cache::{live, ImageCache, DEFAULT_REAP_INTERVAL, DEFAULT_TTL};
use okapi::token::{decimal_text, signed_decimal_text};

#[test]
fn round_trip() {
    let mut cache = ImageCache::new();
    let payload = vec![1u8, 2, 3, 4, 5];
    let token = cache.insert(payload.clone(), 0);
    assert_eq!(cache.get(&token), Some(payload));
}

#[test]
fn round_trip_of_empty_payload() {
    let mut cache = ImageCache::new();
    let token = cache.insert(Vec::new(), 17);
    assert_eq!(cache.get(&token), Some(Vec::new()));
}

#[test]
fn defaults_are_fifteen_and_five_minutes() {
    let cache = ImageCache::new();
    assert_eq!(cache.ttl(), 15 * 60 * 1_000_000_000);
    assert_eq!(cache.reap_interval(), 5 * 60 * 1_000_000_000);
    assert_eq!(cache.ttl(), DEFAULT_TTL);
    assert_eq!(cache.reap_interval(), DEFAULT_REAP_INTERVAL);
    let other = ImageCache::with_lifetime(7, 3);
    assert_eq!(other.ttl(), 7);
    assert_eq!(other.reap_interval(), 3);
}

#[test]
fn tokens_count_up_from_one() {
    let mut cache = ImageCache::new();
    assert_eq!(cache.insert(vec![0], 0), "1");
    assert_eq!(cache.insert(vec![0], 0), "2");
    for _ in 0..7 {
        let _ = cache.insert(vec![0], 0);
    }
    assert_eq!(cache.insert(vec![0], 0), "10");
    assert_eq!(cache.insert(vec![0], 0), "11");
}

#[test]
fn unknown_token_is_absent() {
    let mut cache = ImageCache::new();
    assert_eq!(cache.get("1"), None);
    let _ = cache.insert(vec![9], 0);
    assert_eq!(cache.get("2"), None);
    assert_eq!(cache.get("01"), None);
    assert_eq!(cache.get(""), None);
    assert_eq!(cache.get("1"), Some(vec![9]));
}

#[test]
fn reading_neither_removes_nor_renews() {
    let mut cache = ImageCache::with_lifetime(10, 5);
    let token = cache.insert(vec![7, 7], 100);
    for _ in 0..5 {
        assert_eq!(cache.get(&token), Some(vec![7, 7]));
    }
    cache.reap(109);
    assert_eq!(cache.get(&token), Some(vec![7, 7]));
    cache.reap(110);
    assert_eq!(cache.get(&token), None);
}

#[test]
fn reap_removes_what_has_reached_its_lifetime() {
    let mut cache = ImageCache::with_lifetime(900, 300);
    let old = cache.insert(vec![1], 0);
    let young = cache.insert(vec![2], 600);
    cache.reap(899);
    assert_eq!(cache.get(&old), Some(vec![1]));
    assert_eq!(cache.get(&young), Some(vec![2]));
    cache.reap(900);
    assert_eq!(cache.get(&old), None);
    assert_eq!(cache.get(&young), Some(vec![2]));
    cache.reap(1499);
    assert_eq!(cache.get(&young), Some(vec![2]));
    cache.reap(1500);
    assert_eq!(cache.get(&young), None);
}

#[test]
fn entry_is_gone_after_lifetime_and_one_interval() {
    let mut cache = ImageCache::new();
    let stored = 1000u64;
    let token = cache.insert(vec![5; 10], stored);
    // Passes every five minutes, not aligned with the insertion.
    let mut pass = 123u64;
    while pass < stored + DEFAULT_TTL + DEFAULT_REAP_INTERVAL {
        assert!(pass >= stored + DEFAULT_TTL || cache.get(&token).is_some());
        pass += DEFAULT_REAP_INTERVAL;
        cache.reap(pass);
    }
    assert_eq!(cache.get(&token), None);
}

#[test]
fn reap_before_insertion_time_keeps_the_entry() {
    let mut cache = ImageCache::with_lifetime(10, 5);
    let token = cache.insert(vec![3], 50);
    cache.reap(0);
    assert_eq!(cache.get(&token), Some(vec![3]));
}

#[test]
fn lifetime_test() {
    assert!(live(0, 0, 1));
    assert!(!live(0, 0, 0));
    assert!(live(10, 19, 10));
    assert!(!live(10, 20, 10));
    assert!(live(10, 5, 0));
    assert!(live(u64::MAX, u64::MAX, 1));
    assert!(live(1, u64::MAX, u64::MAX));
    assert!(!live(0, u64::MAX, u64::MAX));
}

#[test]
fn many_insertions_get_distinct_tokens() {
    let mut cache = ImageCache::new();
    let mut tokens = Vec::new();
    for i in 0..1000u32 {
        tokens.push(cache.insert(i.to_le_bytes().to_vec(), 0));
    }
    let mut sorted = tokens.clone();
    sorted.sort();
    sorted.dedup();
    assert_eq!(sorted.len(), 1000);
    for (i, token) in tokens.iter().enumerate() {
        assert_eq!(cache.get(token), Some((i as u32).to_le_bytes().to_vec()));
    }
}

#[test]
fn interleaved_inserts_reads_and_reaps() {
    let mut cache = ImageCache::with_lifetime(50, 10);
    let mut live_entries: Vec<(String, Vec<u8>, u64)> = Vec::new();
    for now in 0..3000u64 {
        let payload = vec![(now % 251) as u8; (now % 7) as usize + 1];
        let token = cache.insert(payload.clone(), now);
        assert_eq!(cache.get(&token), Some(payload.clone()));
        live_entries.push((token, payload, now));
        if now % 10 == 0 {
            cache.reap(now);
            for (token, payload, created) in &live_entries {
                if created + 50 > now {
                    assert_eq!(cache.get(token).as_ref(), Some(payload));
                } else {
                    assert_eq!(cache.get(token), None);
                }
            }
            live_entries.retain(|(_, _, created)| created + 50 > now);
        }
    }
}

#[test]
fn decimal_numerals() {
    assert_eq!(decimal_text(0), "0");
    assert_eq!(decimal_text(7), "7");
    assert_eq!(decimal_text(10), "10");
    assert_eq!(decimal_text(1234567890), "1234567890");
    assert_eq!(decimal_text(u64::MAX), "18446744073709551615");
    assert_eq!(signed_decimal_text(0), "0");
    assert_eq!(signed_decimal_text(-1), "-1");
    assert_eq!(signed_decimal_text(42), "42");
    assert_eq!(signed_decimal_text(i32::MIN), "-2147483648");
    assert_eq!(signed_decimal_text(i32::MAX), "2147483647");
}

#[test]
fn a_run_of_insertions_gets_as_many_new_tokens() {
    let mut cache = ImageCache::new();
    let first = cache.insert(vec![0], 0);
    let images: Vec<Vec<u8>> = (0..30u8).map(|i| vec![i; usize::from(i)]).collect();
    let tokens = cache.insert_all(&images, 7);
    assert_eq!(tokens.len(), 30);
    assert_eq!(tokens[0], "2");
    assert_eq!(tokens[29], "31");
    let mut sorted = tokens.clone();
    sorted.sort();
    sorted.dedup();
    assert_eq!(sorted.len(), 30);
    assert!(!tokens.contains(&first));
    for (token, image) in tokens.iter().zip(&images) {
        assert_eq!(cache.get(token).as_ref(), Some(image));
    }
    assert_eq!(cache.get(&first), Some(vec![0]));
    assert_eq!(cache.insert(vec![9], 7), "32");
    assert_eq!(cache.insert_all(&Vec::new(), 7), Vec::<String>::new());
    cache.reap(DEFAULT_TTL - 1);
    assert_eq!(cache.get(&first), Some(vec![0]));
    cache.reap(DEFAULT_TTL);
    assert_eq!(cache.get(&first), None);
    assert_eq!(cache.get(&tokens[3]), Some(vec![3; 3]));
    cache.reap(DEFAULT_TTL + 7);
    assert_eq!(cache.get(&tokens[3]), None);
}

#[test]
fn history_of_insertions_and_passes() {
    // Insertions at times 0, 7 and 20, passes at 12 and 25, lifetime 10.
    let mut cache = ImageCache::with_lifetime(10, 5);
    let a = cache.insert(vec![1, 1], 0);
    let b = cache.insert(vec![2, 2], 7);
    cache.reap(12);
    let c = cache.insert(vec![3, 3], 20);
    assert_eq!(cache.get(&a), None);
    assert_eq!(cache.get(&b), Some(vec![2, 2]));
    assert_eq!(cache.get(&c), Some(vec![3, 3]));
    cache.reap(25);
    assert_eq!(cache.get(&a), None);
    assert_eq!(cache.get(&b), None);
    assert_eq!(cache.get(&c), Some(vec![3, 3]));
    assert_eq!((a.as_str(), b.as_str(), c.as_str()), ("1", "2", "3"));
}
