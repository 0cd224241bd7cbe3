use std::cmp::Ordering;
use std::collections::hash_map::DefaultHasher;
use std::hash::{Hash, Hasher};

use strpool::{InternError, StrPool};

fn hash_of(s: &str) -> u64 {
    let mut h = DefaultHasher::new();
    s.hash(&mut h);
    h.finish()
}

#[test]
fn same_content_from_every_source_shares_one_entry() {
    let mut pool = StrPool::new();
    let a = pool.put_static("hello");
    let b = pool.put_heap(String::from("hello"));
    let c = pool.put_str("hello");
    let d = pool.put_bytes(&[0x68, 0x65, 0x6c, 0x6c, 0x6f]).unwrap();
    assert!(a == b && b == c && c == d);
    assert!(pool.equal(a, d));
    assert_eq!(pool.len(), 1);
}

#[test]
fn equality_follows_content() {
    let mut pool = StrPool::new();
    let a = pool.put_str("alpha");
    let b = pool.put_str("beta");
    let a2 = pool.put_heap(String::from("alpha"));
    assert!(pool.equal(a, a2));
    assert!(!pool.equal(a, b));
    assert!(a != b);
    assert!(pool.equal_str(a, "alpha"));
    assert!(!pool.equal_str(a, "alph"));
    assert!(!pool.equal_str(b, "alpha"));
}

#[test]
fn round_trip_returns_the_text() {
    let mut pool = StrPool::new();
    for s in ["", "x", "hello world", "grüße", "日本語", "emoji 🎉"] {
        let r = pool.put_heap(String::from(s));
        assert_eq!(pool.to_string(r), s);
        assert_eq!(pool.resolve(r), s);
    }
    let first = pool.put_str("kept");
    for i in 0..50 {
        pool.put_heap(format!("filler {}", i));
    }
    assert_eq!(pool.resolve(first), "kept");
}

#[test]
fn ordering_follows_content() {
    let mut pool = StrPool::new();
    let b = pool.put_str("banana");
    let a = pool.put_str("apple");
    let ab = pool.put_str("ab");
    let abc = pool.put_str("abc");
    let e = pool.put_str("é");
    let z = pool.put_str("z");
    assert_eq!(pool.compare(a, b), Ordering::Less);
    assert_eq!(pool.compare(b, a), Ordering::Greater);
    assert_eq!(pool.compare(a, a), Ordering::Equal);
    assert_eq!(pool.compare(ab, abc), Ordering::Less);
    assert_eq!(pool.compare(z, e), Ordering::Less);
    assert_eq!(pool.compare(a, b), "apple".cmp("banana"));
}

#[test]
fn hash_matches_plain_text() {
    let mut pool = StrPool::new();
    for s in ["", "key", "another key"] {
        let r = pool.put_str(s);
        assert_eq!(hash_of(pool.resolve(r)), hash_of(s));
    }
}

#[test]
fn invalid_utf8_is_rejected() {
    let mut pool = StrPool::new();
    assert_eq!(
        pool.put_bytes(&[0xFF]).err(),
        Some(InternError::InvalidEncoding { valid_up_to: 0 })
    );
    assert_eq!(
        pool.put_bytes(&[0x68, 0xFF]).err(),
        Some(InternError::InvalidEncoding { valid_up_to: 1 })
    );
    assert_eq!(pool.len(), 0);
    let hi = pool.put_bytes(&[0x68, 0x69]).unwrap();
    assert_eq!(pool.to_string(hi), "hi");
    assert_eq!(pool.len(), 1);
}

#[test]
fn empty_handle_is_the_empty_text() {
    let mut pool = StrPool::default();
    let d = pool.put_empty();
    assert_eq!(pool.resolve(d), "");
    let e = pool.put_str("");
    assert!(pool.equal(d, e));
    assert!(d == e);
    assert_eq!(pool.len(), 1);
}

#[test]
fn pool_grows_by_distinct_texts_only() {
    let mut pool = StrPool::new();
    let words = ["one", "two", "three", "four", "five"];
    for w in words {
        pool.put_static(w);
    }
    assert_eq!(pool.len(), words.len());
    for w in words {
        pool.put_heap(String::from(w));
    }
    assert_eq!(pool.len(), words.len());
}

#[test]
fn out_of_range_lookup_is_absent() {
    let mut pool = StrPool::new();
    let r = pool.put_str("only");
    assert_eq!(pool.get(r), Some("only"));
    let mut other = StrPool::new();
    other.put_str("a");
    let far = other.put_str("b");
    assert_eq!(pool.get(far), None);
}

#[test]
fn bytes_view_is_utf8() {
    let mut pool = StrPool::new();
    let r = pool.put_str("aé");
    assert_eq!(pool.as_bytes(r), &[0x61, 0xC3, 0xA9]);
}
