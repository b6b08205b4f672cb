use message_hub::lexicographic::{bytes_le, sort_bytes};

#[test]
fn bytes_le_orders_like_str() {
    let words = ["", "a", "ab", "b", "ba", "中", "Z", "1409659813"];
    for x in words {
        for y in words {
            assert_eq!(bytes_le(x.as_bytes(), y.as_bytes()), x <= y, "{x} {y}");
        }
    }
}

#[test]
fn sort_bytes_sorts_like_slice_sort() {
    let words = vec!["nonce", "1409659813", "QDG6eK", "token", "", "token"];
    let input: Vec<&[u8]> = words.iter().map(|w| w.as_bytes()).collect();
    let sorted = sort_bytes(&input);
    let mut expected = words.clone();
    expected.sort();
    let expected: Vec<&[u8]> = expected.iter().map(|w| w.as_bytes()).collect();
    assert_eq!(sorted, expected);
    assert!(sort_bytes(&Vec::new()).is_empty());
}
