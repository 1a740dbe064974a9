//! Edit-distance tests, including a cross-check against an independent
//! implementation.

use roogle::distance::edit_distance;

#[test]
fn classic_distances() {
    assert_eq!(edit_distance("kitten", "sitting"), 3);
    assert_eq!(edit_distance("flaw", "lawn"), 2);
    assert_eq!(edit_distance("", "abc"), 3);
    assert_eq!(edit_distance("abc", ""), 3);
    assert_eq!(edit_distance("", ""), 0);
    assert_eq!(edit_distance("same", "same"), 0);
}

#[test]
fn agrees_with_the_reference_implementation() {
    let pairs = [
        ("foo", "foo"),
        ("foo", "bar"),
        ("push", "pop"),
        ("insert", "inser"),
        ("map", "filter_map"),
        ("Vec", "VecDeque"),
        ("a", ""),
        ("levenshtein", "frankenstein"),
    ];
    for (a, b) in pairs {
        assert_eq!(edit_distance(a, b), levenshtein::levenshtein(a, b));
    }
}

#[test]
fn distance_is_symmetric_on_samples() {
    let words = ["alpha", "beta", "gamma", ""];
    for a in words {
        for b in words {
            assert_eq!(edit_distance(a, b), edit_distance(b, a));
        }
    }
}
