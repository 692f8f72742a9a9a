use std::cmp::Ordering;

use arcthumb::natural::{natural_cmp, strip_leading_zeros};

#[test]
fn natural_sort_pages() {
    let mut v = vec!["page10.jpg", "page2.jpg", "page1.jpg"];
    v.sort_by(|a, b| natural_cmp(a, b));
    assert_eq!(v, vec!["page1.jpg", "page2.jpg", "page10.jpg"]);
}

#[test]
fn natural_sort_leading_zeros() {
    let mut v = vec!["page002.jpg", "page1.jpg", "page03.jpg"];
    v.sort_by(|a, b| natural_cmp(a, b));
    assert_eq!(v, vec!["page1.jpg", "page002.jpg", "page03.jpg"]);
}

#[test]
fn natural_sort_case_insensitive() {
    let mut v = vec!["B.jpg", "a.jpg", "C.jpg"];
    v.sort_by(|a, b| natural_cmp(a, b));
    assert_eq!(v, vec!["a.jpg", "B.jpg", "C.jpg"]);
}

#[test]
fn natural_sort_mixed_text_and_numbers() {
    let mut v = vec![
        "ch10_page2.jpg",
        "ch2_page10.jpg",
        "ch10_page1.jpg",
        "ch2_page2.jpg",
    ];
    v.sort_by(|a, b| natural_cmp(a, b));
    assert_eq!(
        v,
        vec![
            "ch2_page2.jpg",
            "ch2_page10.jpg",
            "ch10_page1.jpg",
            "ch10_page2.jpg",
        ]
    );
}

#[test]
fn natural_sort_equal_strings() {
    assert_eq!(natural_cmp("page01.jpg", "page01.jpg"), Ordering::Equal);
}

#[test]
fn natural_sort_one_is_prefix() {
    // Shorter string compares less when it is a prefix of the other.
    assert_eq!(natural_cmp("page1", "page1.jpg"), Ordering::Less);
    assert_eq!(natural_cmp("page1.jpg", "page1"), Ordering::Greater);
    assert_eq!(natural_cmp("", "a"), Ordering::Less);
}

#[test]
fn strip_leading_zeros_basic() {
    assert_eq!(strip_leading_zeros(b"0042"), b"42");
    assert_eq!(strip_leading_zeros(b"42"), b"42");
    assert_eq!(strip_leading_zeros(b"0000"), b"");
    assert_eq!(strip_leading_zeros(b""), b"");
}

#[test]
fn leading_zeros_make_names_tie() {
    assert_eq!(natural_cmp("page02.jpg", "page2.jpg"), Ordering::Equal);
    assert_eq!(natural_cmp("a007b", "a7c"), Ordering::Less);
    assert_eq!(natural_cmp("page0", "page00"), Ordering::Equal);
}

#[test]
fn numbers_longer_than_machine_words_compare() {
    let small = "p99999999999999999999999999999999999999998";
    let large = "p99999999999999999999999999999999999999999";
    assert_eq!(natural_cmp(small, large), Ordering::Less);
    assert_eq!(natural_cmp("p1000000000000000000000000000000", "p9"), Ordering::Greater);
}

#[test]
fn digits_sort_between_punctuation_and_letters() {
    assert_eq!(natural_cmp("-", "1"), Ordering::Less);
    assert_eq!(natural_cmp("1", "a"), Ordering::Less);
    assert_eq!(natural_cmp("a", "1"), Ordering::Greater);
}

#[test]
fn non_ascii_names_compare_by_bytes() {
    assert_eq!(natural_cmp("日2", "日10"), Ordering::Less);
    assert_eq!(natural_cmp("z", "日"), Ordering::Less);
}

#[test]
fn natural_order_is_transitive_on_samples() {
    let names = ["a1", "a01", "A1", "a2", "a10", "b", "", "a", "a1b", "a01b0", "a1b00"];
    for a in names {
        for b in names {
            assert_eq!(natural_cmp(a, b), natural_cmp(b, a).reverse());
            for c in names {
                if natural_cmp(a, b) != Ordering::Greater && natural_cmp(b, c) != Ordering::Greater
                {
                    assert_ne!(natural_cmp(a, c), Ordering::Greater, "{a} {b} {c}");
                }
            }
        }
    }
}
