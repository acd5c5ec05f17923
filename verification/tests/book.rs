use rand::SeedableRng;
use rand_chacha::ChaCha8Rng;
use shogitest::book::{book_openings, book_positions};

const BOOK: &str = "startpos\r\n\nsfen 9/9 w - 1\n  lnsgkgsnl/9/9 b - 1  \r\n\t\n";

#[test]
fn book_positions_keep_the_order_of_the_file() {
    assert_eq!(
        book_positions(BOOK),
        vec!["startpos".to_string(), "sfen 9/9 w - 1".to_string(), "sfen lnsgkgsnl/9/9 b - 1".to_string()]
    );
    assert_eq!(book_positions("startpos"), vec!["startpos".to_string()]);
    assert!(book_positions("").is_empty());
}

#[test]
fn a_book_without_positions_is_refused() {
    let mut rng = ChaCha8Rng::seed_from_u64(1);
    assert_eq!(book_openings("\n \r\n\t", false, &mut rng), None);
    assert_eq!(book_openings("", true, &mut rng), None);
}

#[test]
fn the_book_order_is_kept_unless_random() {
    let mut rng = ChaCha8Rng::seed_from_u64(7);
    assert_eq!(book_openings(BOOK, false, &mut rng), Some(book_positions(BOOK)));
}

#[test]
fn a_random_order_shuffles_the_same_positions_by_the_seed() {
    let text: String = (1..=50).map(|i| format!("{i}/9 b - 1\n")).collect();
    let mut a = ChaCha8Rng::seed_from_u64(42);
    let mut b = ChaCha8Rng::seed_from_u64(42);
    let first = book_openings(&text, true, &mut a).unwrap();
    let second = book_openings(&text, true, &mut b).unwrap();
    assert_eq!(first, second);
    let mut sorted = first.clone();
    sorted.sort();
    let mut expected = book_positions(&text);
    assert_ne!(first, expected);
    expected.sort();
    assert_eq!(sorted, expected);
}
