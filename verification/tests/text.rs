use process_manager::text::{decimal_text, longest_length, pad_all, pad_right, two_places_text};

#[test]
fn decimal_digits_of_numbers() {
    assert_eq!(decimal_text(0), "0");
    assert_eq!(decimal_text(7), "7");
    assert_eq!(decimal_text(10), "10");
    assert_eq!(decimal_text(1_234_567_890), "1234567890");
    assert_eq!(decimal_text(u64::MAX), "18446744073709551615");
}

#[test]
fn two_places_after_the_point() {
    assert_eq!(two_places_text(0), "0.00");
    assert_eq!(two_places_text(5), "0.05");
    assert_eq!(two_places_text(50), "0.50");
    assert_eq!(two_places_text(150), "1.50");
    assert_eq!(two_places_text(102_399), "1023.99");
}

#[test]
fn short_text_is_padded_with_blanks() {
    assert_eq!(pad_right(&String::from("ab"), 5), "ab   ");
    assert_eq!(pad_right(&String::new(), 2), "  ");
}

#[test]
fn long_text_is_left_as_it_is() {
    assert_eq!(pad_right(&String::from("abcdef"), 3), "abcdef");
    assert_eq!(pad_right(&String::from("abc"), 3), "abc");
    assert_eq!(pad_right(&String::from("abc"), 0), "abc");
}

#[test]
fn longest_of_some_texts() {
    let texts = vec![String::from("a"), String::from("abcd"), String::from("ab")];
    assert_eq!(longest_length(&texts), 4);
    assert_eq!(longest_length(&Vec::new()), 0);
}

#[test]
fn all_texts_are_padded_to_the_longest() {
    let texts = vec![String::from("a"), String::from("abcd"), String::new()];
    let wide = pad_all(&texts);
    assert_eq!(wide, vec![String::from("a   "), String::from("abcd"), String::from("    ")]);
}

#[test]
fn length_counts_characters() {
    let texts = vec![String::from("\u{17c}\u{f3}\u{142}w"), String::from("ab")];
    assert_eq!(longest_length(&texts), 4);
    let wide = pad_all(&texts);
    assert_eq!(wide[1], "ab  ");
}
