use tec2hdf5::{read_integers_from_input, IntegerListError};

#[test]
fn reads_integers_across_lines_and_tabs() {
    assert_eq!(read_integers_from_input("1 2 3\n4\t-5\r\n +6\n").unwrap(), vec![1, 2, 3, 4, -5, 6]);
}

#[test]
fn empty_or_blank_input_gives_no_integers() {
    assert_eq!(read_integers_from_input("").unwrap(), Vec::<i64>::new());
    assert_eq!(read_integers_from_input(" \n\t ").unwrap(), Vec::<i64>::new());
}

#[test]
fn reads_the_extremes_of_i64() {
    assert_eq!(
        read_integers_from_input("-9223372036854775808 9223372036854775807").unwrap(),
        vec![i64::MIN, i64::MAX]
    );
}

#[test]
fn rejects_integers_out_of_range() {
    assert_eq!(read_integers_from_input("1 9223372036854775808"), Err(IntegerListError::InvalidToken { position: 2 }));
    assert_eq!(read_integers_from_input("-9223372036854775809"), Err(IntegerListError::InvalidToken { position: 0 }));
}

#[test]
fn rejects_tokens_that_are_not_integers() {
    assert_eq!(read_integers_from_input("1 2.0 3"), Err(IntegerListError::InvalidToken { position: 2 }));
    assert_eq!(read_integers_from_input("  -"), Err(IntegerListError::InvalidToken { position: 2 }));
    assert_eq!(read_integers_from_input("7 +-1"), Err(IntegerListError::InvalidToken { position: 2 }));
}

#[test]
fn unicode_white_space_separates_integers() {
    assert_eq!(read_integers_from_input("1\u{a0}2").unwrap(), vec![1, 2]);
    assert_eq!(
        read_integers_from_input("\u{3000}3\u{2003}4\u{85}5\u{1680}6\u{2028}7\u{205f}8\u{202f}").unwrap(),
        vec![3, 4, 5, 6, 7, 8]
    );
}

#[test]
fn other_non_ascii_characters_are_not_separators() {
    assert_eq!(read_integers_from_input("1 2\u{e9}"), Err(IntegerListError::InvalidToken { position: 2 }));
    assert_eq!(read_integers_from_input("1\u{200b}2"), Err(IntegerListError::InvalidToken { position: 0 }));
}
