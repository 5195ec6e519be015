use chearmyp_lexer::helpers::block;
use chearmyp_lexer::helpers::count_tabs;
use chearmyp_lexer::helpers::find_line_ending;
use chearmyp_lexer::helpers::has_3_special_characters;
use chearmyp_lexer::RawToken;
use chearmyp_lexer::Span;

#[test]
fn can_detect_special_characters() {
    assert!(has_3_special_characters(b"aaa", 0, b'a'), "Normal string");
}

#[test]
fn cannot_detect_special_characters_on_empty_line() {
    assert!(!has_3_special_characters(b"", 0, b'a'), "Empty string");
}

#[test]
fn cannot_detect_special_characters_on_single_character_line() {
    assert!(!has_3_special_characters(b"a", 0, b'a'), "Single-character string");
}

#[test]
fn cannot_detect_special_characters_on_double_character_line() {
    assert!(!has_3_special_characters(b"aa", 0, b'a'), "Double-character string");
}

#[test]
fn can_count_on_first_time() {
    let sample = b"a";
    let old_tab_count = 0;
    let expected_new_tab_count = 0;

    let count = count_tabs(&sample[..], old_tab_count);

    assert_eq!(count, expected_new_tab_count);
}

#[test]
fn can_increase_count_on_first_time() {
    let sample = b"\t";
    let old_tab_count = 0;
    let expected_new_tab_count = 1;

    let count = count_tabs(&sample[..], old_tab_count);

    assert_eq!(count, expected_new_tab_count);
}

#[test]
fn can_count_decreased_tabs() {
    let sample = b"bcd";
    let old_tab_count = 3;
    let expected_new_tab_count = 0;

    let count = count_tabs(&sample[..], old_tab_count);

    assert_eq!(count, expected_new_tab_count);
}

#[test]
fn can_count_remain_tab_count() {
    let sample = b"\te";
    let old_tab_count = 1;
    let expected_new_tab_count = 1;

    let count = count_tabs(&sample[..], old_tab_count);

    assert_eq!(count, expected_new_tab_count);
}

#[test]
fn can_count_increased_tabs() {
    let sample = b"\t\tfg";
    let old_tab_count = 1;
    let expected_new_tab_count = 2;

    let count = count_tabs(&sample[..], old_tab_count);

    assert_eq!(count, expected_new_tab_count);
}

#[test]
fn can_count_dramatically_increased_tabs() {
    let sample = b"\t\t\tfg";
    let old_tab_count = 0;
    let expected_new_tab_count = 3;

    let count = count_tabs(&sample[..], old_tab_count);

    assert_eq!(count, expected_new_tab_count);
}

#[test]
fn can_reset_count_on_line_of_old_depth_alone() {
    // A line holding exactly the previous number of tabs and nothing else
    // resets the depth to zero instead of keeping it.
    assert_eq!(count_tabs(&b"\t"[..], 1), 0);
    assert_eq!(count_tabs(&b"\t\t"[..], 2), 0);
}

#[test]
fn can_find_line_ending() {
    let a = b"hello world";
    assert_eq!(find_line_ending(&a[..], 0), 11, "Without line ending");

    let a = b"hello\nworld\n";
    assert_eq!(find_line_ending(&a[..], 0), 5, "Unskipped line ending");
    assert_eq!(find_line_ending(&a[..], 6), 11, "Skipped line ending through offset");
}

#[test]
fn block_can_lex_with_proper_content() {
    let info = block(&b"bbb\nc\nbbb"[..], 0, 0, b'b');
    assert_eq!(info, (RawToken::Block(vec![Span::new(4, 5)]), 9));
}

#[test]
fn block_can_lex_with_an_empty_line() {
    let info = block(&b"ddd\nddd"[..], 0, 0, b'd');
    assert_eq!(info, (RawToken::Block(vec![Span::new(7, 7)]), 7));
}

#[test]
fn block_can_lex_with_empty_line_and_tabbed_line() {
    let info = block(&b"eee\n \n\t \n\n \n\teee"[..], 0, 1, b'e');
    assert_eq!(
        info,
        (
            RawToken::Block(vec![
                Span::new(4, 5),
                Span::new(6, 8),
                Span::new(9, 9),
                Span::new(10, 11)
            ]),
            16
        )
    );
}

#[test]
fn block_can_lex_with_lines_with_fewer_tabs() {
    let info = block(&b"~~~\n\t\t \n\t \n\t\t~~~"[..], 0, 2, b'~');
    assert_eq!(info, (RawToken::Block(vec![Span::new(4, 7), Span::new(8, 10)]), 16));
}

#[test]
fn block_cannot_close_on_line_with_trailing_bytes() {
    // A line holding the three delimiters but more bytes after them is
    // content, not a closing fence.
    let info = block(&b"###\n###x"[..], 0, 0, b'#');
    assert_eq!(info, (RawToken::Block(vec![Span::new(4, 8)]), 8));
}

#[test]
fn block_cannot_close_on_line_without_leading_tab() {
    // At tab count 1 the closing fence needs its first column to hold a tab.
    let info = block(&b"@@@\nx@@@\n\t@@@"[..], 0, 1, b'@');
    assert_eq!(info, (RawToken::Block(vec![Span::new(4, 8)]), 13));
}

#[test]
fn block_cannot_lex_on_empty_line() {
    let info = block(&b""[..], 0, 0, b'i');
    assert_eq!(info, (RawToken::Empty, 0));
}

#[test]
fn block_cannot_lex_on_single_character_line() {
    let info = block(&b"i"[..], 0, 0, b'i');
    assert_eq!(info, (RawToken::Invalid, 0));
}

#[test]
fn block_cannot_lex_on_double_character_line() {
    let info = block(&b"ii"[..], 0, 0, b'i');
    assert_eq!(info, (RawToken::Invalid, 0));
}
