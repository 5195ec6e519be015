use chearmyp_lexer::primary_lexers::attacher;
use chearmyp_lexer::primary_lexers::block_comment;
use chearmyp_lexer::primary_lexers::block_othertongue;
use chearmyp_lexer::primary_lexers::complex;
use chearmyp_lexer::primary_lexers::line_comment;
use chearmyp_lexer::primary_lexers::line_othertongue;
use chearmyp_lexer::primary_lexers::simplex;
use chearmyp_lexer::RawToken;
use chearmyp_lexer::Span;

#[test]
fn attacher_can_lex() {
    let (raw_token, consumed_size) = attacher(&b"a:\tb"[..], 0, 0);
    assert_eq!(raw_token, RawToken::Attacher(Span::new(0, 1), Span::new(3, 4)));
    assert_eq!(consumed_size, 4);

    let (raw_token, consumed_size) = attacher(&b"cd:\t\te"[..], 0, 0);
    assert_eq!(raw_token, RawToken::Attacher(Span::new(0, 2), Span::new(5, 6)));
    assert_eq!(consumed_size, 6);

    let (raw_token, consumed_size) = attacher(&b"f:\t\tg\n"[..], 0, 0);
    assert_eq!(raw_token, RawToken::Attacher(Span::new(0, 1), Span::new(4, 5)));
    assert_eq!(consumed_size, 5);

    let (raw_token, consumed_size) = attacher(&b"h:\ti\tj:\tk"[..], 0, 0);
    assert_eq!(raw_token, RawToken::Attacher(Span::new(0, 1), Span::new(3, 4)));
    assert_eq!(consumed_size, 4);
}

#[test]
fn attacher_cannot_lex() {
    let (raw_token, consumed_size) = attacher(&b"lm"[..], 0, 0);
    assert_eq!(raw_token, RawToken::Invalid);
    assert_eq!(consumed_size, 2);

    let (raw_token, consumed_size) = attacher(&b"n|"[..], 0, 0);
    assert_eq!(raw_token, RawToken::Invalid);
    assert_eq!(consumed_size, 2);

    let (raw_token, consumed_size) = attacher(&b"o:\t"[..], 0, 0);
    assert_eq!(raw_token, RawToken::Invalid);
    assert_eq!(consumed_size, 3);
}

#[test]
fn attacher_cannot_lex_without_content_before_line_ending() {
    // A newline right after the separator's padding leaves no content, so
    // the attacher fails instead of carrying an empty content span.
    let (raw_token, consumed_size) = attacher(&b"a:\t\n"[..], 0, 0);
    assert_eq!(raw_token, RawToken::Invalid);
    assert_eq!(consumed_size, 3);

    let (raw_token, consumed_size) = attacher(&b"a: \n"[..], 0, 0);
    assert_eq!(raw_token, RawToken::Invalid);
    assert_eq!(consumed_size, 3);
}

#[test]
fn attacher_can_stop_content_before_inline_othertongue() {
    // The content scan ends at the space that opens an inline othertongue.
    let (raw_token, consumed_size) = attacher(&b"k:\tv = w"[..], 0, 0);
    assert_eq!(raw_token, RawToken::Attacher(Span::new(0, 1), Span::new(3, 4)));
    assert_eq!(consumed_size, 4);
}

#[test]
fn complex_can_stop_before_inline_othertongue_with_space_after_equals_only() {
    // A bare equals sign without a following space opens nothing, so the
    // scan runs through it to the line ending.
    let (raw_token, consumed_size) = complex(&b"e =f\n"[..], 0, 0);
    assert_eq!(raw_token, RawToken::Complex(Span::new(0, 4)));
    assert_eq!(consumed_size, 4);
}

#[test]
fn can_lex_separated_by_colon_then_space() {
    let (raw_token, consumed_size) = attacher(&b"p: q"[..], 0, 0);
    assert_eq!(raw_token, RawToken::Attacher(Span::new(0, 1), Span::new(3, 4)));
    assert_eq!(consumed_size, 4);
}

#[test]
fn simplex_can_lex() {
    let (raw_token, consumed_size) = simplex(&b"a|\t"[..], 0, 0);
    assert_eq!(raw_token, RawToken::Simplex(Span::new(0, 1)));
    assert_eq!(consumed_size, 2);

    let (raw_token, consumed_size) = simplex(&b"bc|\t#"[..], 0, 0);
    assert_eq!(raw_token, RawToken::Simplex(Span::new(0, 2)));
    assert_eq!(consumed_size, 3);

    let (raw_token, consumed_size) = simplex(&b"def|\n#"[..], 0, 0);
    assert_eq!(raw_token, RawToken::Simplex(Span::new(0, 3)));
    assert_eq!(consumed_size, 4);

    let (raw_token, consumed_size) = simplex(&b"kl|"[..], 0, 0);
    assert_eq!(raw_token, RawToken::Simplex(Span::new(0, 2)));
    assert_eq!(consumed_size, 3);
}

#[test]
fn simplex_cannot_lex() {
    let (raw_token, consumed_size) = simplex(&b"g\n"[..], 0, 0);
    assert_eq!(raw_token, RawToken::Invalid);
    assert_eq!(consumed_size, 1);

    let (raw_token, consumed_size) = simplex(&b"hi\tj"[..], 0, 0);
    assert_eq!(raw_token, RawToken::Invalid);
    assert_eq!(consumed_size, 2);

    let (raw_token, consumed_size) = simplex(&b"mn"[..], 0, 0);
    assert_eq!(raw_token, RawToken::Invalid);
    assert_eq!(consumed_size, 2);

    let (raw_token, consumed_size) = simplex(&b"o: pq"[..], 0, 0);
    assert_eq!(raw_token, RawToken::Invalid);
    assert_eq!(consumed_size, 5);
}

#[test]
fn complex_can_lex() {
    let (raw_token, consumed_size) = complex(&b"a"[..], 0, 0);
    assert_eq!(raw_token, RawToken::Complex(Span::new(0, 1)));
    assert_eq!(consumed_size, 1);

    let (raw_token, consumed_size) = complex(&b"bc\t"[..], 0, 0);
    assert_eq!(raw_token, RawToken::Complex(Span::new(0, 2)));
    assert_eq!(consumed_size, 2);

    let (raw_token, consumed_size) = complex(&b"d\n"[..], 0, 0);
    assert_eq!(raw_token, RawToken::Complex(Span::new(0, 1)));
    assert_eq!(consumed_size, 1);

    let (raw_token, consumed_size) = complex(&b"e = f\n"[..], 0, 0);
    assert_eq!(raw_token, RawToken::Complex(Span::new(0, 1)));
    assert_eq!(consumed_size, 1);
}

#[test]
fn can_lex() {
    let (raw_token, consumed_size) = complex(&b"a"[..], 0, 0);
    assert_eq!(raw_token, RawToken::Complex(Span::new(0, 1)));
    assert_eq!(consumed_size, 1);

    let (raw_token, consumed_size) = complex(&b"bc\t"[..], 0, 0);
    assert_eq!(raw_token, RawToken::Complex(Span::new(0, 2)));
    assert_eq!(consumed_size, 2);

    let (raw_token, consumed_size) = complex(&b"d\n"[..], 0, 0);
    assert_eq!(raw_token, RawToken::Complex(Span::new(0, 1)));
    assert_eq!(consumed_size, 1);

    let (raw_token, consumed_size) = complex(&b"e = f\n"[..], 0, 0);
    assert_eq!(raw_token, RawToken::Complex(Span::new(0, 1)));
    assert_eq!(consumed_size, 1);
}

#[test]
fn cannot_lex() {
    let (raw_token, line_comment_size) = line_comment(&b""[..], 0);
    assert_eq!(raw_token, RawToken::Empty);
    assert_eq!(line_comment_size, 0);

    let (raw_token, line_comment_size) = line_comment(&b"\n"[..], 0);
    assert_eq!(raw_token, RawToken::Invalid);
    assert_eq!(line_comment_size, 0);
}

#[test]
fn comment_can_lex() {
    let (token, line_comment_size) = line_comment(&b"#\n"[..], 0);
    assert_eq!(token, RawToken::LineComment(Span::new(1, 1)), "Expected token of {:?}", b"#\n");
    assert_eq!(line_comment_size, 1, "Expected length of {:?}", b"#\n");

    let (token, line_comment_size) = line_comment(&b"#"[..], 0);
    assert_eq!(token, RawToken::LineComment(Span::new(1, 1)), "Expected token of {:?}", b"#");
    assert_eq!(line_comment_size, 1, "Expected length of {:?}", b"#");

    let (token, line_comment_size) = line_comment(&b"# hello"[..], 0);
    assert_eq!(token, RawToken::LineComment(Span::new(1, 7)), "Expected token of {:?}", b"# hello");
    assert_eq!(line_comment_size, 7, "Expected length of {:?}", b"# hello");

    let (token, line_comment_size) = line_comment(&b"# hi\n"[..], 0);
    assert_eq!(token, RawToken::LineComment(Span::new(1, 4)), "Expected token of {:?}", b"# hi\n");
    assert_eq!(line_comment_size, 4, "Expected length of {:?}", b"# hi\n");
}

#[test]
fn line_comment_can_lex() {
    let (raw_token, line_comment_size) = line_comment(&b"#\n"[..], 0);
    assert_eq!(raw_token, RawToken::LineComment(Span::new(1, 1)));
    assert_eq!(line_comment_size, 1);

    let (raw_token, line_comment_size) = line_comment(&b"#"[..], 0);
    assert_eq!(raw_token, RawToken::LineComment(Span::new(1, 1)));
    assert_eq!(line_comment_size, 1);

    let (raw_token, line_comment_size) = line_comment(&b"# hello"[..], 0);
    assert_eq!(raw_token, RawToken::LineComment(Span::new(1, 7)));
    assert_eq!(line_comment_size, 7);

    let (raw_token, line_comment_size) = line_comment(&b"# hi\n"[..], 0);
    assert_eq!(raw_token, RawToken::LineComment(Span::new(1, 4)));
    assert_eq!(line_comment_size, 4);
}

#[test]
fn line_comment_cannot_lex() {
    let (raw_token, line_comment_size) = line_comment(&b""[..], 0);
    assert_eq!(raw_token, RawToken::Empty);
    assert_eq!(line_comment_size, 0);

    let (raw_token, line_comment_size) = line_comment(&b"\n"[..], 0);
    assert_eq!(raw_token, RawToken::Invalid);
    assert_eq!(line_comment_size, 0);
}

#[test]
fn line_othertongue_can_lex() {
    let (raw_token, last_seen_offset) = line_othertongue(&b"= a"[..], 0);
    assert_eq!(raw_token, RawToken::LineOthertongue(Span::new(2, 3)));
    assert_eq!(last_seen_offset, 3);
}

#[test]
fn line_othertongue_cannot_lex() {
    let (raw_token, last_seen_offset) = line_othertongue(&b" = bc"[..], 0);
    assert_eq!(raw_token, RawToken::Invalid);
    assert_eq!(last_seen_offset, 0);

    let (raw_token, last_seen_offset) = line_othertongue(&b"=d"[..], 0);
    assert_eq!(raw_token, RawToken::Invalid);
    assert_eq!(last_seen_offset, 0);

    let (raw_token, last_seen_offset) = line_othertongue(&b" =e"[..], 0);
    assert_eq!(raw_token, RawToken::Invalid);
    assert_eq!(last_seen_offset, 0);

    let (raw_token, last_seen_offset) = line_othertongue(&b"f"[..], 0);
    assert_eq!(raw_token, RawToken::Invalid);
    assert_eq!(last_seen_offset, 0);
}

#[test]
fn block_comment_can_lex_empty_comment() {
    let info = block_comment(&b"###\n###"[..], 0, 0);
    assert_eq!(info, (RawToken::BlockComment(vec![Span::new(7, 7)]), 7));
}

#[test]
fn block_comment_can_lex_comment_with_unindented_line() {
    let info = block_comment(&b"###\nhello world!\n###"[..], 0, 0);
    assert_eq!(info, (RawToken::BlockComment(vec![Span::new(4, 16)]), 20));
}

#[test]
fn block_comment_can_lex_comment_with_indented_line() {
    let info = block_comment(&b"###\n\thello world!\n\t###"[..], 0, 1);
    assert_eq!(info, (RawToken::BlockComment(vec![Span::new(4, 17)]), 22));
}

#[test]
fn block_comment_can_lex_comment_with_empty_lines() {
    let info = block_comment(&b"###\n\n\n\n###"[..], 0, 0);
    assert_eq!(
        info,
        (
            RawToken::BlockComment(vec![Span::new(4, 4), Span::new(5, 5), Span::new(6, 6)]),
            10
        )
    );
}

#[test]
fn block_comment_cannot_lex_single_pound_sign() {
    let info = block_comment(&b"#"[..], 0, 0);
    assert_eq!(info, (RawToken::Invalid, 0));
}

#[test]
fn block_othertongue_can_lex_empty_othertongue() {
    let info = block_othertongue(&b"===\n==="[..], 0, 0);
    assert_eq!(info, (RawToken::BlockOthertongue(vec![Span::new(7, 7)]), 7));
}

#[test]
fn block_othertongue_can_lex_othertongue_with_single_line() {
    let info = block_othertongue(&b"===\na\n==="[..], 0, 0);
    assert_eq!(info, (RawToken::BlockOthertongue(vec![Span::new(4, 5)]), 9));
}

#[test]
fn block_othertongue_can_lex_othertongue_with_multiple_indented_lines() {
    let info = block_othertongue(&b"===\n\td\n\t\te\n\t\t==="[..], 0, 2);
    assert_eq!(
        info,
        (RawToken::BlockOthertongue(vec![Span::new(4, 6), Span::new(7, 10)]), 16)
    );
}

#[test]
fn block_othertongue_cannot_lex_on_double_character_line() {
    let info = block_othertongue(&b"=="[..], 0, 0);
    assert_eq!(info, (RawToken::Invalid, 0));
}
