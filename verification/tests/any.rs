use chearmyp_lexer::any;
use chearmyp_lexer::Span;
use chearmyp_lexer::Token;

#[test]
fn any_can_lex_line_comment() {
    let info = any(&b"#abc"[..], 0, 0, false);
    assert_eq!(info, (Token::LineComment(Span::new(1, 4)), 4));
}

#[test]
fn can_lex_empty_line_comment() {
    let info = any(&b"#"[..], 0, 0, false);
    assert_eq!(info, (Token::LineComment(Span::new(1, 1)), 1));
}

#[test]
fn any_can_lex_block_comment() {
    let expected_lines = vec![Span::new(4, 7)];

    let info = any(&b"###\n\tde\n###"[..], 0, 0, false);
    assert_eq!(info, (Token::BlockComment(expected_lines), 11));
}

#[test]
fn any_can_lex_simplex() {
    let info = any(&b"efg|"[..], 0, 0, false);
    assert_eq!(info, (Token::Simplex(Span::new(0, 3)), 4));
}

#[test]
fn any_can_lex_complex() {
    let info = any(&b"hi"[..], 0, 0, false);
    assert_eq!(info, (Token::Complex(Span::new(0, 2)), 2));
}

#[test]
fn any_can_lex_attacher() {
    let info = any(&b"jklm:\tn"[..], 0, 0, false);
    assert_eq!(info, (Token::Attacher(Span::new(0, 4), Span::new(6, 7)), 7));
}

#[test]
fn any_can_lex_line_othertongue() {
    let info = any(&b"= o"[..], 0, 0, false);
    assert_eq!(info, (Token::LineOthertongue(Span::new(2, 3)), 3));
}

#[test]
fn can_lex_invalid_line_othertongue_into_complex() {
    let info = any(&b"=o"[..], 0, 0, false);
    assert_eq!(info, (Token::Complex(Span::new(0, 2)), 2));
}

#[test]
fn any_can_lex_block_othertongue() {
    let expected_lines = vec![Span::new(4, 8)];

    let info = any(&b"===\npqrs\n==="[..], 0, 0, false);
    assert_eq!(info, (Token::BlockOthertongue(expected_lines), 12));
}

#[test]
fn can_lex_indented_attacher_from_new_line() {
    let info = any(&b"\ttuvw:\tx"[..], 0, 1, true);
    assert_eq!(info, (Token::Attacher(Span::new(1, 5), Span::new(7, 8)), 8));
}

#[test]
fn can_lex_line_comment() {
    let info = any(&b"#abc"[..], 0, 0, false);
    assert_eq!(info, (Token::LineComment(Span::new(1, 4)), 4));
}

#[test]
fn can_lex_block_comment() {
    let expected_lines = vec![Span::new(4, 7)];

    let info = any(&b"###\n\tde\n###"[..], 0, 0, false);
    assert_eq!(info, (Token::BlockComment(expected_lines), 11));
}

#[test]
fn can_lex_simplex() {
    let info = any(&b"efg|"[..], 0, 0, false);
    assert_eq!(info, (Token::Simplex(Span::new(0, 3)), 4));
}

#[test]
fn can_lex_complex() {
    let info = any(&b"hi"[..], 0, 0, false);
    assert_eq!(info, (Token::Complex(Span::new(0, 2)), 2));
}

#[test]
fn can_lex_attacher() {
    let info = any(&b"jklm:\tn"[..], 0, 0, false);
    assert_eq!(info, (Token::Attacher(Span::new(0, 4), Span::new(6, 7)), 7));
}

#[test]
fn can_lex_line_othertongue() {
    let info = any(&b"= o"[..], 0, 0, false);
    assert_eq!(info, (Token::LineOthertongue(Span::new(2, 3)), 3));
}

#[test]
fn can_lex_block_othertongue() {
    let expected_lines = vec![Span::new(4, 8)];

    let info = any(&b"===\npqrs\n==="[..], 0, 0, false);
    assert_eq!(info, (Token::BlockOthertongue(expected_lines), 12));
}

#[test]
fn can_lex_degenerate_block_comment() {
    // A block that closes right after opening still carries one zero-width
    // span, placed at the final offset.
    let info = any(&b"###\n###"[..], 0, 0, false);
    assert_eq!(info, (Token::BlockComment(vec![Span::new(7, 7)]), 7));
}

#[test]
fn can_make_progress_on_arbitrary_bytes() {
    // Even bytes outside every leaf form resolve to a concrete token whose
    // reported offset strictly advances.
    let info = any(&[0u8, 1u8][..], 0, 0, false);
    assert_eq!(info, (Token::Complex(Span::new(0, 2)), 2));
}

#[test]
fn can_emit_scope_level_on_changed_depth() {
    let info = any(&b"\t\tdeep"[..], 0, 0, true);
    assert_eq!(info, (Token::ScopeLevel(2), 2));
}
