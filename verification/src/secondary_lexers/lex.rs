//! The stream tokenizer: drives the dispatcher across the whole buffer.

use vstd::prelude::*;
use crate::secondary_lexers::any::any;
use crate::secondary_lexers::any::any_spec;
use crate::secondary_lexers::any::lemma_any_step;
use crate::span::lemma_source_len_fits;
use crate::special_characters::NEW_LINE;
use crate::special_characters::TAB;
use crate::token::Token;
use crate::token::TokenModel;

verus! {

/// The models of the tokens of a queue, in order.
pub open spec fn token_models(queue: Seq<Token>) -> Seq<TokenModel> {
    queue.map_values(|t: Token| t@)
}

/// The token stream that the tokenizer emits from `cursor` to the end of the
/// buffer. `tab_count` is the indentation depth of the previous non-blank
/// line, and `is_in_new_line` tells whether the cursor stands on a line whose
/// indentation has not been checked yet. Newline bytes are consumed one at a
/// time and emit nothing, as do stray tabs outside the indentation of a line;
/// every dispatcher call emits exactly one token, and a scope-level token also
/// resets the running depth.
pub open spec fn lex_scan(
    s: Seq<u8>,
    cursor: int,
    tab_count: int,
    is_in_new_line: bool,
) -> Seq<TokenModel>
    decreases s.len() - cursor, (if is_in_new_line {
        1int
    } else {
        0int
    }),
        via lex_scan_decreases
{
    if !(0 <= cursor < s.len()) || !(0 <= tab_count) || s.len() > usize::MAX {
        Seq::<TokenModel>::empty()
    } else if s[cursor] == NEW_LINE {
        lex_scan(s, cursor + 1, tab_count, true)
    } else if !is_in_new_line && s[cursor] == TAB {
        lex_scan(s, cursor + 1, tab_count, false)
    } else {
        let step = any_spec(s, cursor, tab_count, is_in_new_line);
        let next_tab_count = match step.0 {
            TokenModel::ScopeLevel(depth) => depth,
            _ => tab_count,
        };
        seq![step.0] + lex_scan(s, step.1, next_tab_count, false)
    }
}

#[via_fn]
proof fn lex_scan_decreases(s: Seq<u8>, cursor: int, tab_count: int, is_in_new_line: bool) {
    if 0 <= cursor < s.len() && 0 <= tab_count && s.len() <= usize::MAX && s[cursor] != NEW_LINE
        && (is_in_new_line || s[cursor] != TAB) {
        lemma_any_step(s, cursor, tab_count, is_in_new_line);
    }
}

/// The whole token stream of a buffer: the scan of the full source from its
/// start, at implicit initial depth 0 and with the first line still fresh.
pub open spec fn lex_spec(s: Seq<u8>) -> Seq<TokenModel> {
    lex_scan(s, 0, 0, true)
}

/// Returns a stream of tokens based on the source, appended to the given
/// token queue. This is the main lexer.
///
/// The whole buffer is consumed: blank lines are skipped invisibly, each
/// line's indentation depth is tracked with the previous depth as a hint, a
/// changed depth pushes exactly one scope-level token right before the line's
/// content tokens, and an unchanged depth pushes nothing extra. Stray tab
/// bytes outside a line's indentation separate tokens and are skipped byte by
/// byte, so the pass terminates on any input.
pub fn lex(src: &[u8], token_queue: Vec<Token>) -> (r: Vec<Token>)
    ensures
        token_models(r@) == token_models(token_queue@) + lex_spec(src@),
{
    proof {
        lemma_source_len_fits(src);
    }
    let mut queue = token_queue;
    let ghost given = queue@;
    let mut tab_count: usize = 0;
    let mut scanned_size: usize = 0;
    let mut is_in_new_line = true;
    while scanned_size < src.len()
        invariant
            scanned_size <= src@.len(),
            token_models(queue@) + lex_scan(
                src@,
                scanned_size as int,
                tab_count as int,
                is_in_new_line,
            ) == token_models(given) + lex_spec(src@),
        decreases src@.len() - scanned_size, (if is_in_new_line {
            1int
        } else {
            0int
        }),
    {
        if src[scanned_size] == NEW_LINE {
            scanned_size = scanned_size + 1;
            is_in_new_line = true;
        } else if !is_in_new_line && src[scanned_size] == TAB {
            scanned_size = scanned_size + 1;
        } else {
            proof {
                lemma_any_step(src@, scanned_size as int, tab_count as int, is_in_new_line);
            }
            let ghost step = any_spec(src@, scanned_size as int, tab_count as int, is_in_new_line);
            let ghost queue_before = queue@;
            let (token, last_seen_index) = any(src, scanned_size, tab_count, is_in_new_line);
            match token {
                Token::ScopeLevel(depth) => {
                    tab_count = depth;
                    queue.push(Token::ScopeLevel(depth));
                },
                other => {
                    queue.push(other);
                },
            }
            scanned_size = last_seen_index;
            is_in_new_line = false;
            proof {
                assert(token_models(queue@) =~= token_models(queue_before) + seq![step.0]);
                assert(token_models(queue_before) + (seq![step.0] + lex_scan(
                    src@,
                    scanned_size as int,
                    tab_count as int,
                    false,
                )) =~= (token_models(queue_before) + seq![step.0]) + lex_scan(
                    src@,
                    scanned_size as int,
                    tab_count as int,
                    false,
                ));
            }
        }
    }
    proof {
        assert(token_models(queue@) + lex_scan(
            src@,
            scanned_size as int,
            tab_count as int,
            is_in_new_line,
        ) =~= token_models(queue@));
    }
    queue
}

} // verus!
