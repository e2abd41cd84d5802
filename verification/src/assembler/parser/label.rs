//! Labels: their declaration, a name and `:`, and their usage, `@` and a name.

use crate::assembler::scan::{
    marked_run, run_len, skip_whitespace, skip_ws, strip_char, take_marked_run, take_run,
    CharClass,
};
use crate::assembler::{agrees, reject, AssemblerError, Parsed, Token, TokenView};
use vstd::prelude::*;

verus! {

/// The label declaration at the start of a text: a run of alphabetic
/// characters and digits, then `:`. Whitespace behind it belongs to it.
pub open spec fn label_declaration_token(s: Seq<char>) -> Parsed<TokenView> {
    let n = run_len(s, CharClass::Alphanumeric) as int;
    if 0 < n < s.len() && s[n] == ':' {
        Some((TokenView::LabelDeclaration { name: s.take(n) }, skip_ws(s.skip(n + 1))))
    } else {
        None
    }
}

/// The label usage at the start of a text: `@`, then a run of alphabetic
/// characters and digits.
pub open spec fn label_usage_token(s: Seq<char>) -> Parsed<TokenView> {
    match marked_run(s, '@', CharClass::Alphanumeric) {
        Some((name, rest)) => Some((TokenView::LabelUsage { name }, rest)),
        None => None,
    }
}

/// Reads the label declaration at the start of a text.
pub fn parse_label_declaration(input: &str) -> (result: Result<(&str, Token), AssemblerError>)
    ensures
        agrees(result, label_declaration_token(input@), input@),
{
    match take_run(input, CharClass::Alphanumeric) {
        Some((after_name, name)) => match strip_char(after_name, ':') {
            Some(after_colon) => {
                let rest = skip_whitespace(after_colon);
                proof {
                    let n = run_len(input@, CharClass::Alphanumeric) as int;
                    crate::assembler::scan::lemma_run_len_bound(input@, CharClass::Alphanumeric);
                    assert(after_colon@ =~= input@.skip(n + 1));
                }
                Ok((rest, Token::LabelDeclaration { name: name.to_owned() }))
            },
            None => {
                proof {
                    crate::assembler::scan::lemma_run_len_bound(input@, CharClass::Alphanumeric);
                }
                Err(reject(input))
            },
        },
        None => Err(reject(input)),
    }
}

/// Reads the label usage at the start of a text.
pub fn parse_label_usage(input: &str) -> (result: Result<(&str, Token), AssemblerError>)
    ensures
        agrees(result, label_usage_token(input@), input@),
{
    match take_marked_run(input, '@', CharClass::Alphanumeric) {
        Some((rest, name)) => Ok((rest, Token::LabelUsage { name: name.to_owned() })),
        None => Err(reject(input)),
    }
}

} // verus!
