//! The automaton of the language's tokens, as a table of states.

use vstd::prelude::*;
use crate::lexer::TokenType;
use crate::lexer::dfa::{first_match, CharClass, Dfa, State, Transition};

verus! {

pub open spec fn targets_below(ts: Seq<Transition>) -> bool {
    forall|t: int| 0 <= t < ts.len() ==> #[trigger] ts[t].target < STATE_COUNT
}

fn push_transition(ts: &mut Vec<Transition>, class: CharClass, target: usize)
    requires
        targets_below(old(ts)@),
        target < STATE_COUNT,
    ensures
        targets_below(final(ts)@),
        final(ts)@ == old(ts)@.push(Transition { class, target }),
{
    ts.push(Transition { class, target });
}

pub open spec fn all_targets_below(states: Seq<State>) -> bool {
    forall|s: int| 0 <= s < states.len() ==> targets_below(#[trigger] states[s].transitions@)
}

fn push_state(states: &mut Vec<State>, st: State)
    requires
        all_targets_below(old(states)@),
        targets_below(st.transitions@),
    ensures
        all_targets_below(final(states)@),
        final(states)@ == old(states)@.push(st),
{
    states.push(st);
}

/// Number of states of the automaton.
pub const STATE_COUNT: usize = 79;

pub const ROOT: usize = 0;
pub const WS: usize = 1;
pub const IDENT: usize = 2;
pub const ZERO: usize = 3;
pub const INT: usize = 4;
pub const POINT: usize = 5;
pub const DOT: usize = 6;
pub const SLASH: usize = 7;
pub const COMMENT: usize = 8;
pub const COMMENT_BODY: usize = 9;
pub const FRAC: usize = 10;
pub const EXP_MARK: usize = 11;
pub const EXP_SIGN: usize = 12;
pub const EXP: usize = 13;
pub const HEX0: usize = 14;
pub const HEX: usize = 15;
pub const OCT0: usize = 16;
pub const OCT: usize = 17;
pub const BIN0: usize = 18;
pub const BIN: usize = 19;
pub const RANGE: usize = 20;
pub const RANGE_INCLUSIVE: usize = 21;
pub const DIV_ASSIGN: usize = 22;
pub const DIVREM: usize = 23;
pub const DOC: usize = 24;
pub const MODULE_DOC: usize = 25;
pub const STR: usize = 26;
pub const STR_END: usize = 27;
pub const STR_ESCAPE: usize = 28;
pub const QUOTE: usize = 29;
pub const QUOTE_ESCAPE: usize = 30;
pub const LABEL: usize = 31;
pub const QUOTE_ONE: usize = 32;
pub const CHAR: usize = 33;
pub const LONG_LABEL: usize = 34;
pub const OPEN_CURLY: usize = 35;
pub const CLOSE_CURLY: usize = 36;
pub const OPEN_PAREN: usize = 37;
pub const CLOSE_PAREN: usize = 38;
pub const OPEN_BRACKET: usize = 39;
pub const CLOSE_BRACKET: usize = 40;
pub const SEMICOLON: usize = 41;
pub const COLON: usize = 42;
pub const COMMA: usize = 43;
pub const QUESTION: usize = 44;
pub const ASSIGN: usize = 45;
pub const EQUAL: usize = 46;
pub const NOT: usize = 47;
pub const NOT_EQUAL: usize = 48;
pub const ADD: usize = 49;
pub const ADD_ASSIGN: usize = 50;
pub const SUB: usize = 51;
pub const SUB_ASSIGN: usize = 52;
pub const MUL: usize = 53;
pub const MUL_ASSIGN: usize = 54;
pub const XOR: usize = 55;
pub const XOR_ASSIGN: usize = 56;
pub const LT: usize = 57;
pub const LE: usize = 58;
pub const SHL: usize = 59;
pub const SHL_ASSIGN: usize = 60;
pub const GT: usize = 61;
pub const GE: usize = 62;
pub const SHR: usize = 63;
pub const SHR_ASSIGN: usize = 64;
pub const LSHR: usize = 65;
pub const LSHR_ASSIGN: usize = 66;
pub const AND: usize = 67;
pub const AND_ASSIGN: usize = 68;
pub const LOGICAL_AND: usize = 69;
pub const LOGICAL_AND_ASSIGN: usize = 70;
pub const OR: usize = 71;
pub const OR_ASSIGN: usize = 72;
pub const LOGICAL_OR: usize = 73;
pub const LOGICAL_OR_ASSIGN: usize = 74;
pub const REM: usize = 75;
pub const REM_ASSIGN: usize = 76;
pub const MOD_MARK: usize = 77;
pub const MOD_ASSIGN: usize = 78;

pub open spec fn root_transitions() -> Seq<Transition> {
    seq![
        Transition { class: CharClass::XidStart, target: IDENT },
        Transition { class: CharClass::Single('_'), target: IDENT },
        Transition { class: CharClass::Single('0'), target: ZERO },
        Transition { class: CharClass::Range('1', '9'), target: INT },
        Transition { class: CharClass::Single('.'), target: DOT },
        Transition { class: CharClass::Single('/'), target: SLASH },
        Transition { class: CharClass::Single(' '), target: WS },
        Transition { class: CharClass::Single('\t'), target: WS },
        Transition { class: CharClass::Single('\r'), target: WS },
        Transition { class: CharClass::Single('\n'), target: WS },
        Transition { class: CharClass::Single('"'), target: STR },
        Transition { class: CharClass::Single('\''), target: QUOTE },
        Transition { class: CharClass::Single('{'), target: OPEN_CURLY },
        Transition { class: CharClass::Single('}'), target: CLOSE_CURLY },
        Transition { class: CharClass::Single('('), target: OPEN_PAREN },
        Transition { class: CharClass::Single(')'), target: CLOSE_PAREN },
        Transition { class: CharClass::Single('['), target: OPEN_BRACKET },
        Transition { class: CharClass::Single(']'), target: CLOSE_BRACKET },
        Transition { class: CharClass::Single(';'), target: SEMICOLON },
        Transition { class: CharClass::Single(':'), target: COLON },
        Transition { class: CharClass::Single(','), target: COMMA },
        Transition { class: CharClass::Single('?'), target: QUESTION },
        Transition { class: CharClass::Single('='), target: ASSIGN },
        Transition { class: CharClass::Single('!'), target: NOT },
        Transition { class: CharClass::Single('+'), target: ADD },
        Transition { class: CharClass::Single('-'), target: SUB },
        Transition { class: CharClass::Single('*'), target: MUL },
        Transition { class: CharClass::Single('^'), target: XOR },
        Transition { class: CharClass::Single('<'), target: LT },
        Transition { class: CharClass::Single('>'), target: GT },
        Transition { class: CharClass::Single('&'), target: AND },
        Transition { class: CharClass::Single('|'), target: OR },
        Transition { class: CharClass::Single('%'), target: REM },
    ]
}

pub open spec fn ws_transitions() -> Seq<Transition> {
    seq![
        Transition { class: CharClass::Single(' '), target: WS },
        Transition { class: CharClass::Single('\t'), target: WS },
        Transition { class: CharClass::Single('\r'), target: WS },
        Transition { class: CharClass::Single('\n'), target: WS },
    ]
}

pub open spec fn ident_transitions() -> Seq<Transition> {
    seq![
        Transition { class: CharClass::XidContinue, target: IDENT },
    ]
}

pub open spec fn zero_transitions() -> Seq<Transition> {
    seq![
        Transition { class: CharClass::Range('0', '9'), target: INT },
        Transition { class: CharClass::Single('.'), target: POINT },
        Transition { class: CharClass::Single('_'), target: INT },
        Transition { class: CharClass::Single('x'), target: HEX0 },
        Transition { class: CharClass::Single('o'), target: OCT0 },
        Transition { class: CharClass::Single('b'), target: BIN0 },
    ]
}

pub open spec fn int_transitions() -> Seq<Transition> {
    seq![
        Transition { class: CharClass::Range('0', '9'), target: INT },
        Transition { class: CharClass::Single('.'), target: POINT },
        Transition { class: CharClass::Single('_'), target: INT },
    ]
}

pub open spec fn point_transitions() -> Seq<Transition> {
    seq![
        Transition { class: CharClass::Range('0', '9'), target: FRAC },
    ]
}

pub open spec fn dot_transitions() -> Seq<Transition> {
    seq![
        Transition { class: CharClass::Single('.'), target: RANGE },
    ]
}

pub open spec fn slash_transitions() -> Seq<Transition> {
    seq![
        Transition { class: CharClass::Single('/'), target: COMMENT },
        Transition { class: CharClass::Single('='), target: DIV_ASSIGN },
        Transition { class: CharClass::Single('%'), target: DIVREM },
    ]
}

pub open spec fn comment_transitions() -> Seq<Transition> {
    seq![
        Transition { class: CharClass::Single('/'), target: DOC },
        Transition { class: CharClass::Single('!'), target: MODULE_DOC },
        Transition { class: CharClass::AnyExcept('\n'), target: COMMENT_BODY },
    ]
}

pub open spec fn comment_body_transitions() -> Seq<Transition> {
    seq![
        Transition { class: CharClass::AnyExcept('\n'), target: COMMENT_BODY },
    ]
}

fn state_root() -> (r: State)
    ensures
        targets_below(r.transitions@),
        r.accept is None,
        r.transitions@ == root_transitions(),
{
    let mut ts: Vec<Transition> = Vec::new();
    push_transition(&mut ts, CharClass::XidStart, IDENT);
    push_transition(&mut ts, CharClass::Single('_'), IDENT);
    push_transition(&mut ts, CharClass::Single('0'), ZERO);
    push_transition(&mut ts, CharClass::Range('1', '9'), INT);
    push_transition(&mut ts, CharClass::Single('.'), DOT);
    push_transition(&mut ts, CharClass::Single('/'), SLASH);
    push_transition(&mut ts, CharClass::Single(' '), WS);
    push_transition(&mut ts, CharClass::Single('\t'), WS);
    push_transition(&mut ts, CharClass::Single('\r'), WS);
    push_transition(&mut ts, CharClass::Single('\n'), WS);
    push_transition(&mut ts, CharClass::Single('"'), STR);
    push_transition(&mut ts, CharClass::Single('\''), QUOTE);
    push_transition(&mut ts, CharClass::Single('{'), OPEN_CURLY);
    push_transition(&mut ts, CharClass::Single('}'), CLOSE_CURLY);
    push_transition(&mut ts, CharClass::Single('('), OPEN_PAREN);
    push_transition(&mut ts, CharClass::Single(')'), CLOSE_PAREN);
    push_transition(&mut ts, CharClass::Single('['), OPEN_BRACKET);
    push_transition(&mut ts, CharClass::Single(']'), CLOSE_BRACKET);
    push_transition(&mut ts, CharClass::Single(';'), SEMICOLON);
    push_transition(&mut ts, CharClass::Single(':'), COLON);
    push_transition(&mut ts, CharClass::Single(','), COMMA);
    push_transition(&mut ts, CharClass::Single('?'), QUESTION);
    push_transition(&mut ts, CharClass::Single('='), ASSIGN);
    push_transition(&mut ts, CharClass::Single('!'), NOT);
    push_transition(&mut ts, CharClass::Single('+'), ADD);
    push_transition(&mut ts, CharClass::Single('-'), SUB);
    push_transition(&mut ts, CharClass::Single('*'), MUL);
    push_transition(&mut ts, CharClass::Single('^'), XOR);
    push_transition(&mut ts, CharClass::Single('<'), LT);
    push_transition(&mut ts, CharClass::Single('>'), GT);
    push_transition(&mut ts, CharClass::Single('&'), AND);
    push_transition(&mut ts, CharClass::Single('|'), OR);
    push_transition(&mut ts, CharClass::Single('%'), REM);
    assert(ts@ =~= root_transitions());
    State { accept: None, transitions: ts }
}

fn state_ws() -> (r: State)
    ensures
        targets_below(r.transitions@),
        r.accept == Some(TokenType::Whitespace),
        r.transitions@ == ws_transitions(),
{
    let mut ts: Vec<Transition> = Vec::new();
    push_transition(&mut ts, CharClass::Single(' '), WS);
    push_transition(&mut ts, CharClass::Single('\t'), WS);
    push_transition(&mut ts, CharClass::Single('\r'), WS);
    push_transition(&mut ts, CharClass::Single('\n'), WS);
    assert(ts@ =~= ws_transitions());
    State { accept: Some(TokenType::Whitespace), transitions: ts }
}

fn state_ident() -> (r: State)
    ensures
        targets_below(r.transitions@),
        r.accept == Some(TokenType::Identifier),
        r.transitions@ == ident_transitions(),
{
    let mut ts: Vec<Transition> = Vec::new();
    push_transition(&mut ts, CharClass::XidContinue, IDENT);
    assert(ts@ =~= ident_transitions());
    State { accept: Some(TokenType::Identifier), transitions: ts }
}

fn state_zero() -> (r: State)
    ensures
        targets_below(r.transitions@),
        r.accept == Some(TokenType::IntLiteral),
        r.transitions@ == zero_transitions(),
{
    let mut ts: Vec<Transition> = Vec::new();
    push_transition(&mut ts, CharClass::Range('0', '9'), INT);
    push_transition(&mut ts, CharClass::Single('.'), POINT);
    push_transition(&mut ts, CharClass::Single('_'), INT);
    push_transition(&mut ts, CharClass::Single('x'), HEX0);
    push_transition(&mut ts, CharClass::Single('o'), OCT0);
    push_transition(&mut ts, CharClass::Single('b'), BIN0);
    assert(ts@ =~= zero_transitions());
    State { accept: Some(TokenType::IntLiteral), transitions: ts }
}

fn state_int() -> (r: State)
    ensures
        targets_below(r.transitions@),
        r.accept == Some(TokenType::IntLiteral),
        r.transitions@ == int_transitions(),
{
    let mut ts: Vec<Transition> = Vec::new();
    push_transition(&mut ts, CharClass::Range('0', '9'), INT);
    push_transition(&mut ts, CharClass::Single('.'), POINT);
    push_transition(&mut ts, CharClass::Single('_'), INT);
    assert(ts@ =~= int_transitions());
    State { accept: Some(TokenType::IntLiteral), transitions: ts }
}

fn state_point() -> (r: State)
    ensures
        targets_below(r.transitions@),
        r.accept is None,
        r.transitions@ == point_transitions(),
{
    let mut ts: Vec<Transition> = Vec::new();
    push_transition(&mut ts, CharClass::Range('0', '9'), FRAC);
    assert(ts@ =~= point_transitions());
    State { accept: None, transitions: ts }
}

fn state_dot() -> (r: State)
    ensures
        targets_below(r.transitions@),
        r.accept == Some(TokenType::Dot),
        r.transitions@ == dot_transitions(),
{
    let mut ts: Vec<Transition> = Vec::new();
    push_transition(&mut ts, CharClass::Single('.'), RANGE);
    assert(ts@ =~= dot_transitions());
    State { accept: Some(TokenType::Dot), transitions: ts }
}

fn state_slash() -> (r: State)
    ensures
        targets_below(r.transitions@),
        r.accept == Some(TokenType::Div),
        r.transitions@ == slash_transitions(),
{
    let mut ts: Vec<Transition> = Vec::new();
    push_transition(&mut ts, CharClass::Single('/'), COMMENT);
    push_transition(&mut ts, CharClass::Single('='), DIV_ASSIGN);
    push_transition(&mut ts, CharClass::Single('%'), DIVREM);
    assert(ts@ =~= slash_transitions());
    State { accept: Some(TokenType::Div), transitions: ts }
}

fn state_comment() -> (r: State)
    ensures
        targets_below(r.transitions@),
        r.accept == Some(TokenType::Comment),
        r.transitions@ == comment_transitions(),
{
    let mut ts: Vec<Transition> = Vec::new();
    push_transition(&mut ts, CharClass::Single('/'), DOC);
    push_transition(&mut ts, CharClass::Single('!'), MODULE_DOC);
    push_transition(&mut ts, CharClass::AnyExcept('\n'), COMMENT_BODY);
    assert(ts@ =~= comment_transitions());
    State { accept: Some(TokenType::Comment), transitions: ts }
}

fn state_comment_body() -> (r: State)
    ensures
        targets_below(r.transitions@),
        r.accept == Some(TokenType::Comment),
        r.transitions@ == comment_body_transitions(),
{
    let mut ts: Vec<Transition> = Vec::new();
    push_transition(&mut ts, CharClass::AnyExcept('\n'), COMMENT_BODY);
    assert(ts@ =~= comment_body_transitions());
    State { accept: Some(TokenType::Comment), transitions: ts }
}

fn state_frac() -> (r: State)
    ensures
        targets_below(r.transitions@),
        r.accept == Some(TokenType::FloatLiteral),
{
    let mut ts: Vec<Transition> = Vec::new();
    push_transition(&mut ts, CharClass::Range('0', '9'), FRAC);
    push_transition(&mut ts, CharClass::Single('_'), FRAC);
    push_transition(&mut ts, CharClass::Single('e'), EXP_MARK);
    push_transition(&mut ts, CharClass::Single('E'), EXP_MARK);
    State { accept: Some(TokenType::FloatLiteral), transitions: ts }
}

fn state_exp_mark() -> (r: State)
    ensures
        targets_below(r.transitions@),
        r.accept is None,
{
    let mut ts: Vec<Transition> = Vec::new();
    push_transition(&mut ts, CharClass::Single('+'), EXP_SIGN);
    push_transition(&mut ts, CharClass::Single('-'), EXP_SIGN);
    push_transition(&mut ts, CharClass::Range('0', '9'), EXP);
    State { accept: None, transitions: ts }
}

fn state_exp_sign() -> (r: State)
    ensures
        targets_below(r.transitions@),
        r.accept is None,
{
    let mut ts: Vec<Transition> = Vec::new();
    push_transition(&mut ts, CharClass::Range('0', '9'), EXP);
    State { accept: None, transitions: ts }
}

fn state_exp() -> (r: State)
    ensures
        targets_below(r.transitions@),
        r.accept == Some(TokenType::FloatLiteral),
{
    let mut ts: Vec<Transition> = Vec::new();
    push_transition(&mut ts, CharClass::Range('0', '9'), EXP);
    State { accept: Some(TokenType::FloatLiteral), transitions: ts }
}

fn state_hex0() -> (r: State)
    ensures
        targets_below(r.transitions@),
        r.accept is None,
{
    let mut ts: Vec<Transition> = Vec::new();
    push_transition(&mut ts, CharClass::Range('0', '9'), HEX);
    push_transition(&mut ts, CharClass::Range('a', 'f'), HEX);
    push_transition(&mut ts, CharClass::Range('A', 'F'), HEX);
    State { accept: None, transitions: ts }
}

fn state_hex() -> (r: State)
    ensures
        targets_below(r.transitions@),
        r.accept == Some(TokenType::HexLiteral),
{
    let mut ts: Vec<Transition> = Vec::new();
    push_transition(&mut ts, CharClass::Range('0', '9'), HEX);
    push_transition(&mut ts, CharClass::Range('a', 'f'), HEX);
    push_transition(&mut ts, CharClass::Range('A', 'F'), HEX);
    push_transition(&mut ts, CharClass::Single('_'), HEX);
    State { accept: Some(TokenType::HexLiteral), transitions: ts }
}

fn state_oct0() -> (r: State)
    ensures
        targets_below(r.transitions@),
        r.accept is None,
{
    let mut ts: Vec<Transition> = Vec::new();
    push_transition(&mut ts, CharClass::Range('0', '7'), OCT);
    State { accept: None, transitions: ts }
}

fn state_oct() -> (r: State)
    ensures
        targets_below(r.transitions@),
        r.accept == Some(TokenType::OctLiteral),
{
    let mut ts: Vec<Transition> = Vec::new();
    push_transition(&mut ts, CharClass::Range('0', '7'), OCT);
    push_transition(&mut ts, CharClass::Single('_'), OCT);
    State { accept: Some(TokenType::OctLiteral), transitions: ts }
}

fn state_bin0() -> (r: State)
    ensures
        targets_below(r.transitions@),
        r.accept is None,
{
    let mut ts: Vec<Transition> = Vec::new();
    push_transition(&mut ts, CharClass::Range('0', '1'), BIN);
    State { accept: None, transitions: ts }
}

fn state_bin() -> (r: State)
    ensures
        targets_below(r.transitions@),
        r.accept == Some(TokenType::BinLiteral),
{
    let mut ts: Vec<Transition> = Vec::new();
    push_transition(&mut ts, CharClass::Range('0', '1'), BIN);
    push_transition(&mut ts, CharClass::Single('_'), BIN);
    State { accept: Some(TokenType::BinLiteral), transitions: ts }
}

fn state_range() -> (r: State)
    ensures
        targets_below(r.transitions@),
        r.accept == Some(TokenType::RangeExclusive),
{
    let mut ts: Vec<Transition> = Vec::new();
    push_transition(&mut ts, CharClass::Single('='), RANGE_INCLUSIVE);
    State { accept: Some(TokenType::RangeExclusive), transitions: ts }
}

fn state_range_inclusive() -> (r: State)
    ensures
        targets_below(r.transitions@),
        r.accept == Some(TokenType::RangeInclusive),
{
    let mut ts: Vec<Transition> = Vec::new();
    State { accept: Some(TokenType::RangeInclusive), transitions: ts }
}

fn state_div_assign() -> (r: State)
    ensures
        targets_below(r.transitions@),
        r.accept == Some(TokenType::DivAssign),
{
    let mut ts: Vec<Transition> = Vec::new();
    State { accept: Some(TokenType::DivAssign), transitions: ts }
}

fn state_divrem() -> (r: State)
    ensures
        targets_below(r.transitions@),
        r.accept == Some(TokenType::DivRem),
{
    let mut ts: Vec<Transition> = Vec::new();
    State { accept: Some(TokenType::DivRem), transitions: ts }
}

fn state_doc() -> (r: State)
    ensures
        targets_below(r.transitions@),
        r.accept == Some(TokenType::DocComment),
{
    let mut ts: Vec<Transition> = Vec::new();
    push_transition(&mut ts, CharClass::AnyExcept('\n'), DOC);
    State { accept: Some(TokenType::DocComment), transitions: ts }
}

fn state_module_doc() -> (r: State)
    ensures
        targets_below(r.transitions@),
        r.accept == Some(TokenType::ModuleDocComment),
{
    let mut ts: Vec<Transition> = Vec::new();
    push_transition(&mut ts, CharClass::AnyExcept('\n'), MODULE_DOC);
    State { accept: Some(TokenType::ModuleDocComment), transitions: ts }
}

fn state_str() -> (r: State)
    ensures
        targets_below(r.transitions@),
        r.accept is None,
{
    let mut ts: Vec<Transition> = Vec::new();
    push_transition(&mut ts, CharClass::Single('"'), STR_END);
    push_transition(&mut ts, CharClass::Single('\\'), STR_ESCAPE);
    push_transition(&mut ts, CharClass::AnyExcept('\n'), STR);
    State { accept: None, transitions: ts }
}

fn state_str_end() -> (r: State)
    ensures
        targets_below(r.transitions@),
        r.accept == Some(TokenType::StringLiteral),
{
    let mut ts: Vec<Transition> = Vec::new();
    State { accept: Some(TokenType::StringLiteral), transitions: ts }
}

fn state_str_escape() -> (r: State)
    ensures
        targets_below(r.transitions@),
        r.accept is None,
{
    let mut ts: Vec<Transition> = Vec::new();
    push_transition(&mut ts, CharClass::AnyExcept('\n'), STR);
    State { accept: None, transitions: ts }
}

fn state_quote() -> (r: State)
    ensures
        targets_below(r.transitions@),
        r.accept is None,
{
    let mut ts: Vec<Transition> = Vec::new();
    push_transition(&mut ts, CharClass::Single('\\'), QUOTE_ESCAPE);
    push_transition(&mut ts, CharClass::XidStart, LABEL);
    push_transition(&mut ts, CharClass::Single('_'), LABEL);
    push_transition(&mut ts, CharClass::AnyExcept('\n'), QUOTE_ONE);
    State { accept: None, transitions: ts }
}

fn state_quote_escape() -> (r: State)
    ensures
        targets_below(r.transitions@),
        r.accept is None,
{
    let mut ts: Vec<Transition> = Vec::new();
    push_transition(&mut ts, CharClass::AnyExcept('\n'), QUOTE_ONE);
    State { accept: None, transitions: ts }
}

fn state_label() -> (r: State)
    ensures
        targets_below(r.transitions@),
        r.accept == Some(TokenType::Label),
{
    let mut ts: Vec<Transition> = Vec::new();
    push_transition(&mut ts, CharClass::Single('\''), CHAR);
    push_transition(&mut ts, CharClass::XidContinue, LONG_LABEL);
    State { accept: Some(TokenType::Label), transitions: ts }
}

fn state_quote_one() -> (r: State)
    ensures
        targets_below(r.transitions@),
        r.accept is None,
{
    let mut ts: Vec<Transition> = Vec::new();
    push_transition(&mut ts, CharClass::Single('\''), CHAR);
    State { accept: None, transitions: ts }
}

fn state_char() -> (r: State)
    ensures
        targets_below(r.transitions@),
        r.accept == Some(TokenType::CharLiteral),
{
    let mut ts: Vec<Transition> = Vec::new();
    State { accept: Some(TokenType::CharLiteral), transitions: ts }
}

fn state_long_label() -> (r: State)
    ensures
        targets_below(r.transitions@),
        r.accept == Some(TokenType::Label),
{
    let mut ts: Vec<Transition> = Vec::new();
    push_transition(&mut ts, CharClass::XidContinue, LONG_LABEL);
    State { accept: Some(TokenType::Label), transitions: ts }
}

fn state_open_curly() -> (r: State)
    ensures
        targets_below(r.transitions@),
        r.accept == Some(TokenType::OpenCurly),
{
    let mut ts: Vec<Transition> = Vec::new();
    State { accept: Some(TokenType::OpenCurly), transitions: ts }
}

fn state_close_curly() -> (r: State)
    ensures
        targets_below(r.transitions@),
        r.accept == Some(TokenType::CloseCurly),
{
    let mut ts: Vec<Transition> = Vec::new();
    State { accept: Some(TokenType::CloseCurly), transitions: ts }
}

fn state_open_paren() -> (r: State)
    ensures
        targets_below(r.transitions@),
        r.accept == Some(TokenType::OpenParen),
{
    let mut ts: Vec<Transition> = Vec::new();
    State { accept: Some(TokenType::OpenParen), transitions: ts }
}

fn state_close_paren() -> (r: State)
    ensures
        targets_below(r.transitions@),
        r.accept == Some(TokenType::CloseParen),
{
    let mut ts: Vec<Transition> = Vec::new();
    State { accept: Some(TokenType::CloseParen), transitions: ts }
}

fn state_open_bracket() -> (r: State)
    ensures
        targets_below(r.transitions@),
        r.accept == Some(TokenType::OpenBracket),
{
    let mut ts: Vec<Transition> = Vec::new();
    State { accept: Some(TokenType::OpenBracket), transitions: ts }
}

fn state_close_bracket() -> (r: State)
    ensures
        targets_below(r.transitions@),
        r.accept == Some(TokenType::CloseBracket),
{
    let mut ts: Vec<Transition> = Vec::new();
    State { accept: Some(TokenType::CloseBracket), transitions: ts }
}

fn state_semicolon() -> (r: State)
    ensures
        targets_below(r.transitions@),
        r.accept == Some(TokenType::Semicolon),
{
    let mut ts: Vec<Transition> = Vec::new();
    State { accept: Some(TokenType::Semicolon), transitions: ts }
}

fn state_colon() -> (r: State)
    ensures
        targets_below(r.transitions@),
        r.accept == Some(TokenType::Colon),
{
    let mut ts: Vec<Transition> = Vec::new();
    State { accept: Some(TokenType::Colon), transitions: ts }
}

fn state_comma() -> (r: State)
    ensures
        targets_below(r.transitions@),
        r.accept == Some(TokenType::Comma),
{
    let mut ts: Vec<Transition> = Vec::new();
    State { accept: Some(TokenType::Comma), transitions: ts }
}

fn state_question() -> (r: State)
    ensures
        targets_below(r.transitions@),
        r.accept == Some(TokenType::Question),
{
    let mut ts: Vec<Transition> = Vec::new();
    State { accept: Some(TokenType::Question), transitions: ts }
}

fn state_assign() -> (r: State)
    ensures
        targets_below(r.transitions@),
        r.accept == Some(TokenType::Assign),
{
    let mut ts: Vec<Transition> = Vec::new();
    push_transition(&mut ts, CharClass::Single('='), EQUAL);
    State { accept: Some(TokenType::Assign), transitions: ts }
}

fn state_equal() -> (r: State)
    ensures
        targets_below(r.transitions@),
        r.accept == Some(TokenType::Equal),
{
    let mut ts: Vec<Transition> = Vec::new();
    State { accept: Some(TokenType::Equal), transitions: ts }
}

fn state_not() -> (r: State)
    ensures
        targets_below(r.transitions@),
        r.accept == Some(TokenType::Not),
{
    let mut ts: Vec<Transition> = Vec::new();
    push_transition(&mut ts, CharClass::Single('='), NOT_EQUAL);
    State { accept: Some(TokenType::Not), transitions: ts }
}

fn state_not_equal() -> (r: State)
    ensures
        targets_below(r.transitions@),
        r.accept == Some(TokenType::NotEqual),
{
    let mut ts: Vec<Transition> = Vec::new();
    State { accept: Some(TokenType::NotEqual), transitions: ts }
}

fn state_add() -> (r: State)
    ensures
        targets_below(r.transitions@),
        r.accept == Some(TokenType::Add),
{
    let mut ts: Vec<Transition> = Vec::new();
    push_transition(&mut ts, CharClass::Single('='), ADD_ASSIGN);
    State { accept: Some(TokenType::Add), transitions: ts }
}

fn state_add_assign() -> (r: State)
    ensures
        targets_below(r.transitions@),
        r.accept == Some(TokenType::AddAssign),
{
    let mut ts: Vec<Transition> = Vec::new();
    State { accept: Some(TokenType::AddAssign), transitions: ts }
}

fn state_sub() -> (r: State)
    ensures
        targets_below(r.transitions@),
        r.accept == Some(TokenType::Sub),
{
    let mut ts: Vec<Transition> = Vec::new();
    push_transition(&mut ts, CharClass::Single('='), SUB_ASSIGN);
    State { accept: Some(TokenType::Sub), transitions: ts }
}

fn state_sub_assign() -> (r: State)
    ensures
        targets_below(r.transitions@),
        r.accept == Some(TokenType::SubAssign),
{
    let mut ts: Vec<Transition> = Vec::new();
    State { accept: Some(TokenType::SubAssign), transitions: ts }
}

fn state_mul() -> (r: State)
    ensures
        targets_below(r.transitions@),
        r.accept == Some(TokenType::Mul),
{
    let mut ts: Vec<Transition> = Vec::new();
    push_transition(&mut ts, CharClass::Single('='), MUL_ASSIGN);
    State { accept: Some(TokenType::Mul), transitions: ts }
}

fn state_mul_assign() -> (r: State)
    ensures
        targets_below(r.transitions@),
        r.accept == Some(TokenType::MulAssign),
{
    let mut ts: Vec<Transition> = Vec::new();
    State { accept: Some(TokenType::MulAssign), transitions: ts }
}

fn state_xor() -> (r: State)
    ensures
        targets_below(r.transitions@),
        r.accept == Some(TokenType::BitXor),
{
    let mut ts: Vec<Transition> = Vec::new();
    push_transition(&mut ts, CharClass::Single('='), XOR_ASSIGN);
    State { accept: Some(TokenType::BitXor), transitions: ts }
}

fn state_xor_assign() -> (r: State)
    ensures
        targets_below(r.transitions@),
        r.accept == Some(TokenType::BitXorAssign),
{
    let mut ts: Vec<Transition> = Vec::new();
    State { accept: Some(TokenType::BitXorAssign), transitions: ts }
}

fn state_lt() -> (r: State)
    ensures
        targets_below(r.transitions@),
        r.accept == Some(TokenType::LessThan),
{
    let mut ts: Vec<Transition> = Vec::new();
    push_transition(&mut ts, CharClass::Single('='), LE);
    push_transition(&mut ts, CharClass::Single('<'), SHL);
    State { accept: Some(TokenType::LessThan), transitions: ts }
}

fn state_le() -> (r: State)
    ensures
        targets_below(r.transitions@),
        r.accept == Some(TokenType::LessOrEqual),
{
    let mut ts: Vec<Transition> = Vec::new();
    State { accept: Some(TokenType::LessOrEqual), transitions: ts }
}

fn state_shl() -> (r: State)
    ensures
        targets_below(r.transitions@),
        r.accept == Some(TokenType::Shl),
{
    let mut ts: Vec<Transition> = Vec::new();
    push_transition(&mut ts, CharClass::Single('='), SHL_ASSIGN);
    State { accept: Some(TokenType::Shl), transitions: ts }
}

fn state_shl_assign() -> (r: State)
    ensures
        targets_below(r.transitions@),
        r.accept == Some(TokenType::ShlAssign),
{
    let mut ts: Vec<Transition> = Vec::new();
    State { accept: Some(TokenType::ShlAssign), transitions: ts }
}

fn state_gt() -> (r: State)
    ensures
        targets_below(r.transitions@),
        r.accept == Some(TokenType::GreaterThan),
{
    let mut ts: Vec<Transition> = Vec::new();
    push_transition(&mut ts, CharClass::Single('='), GE);
    push_transition(&mut ts, CharClass::Single('>'), SHR);
    State { accept: Some(TokenType::GreaterThan), transitions: ts }
}

fn state_ge() -> (r: State)
    ensures
        targets_below(r.transitions@),
        r.accept == Some(TokenType::GreaterOrEqual),
{
    let mut ts: Vec<Transition> = Vec::new();
    State { accept: Some(TokenType::GreaterOrEqual), transitions: ts }
}

fn state_shr() -> (r: State)
    ensures
        targets_below(r.transitions@),
        r.accept == Some(TokenType::Shr),
{
    let mut ts: Vec<Transition> = Vec::new();
    push_transition(&mut ts, CharClass::Single('='), SHR_ASSIGN);
    push_transition(&mut ts, CharClass::Single('>'), LSHR);
    State { accept: Some(TokenType::Shr), transitions: ts }
}

fn state_shr_assign() -> (r: State)
    ensures
        targets_below(r.transitions@),
        r.accept == Some(TokenType::ShrAssign),
{
    let mut ts: Vec<Transition> = Vec::new();
    State { accept: Some(TokenType::ShrAssign), transitions: ts }
}

fn state_lshr() -> (r: State)
    ensures
        targets_below(r.transitions@),
        r.accept == Some(TokenType::LShr),
{
    let mut ts: Vec<Transition> = Vec::new();
    push_transition(&mut ts, CharClass::Single('='), LSHR_ASSIGN);
    State { accept: Some(TokenType::LShr), transitions: ts }
}

fn state_lshr_assign() -> (r: State)
    ensures
        targets_below(r.transitions@),
        r.accept == Some(TokenType::LShrAssign),
{
    let mut ts: Vec<Transition> = Vec::new();
    State { accept: Some(TokenType::LShrAssign), transitions: ts }
}

fn state_and() -> (r: State)
    ensures
        targets_below(r.transitions@),
        r.accept == Some(TokenType::BitAnd),
{
    let mut ts: Vec<Transition> = Vec::new();
    push_transition(&mut ts, CharClass::Single('='), AND_ASSIGN);
    push_transition(&mut ts, CharClass::Single('&'), LOGICAL_AND);
    State { accept: Some(TokenType::BitAnd), transitions: ts }
}

fn state_and_assign() -> (r: State)
    ensures
        targets_below(r.transitions@),
        r.accept == Some(TokenType::BitAndAssign),
{
    let mut ts: Vec<Transition> = Vec::new();
    State { accept: Some(TokenType::BitAndAssign), transitions: ts }
}

fn state_logical_and() -> (r: State)
    ensures
        targets_below(r.transitions@),
        r.accept == Some(TokenType::LogicalAnd),
{
    let mut ts: Vec<Transition> = Vec::new();
    push_transition(&mut ts, CharClass::Single('='), LOGICAL_AND_ASSIGN);
    State { accept: Some(TokenType::LogicalAnd), transitions: ts }
}

fn state_logical_and_assign() -> (r: State)
    ensures
        targets_below(r.transitions@),
        r.accept == Some(TokenType::LogicalAndAssign),
{
    let mut ts: Vec<Transition> = Vec::new();
    State { accept: Some(TokenType::LogicalAndAssign), transitions: ts }
}

fn state_or() -> (r: State)
    ensures
        targets_below(r.transitions@),
        r.accept == Some(TokenType::BitOr),
{
    let mut ts: Vec<Transition> = Vec::new();
    push_transition(&mut ts, CharClass::Single('='), OR_ASSIGN);
    push_transition(&mut ts, CharClass::Single('|'), LOGICAL_OR);
    State { accept: Some(TokenType::BitOr), transitions: ts }
}

fn state_or_assign() -> (r: State)
    ensures
        targets_below(r.transitions@),
        r.accept == Some(TokenType::BitOrAssign),
{
    let mut ts: Vec<Transition> = Vec::new();
    State { accept: Some(TokenType::BitOrAssign), transitions: ts }
}

fn state_logical_or() -> (r: State)
    ensures
        targets_below(r.transitions@),
        r.accept == Some(TokenType::LogicalOr),
{
    let mut ts: Vec<Transition> = Vec::new();
    push_transition(&mut ts, CharClass::Single('='), LOGICAL_OR_ASSIGN);
    State { accept: Some(TokenType::LogicalOr), transitions: ts }
}

fn state_logical_or_assign() -> (r: State)
    ensures
        targets_below(r.transitions@),
        r.accept == Some(TokenType::LogicalOrAssign),
{
    let mut ts: Vec<Transition> = Vec::new();
    State { accept: Some(TokenType::LogicalOrAssign), transitions: ts }
}

fn state_rem() -> (r: State)
    ensures
        targets_below(r.transitions@),
        r.accept == Some(TokenType::Rem),
{
    let mut ts: Vec<Transition> = Vec::new();
    push_transition(&mut ts, CharClass::Single('='), REM_ASSIGN);
    push_transition(&mut ts, CharClass::Single('%'), MOD_MARK);
    State { accept: Some(TokenType::Rem), transitions: ts }
}

fn state_rem_assign() -> (r: State)
    ensures
        targets_below(r.transitions@),
        r.accept == Some(TokenType::RemAssign),
{
    let mut ts: Vec<Transition> = Vec::new();
    State { accept: Some(TokenType::RemAssign), transitions: ts }
}

fn state_mod_mark() -> (r: State)
    ensures
        targets_below(r.transitions@),
        r.accept is None,
{
    let mut ts: Vec<Transition> = Vec::new();
    push_transition(&mut ts, CharClass::Single('='), MOD_ASSIGN);
    State { accept: None, transitions: ts }
}

fn state_mod_assign() -> (r: State)
    ensures
        targets_below(r.transitions@),
        r.accept == Some(TokenType::ModAssign),
{
    let mut ts: Vec<Transition> = Vec::new();
    State { accept: Some(TokenType::ModAssign), transitions: ts }
}


/// Pushes the states the stated facts rest on, numbered from 0.
fn push_core_states(states: &mut Vec<State>)
    requires
        old(states)@.len() == 0,
    ensures
        all_targets_below(final(states)@),
        final(states)@.len() == 10,
        final(states)@[ROOT as int].accept is None,
        final(states)@[ROOT as int].transitions@ == root_transitions(),
        final(states)@[WS as int].accept == Some(TokenType::Whitespace),
        final(states)@[WS as int].transitions@ == ws_transitions(),
        final(states)@[IDENT as int].accept == Some(TokenType::Identifier),
        final(states)@[IDENT as int].transitions@ == ident_transitions(),
        final(states)@[ZERO as int].accept == Some(TokenType::IntLiteral),
        final(states)@[ZERO as int].transitions@ == zero_transitions(),
        final(states)@[INT as int].accept == Some(TokenType::IntLiteral),
        final(states)@[INT as int].transitions@ == int_transitions(),
        final(states)@[POINT as int].accept is None,
        final(states)@[DOT as int].accept == Some(TokenType::Dot),
        final(states)@[SLASH as int].transitions@ == slash_transitions(),
        final(states)@[COMMENT as int].accept == Some(TokenType::Comment),
        final(states)@[COMMENT as int].transitions@ == comment_transitions(),
        final(states)@[COMMENT_BODY as int].accept == Some(TokenType::Comment),
        final(states)@[COMMENT_BODY as int].transitions@ == comment_body_transitions(),
{
    push_state(states, state_root());
    push_state(states, state_ws());
    push_state(states, state_ident());
    push_state(states, state_zero());
    push_state(states, state_int());
    push_state(states, state_point());
    push_state(states, state_dot());
    push_state(states, state_slash());
    push_state(states, state_comment());
    push_state(states, state_comment_body());
}

fn push_states_0(states: &mut Vec<State>)
    requires
        all_targets_below(old(states)@),
        old(states)@.len() == 10,
    ensures
        all_targets_below(final(states)@),
        final(states)@.len() == 22,
        forall|i: int| 0 <= i < old(states)@.len() ==> #[trigger] final(states)@[i] == old(states)@[i],
{
    push_state(states, state_frac());
    push_state(states, state_exp_mark());
    push_state(states, state_exp_sign());
    push_state(states, state_exp());
    push_state(states, state_hex0());
    push_state(states, state_hex());
    push_state(states, state_oct0());
    push_state(states, state_oct());
    push_state(states, state_bin0());
    push_state(states, state_bin());
    push_state(states, state_range());
    push_state(states, state_range_inclusive());
}

fn push_states_1(states: &mut Vec<State>)
    requires
        all_targets_below(old(states)@),
        old(states)@.len() == 22,
    ensures
        all_targets_below(final(states)@),
        final(states)@.len() == 34,
        forall|i: int| 0 <= i < old(states)@.len() ==> #[trigger] final(states)@[i] == old(states)@[i],
{
    push_state(states, state_div_assign());
    push_state(states, state_divrem());
    push_state(states, state_doc());
    push_state(states, state_module_doc());
    push_state(states, state_str());
    push_state(states, state_str_end());
    push_state(states, state_str_escape());
    push_state(states, state_quote());
    push_state(states, state_quote_escape());
    push_state(states, state_label());
    push_state(states, state_quote_one());
    push_state(states, state_char());
}

fn push_states_2(states: &mut Vec<State>)
    requires
        all_targets_below(old(states)@),
        old(states)@.len() == 34,
    ensures
        all_targets_below(final(states)@),
        final(states)@.len() == 46,
        forall|i: int| 0 <= i < old(states)@.len() ==> #[trigger] final(states)@[i] == old(states)@[i],
{
    push_state(states, state_long_label());
    push_state(states, state_open_curly());
    push_state(states, state_close_curly());
    push_state(states, state_open_paren());
    push_state(states, state_close_paren());
    push_state(states, state_open_bracket());
    push_state(states, state_close_bracket());
    push_state(states, state_semicolon());
    push_state(states, state_colon());
    push_state(states, state_comma());
    push_state(states, state_question());
    push_state(states, state_assign());
}

fn push_states_3(states: &mut Vec<State>)
    requires
        all_targets_below(old(states)@),
        old(states)@.len() == 46,
    ensures
        all_targets_below(final(states)@),
        final(states)@.len() == 58,
        forall|i: int| 0 <= i < old(states)@.len() ==> #[trigger] final(states)@[i] == old(states)@[i],
{
    push_state(states, state_equal());
    push_state(states, state_not());
    push_state(states, state_not_equal());
    push_state(states, state_add());
    push_state(states, state_add_assign());
    push_state(states, state_sub());
    push_state(states, state_sub_assign());
    push_state(states, state_mul());
    push_state(states, state_mul_assign());
    push_state(states, state_xor());
    push_state(states, state_xor_assign());
    push_state(states, state_lt());
}

fn push_states_4(states: &mut Vec<State>)
    requires
        all_targets_below(old(states)@),
        old(states)@.len() == 58,
    ensures
        all_targets_below(final(states)@),
        final(states)@.len() == 70,
        forall|i: int| 0 <= i < old(states)@.len() ==> #[trigger] final(states)@[i] == old(states)@[i],
{
    push_state(states, state_le());
    push_state(states, state_shl());
    push_state(states, state_shl_assign());
    push_state(states, state_gt());
    push_state(states, state_ge());
    push_state(states, state_shr());
    push_state(states, state_shr_assign());
    push_state(states, state_lshr());
    push_state(states, state_lshr_assign());
    push_state(states, state_and());
    push_state(states, state_and_assign());
    push_state(states, state_logical_and());
}

fn push_states_5(states: &mut Vec<State>)
    requires
        all_targets_below(old(states)@),
        old(states)@.len() == 70,
    ensures
        all_targets_below(final(states)@),
        final(states)@.len() == 79,
        forall|i: int| 0 <= i < old(states)@.len() ==> #[trigger] final(states)@[i] == old(states)@[i],
{
    push_state(states, state_logical_and_assign());
    push_state(states, state_or());
    push_state(states, state_or_assign());
    push_state(states, state_logical_or());
    push_state(states, state_logical_or_assign());
    push_state(states, state_rem());
    push_state(states, state_rem_assign());
    push_state(states, state_mod_mark());
    push_state(states, state_mod_assign());
}

/// The characters that may start an identifier.
pub open spec fn starts_identifier(c: char) -> bool {
    CharClass::XidStart.contains(c) || c == '_'
}

pub open spec fn is_digit(c: char) -> bool {
    '0' <= c && c <= '9'
}

pub open spec fn is_blank(c: char) -> bool {
    c == ' ' || c == '\t' || c == '\r' || c == '\n'
}

/// An identifier: a start character, then XID_Continue characters.
pub open spec fn identifier_text(s: Seq<char>) -> bool {
    &&& s.len() >= 1
    &&& starts_identifier(s[0])
    &&& forall|i: int| 1 <= i < s.len() ==> CharClass::XidContinue.contains(#[trigger] s[i])
}

/// A non-empty run of decimal digits.
pub open spec fn digit_run(s: Seq<char>) -> bool {
    s.len() >= 1 && forall|i: int| 0 <= i < s.len() ==> is_digit(#[trigger] s[i])
}

/// A non-empty run of spaces, tabs, carriage returns and newlines.
pub open spec fn blank_run(s: Seq<char>) -> bool {
    s.len() >= 1 && forall|i: int| 0 <= i < s.len() ==> is_blank(#[trigger] s[i])
}

/// `//` and the rest of its line, where that rest does not start with `/`
/// or `!` (those make documentation comments).
pub open spec fn line_comment(s: Seq<char>) -> bool {
    &&& s.len() >= 2
    &&& s[0] == '/'
    &&& s[1] == '/'
    &&& s.len() >= 3 ==> s[2] != '/' && s[2] != '!'
    &&& forall|i: int| 2 <= i < s.len() ==> #[trigger] s[i] != '\n'
}

/// The states the stated facts of the language rest on.
pub open spec fn core_states(d: &Dfa) -> bool {
    &&& d.states@.len() == STATE_COUNT
    &&& d.states@[ROOT as int].accept is None
    &&& d.states@[ROOT as int].transitions@ == root_transitions()
    &&& d.states@[WS as int].accept == Some(TokenType::Whitespace)
    &&& d.states@[WS as int].transitions@ == ws_transitions()
    &&& d.states@[IDENT as int].accept == Some(TokenType::Identifier)
    &&& d.states@[IDENT as int].transitions@ == ident_transitions()
    &&& d.states@[ZERO as int].accept == Some(TokenType::IntLiteral)
    &&& d.states@[ZERO as int].transitions@ == zero_transitions()
    &&& d.states@[INT as int].accept == Some(TokenType::IntLiteral)
    &&& d.states@[INT as int].transitions@ == int_transitions()
    &&& d.states@[POINT as int].accept is None
    &&& d.states@[DOT as int].accept == Some(TokenType::Dot)
    &&& d.states@[SLASH as int].transitions@ == slash_transitions()
    &&& d.states@[COMMENT as int].accept == Some(TokenType::Comment)
    &&& d.states@[COMMENT as int].transitions@ == comment_transitions()
    &&& d.states@[COMMENT_BODY as int].accept == Some(TokenType::Comment)
    &&& d.states@[COMMENT_BODY as int].transitions@ == comment_body_transitions()
}

proof fn lemma_walk_last(d: &Dfa, s: Seq<char>)
    requires
        s.len() >= 1,
    ensures
        d.walk(s) == match d.walk(s.drop_last()) {
            Some(q) => d.step(q, s.last()),
            None => None,
        },
{
}

proof fn lemma_walk_one(d: &Dfa, c: char)
    ensures
        d.walk(seq![c]) == d.step(0, c),
{
    assert(seq![c].drop_last() =~= Seq::<char>::empty());
    assert(d.walk(Seq::<char>::empty()) == Some(0nat));
}

proof fn lemma_identifier(d: &Dfa, s: Seq<char>)
    requires
        core_states(d),
        s.len() >= 1,
        starts_identifier(s[0]),
        forall|i: int| 1 <= i < s.len() ==> CharClass::XidContinue.contains(#[trigger] s[i]),
    ensures
        d.walk(s) == Some(IDENT as nat),
    decreases s.len(),
{
    reveal_with_fuel(first_match, 3);
    if s.len() == 1 {
        assert(s =~= seq![s[0]]);
        lemma_walk_one(d, s[0]);
    } else {
        lemma_identifier(d, s.drop_last());
        assert(CharClass::XidContinue.contains(s[s.len() - 1]));
    }
}

proof fn lemma_digits(d: &Dfa, s: Seq<char>)
    requires
        core_states(d),
        s.len() >= 1,
        forall|i: int| 0 <= i < s.len() ==> is_digit(#[trigger] s[i]),
    ensures
        d.walk(s) == Some(ZERO as nat) || d.walk(s) == Some(INT as nat),
        d.walk(s.push('.')) == Some(POINT as nat),
    decreases s.len(),
{
    reveal_with_fuel(first_match, 6);
    assert(s.push('.').drop_last() =~= s);
    if s.len() == 1 {
        assert(s =~= seq![s[0]]);
        lemma_walk_one(d, s[0]);
        assert(is_digit(s[0]));
    } else {
        lemma_digits(d, s.drop_last());
        assert(is_digit(s[s.len() - 1]));
    }
}

proof fn lemma_blanks(d: &Dfa, s: Seq<char>)
    requires
        core_states(d),
        s.len() >= 1,
        forall|i: int| 0 <= i < s.len() ==> is_blank(#[trigger] s[i]),
    ensures
        d.walk(s) == Some(WS as nat),
    decreases s.len(),
{
    reveal_with_fuel(first_match, 11);
    if s.len() == 1 {
        assert(s =~= seq![s[0]]);
        lemma_walk_one(d, s[0]);
        assert(is_blank(s[0]));
    } else {
        lemma_blanks(d, s.drop_last());
        assert(is_blank(s[s.len() - 1]));
    }
}

proof fn lemma_comment(d: &Dfa, s: Seq<char>)
    requires
        core_states(d),
        s.len() >= 2,
        s[0] == '/',
        s[1] == '/',
        s.len() >= 3 ==> s[2] != '/' && s[2] != '!',
        forall|i: int| 2 <= i < s.len() ==> #[trigger] s[i] != '\n',
    ensures
        s.len() == 2 ==> d.walk(s) == Some(COMMENT as nat),
        s.len() >= 3 ==> d.walk(s) == Some(COMMENT_BODY as nat),
    decreases s.len(),
{
    reveal_with_fuel(first_match, 7);
    if s.len() == 2 {
        assert(s.drop_last() =~= seq!['/']);
        lemma_walk_one(d, '/');
    } else {
        lemma_comment(d, s.drop_last());
        assert(s[s.len() - 1] != '\n');
    }
}

proof fn lemma_identifiers(d: &Dfa)
    requires
        core_states(d),
    ensures
        forall|s: Seq<char>|
            #[trigger] identifier_text(s)
            ==> d.accepts(s) && d.kind_of(s) == TokenType::Identifier,
{
    assert forall|s: Seq<char>|
        #[trigger] identifier_text(s)
        implies d.accepts(s) && d.kind_of(s) == TokenType::Identifier by {
        lemma_identifier(d, s);
    }
}

proof fn lemma_integers(d: &Dfa)
    requires
        core_states(d),
    ensures
        forall|s: Seq<char>|
            #[trigger] digit_run(s)
            ==> d.accepts(s) && d.kind_of(s) == TokenType::IntLiteral && !d.accepts(s.push('.')),
{
    assert forall|s: Seq<char>|
        #[trigger] digit_run(s)
        implies d.accepts(s) && d.kind_of(s) == TokenType::IntLiteral && !d.accepts(s.push('.')) by {
        lemma_digits(d, s);
        let q = d.walk(s)->0;
        assert(d.accepting(q) == Some(TokenType::IntLiteral));
        assert(d.accepts(s));
        assert(d.walk(s.push('.')) == Some(POINT as nat));
        assert(!d.accepts(s.push('.')));
    }
}

proof fn lemma_whitespace(d: &Dfa)
    requires
        core_states(d),
    ensures
        forall|s: Seq<char>|
            #[trigger] blank_run(s)
            ==> d.accepts(s) && d.kind_of(s) == TokenType::Whitespace,
{
    assert forall|s: Seq<char>|
        #[trigger] blank_run(s)
        implies d.accepts(s) && d.kind_of(s) == TokenType::Whitespace by {
        lemma_blanks(d, s);
        assert(d.accepting(WS as nat) == Some(TokenType::Whitespace));
        assert(d.accepts(s));
    }
}

proof fn lemma_comments(d: &Dfa)
    requires
        core_states(d),
    ensures
        forall|s: Seq<char>|
            #[trigger] line_comment(s)
            ==> d.accepts(s) && d.kind_of(s) == TokenType::Comment,
{
    assert forall|s: Seq<char>|
        #[trigger] line_comment(s)
        implies d.accepts(s) && d.kind_of(s) == TokenType::Comment by {
        lemma_comment(d, s);
        assert(d.accepting(COMMENT as nat) == Some(TokenType::Comment));
        assert(d.accepting(COMMENT_BODY as nat) == Some(TokenType::Comment));
        assert(d.accepts(s));
    }
}

proof fn lemma_dot(d: &Dfa)
    requires
        core_states(d),
    ensures
        d.accepts(seq!['.']) && d.kind_of(seq!['.']) == TokenType::Dot,
{
    reveal_with_fuel(first_match, 6);
    lemma_walk_one(d, '.');
}

#[verifier::rlimit(50)]
proof fn lemma_no_at(d: &Dfa)
    requires
        core_states(d),
    ensures
        d.step(0, '@') is None,
{
    reveal_with_fuel(first_match, 40);
}

proof fn lemma_language(d: &Dfa)
    requires
        core_states(d),
    ensures
        forall|s: Seq<char>|
            #[trigger] identifier_text(s)
            ==> d.accepts(s) && d.kind_of(s) == TokenType::Identifier,
        forall|s: Seq<char>|
            #[trigger] digit_run(s)
            ==> d.accepts(s) && d.kind_of(s) == TokenType::IntLiteral && !d.accepts(s.push('.')),
        d.accepts(seq!['.']) && d.kind_of(seq!['.']) == TokenType::Dot,
        forall|s: Seq<char>|
            #[trigger] blank_run(s)
            ==> d.accepts(s) && d.kind_of(s) == TokenType::Whitespace,
        forall|s: Seq<char>|
            #[trigger] line_comment(s)
            ==> d.accepts(s) && d.kind_of(s) == TokenType::Comment,
        d.step(0, '@') is None,
{
    lemma_identifiers(d);
    lemma_integers(d);
    lemma_dot(d);
    lemma_whitespace(d);
    lemma_comments(d);
    lemma_no_at(d);
}

/// Builds the automaton of the language's tokens. It is meant to be built
/// once and shared by every lexer. Among what it accepts:
/// an identifier start (XID_Start or `_`) followed by XID_Continue
/// characters is an identifier; a run of digits is an integer, and a run of
/// digits followed by a lone `.` is not accepted; `.` is a dot; a run of
/// blanks is whitespace; `//` and what follows on its line, unless that
/// starts with `/` or `!`, is a comment; and no token starts with `@`.
pub fn create_dfa() -> (r: Dfa)
    ensures
        r.wf(),
        core_states(&r),
        r.accepting(0) is None,
        forall|s: Seq<char>|
            #[trigger] identifier_text(s)
            ==> r.accepts(s) && r.kind_of(s) == TokenType::Identifier,
        forall|s: Seq<char>|
            #[trigger] digit_run(s)
            ==> r.accepts(s) && r.kind_of(s) == TokenType::IntLiteral && !r.accepts(s.push('.')),
        r.accepts(seq!['.']) && r.kind_of(seq!['.']) == TokenType::Dot,
        forall|s: Seq<char>|
            #[trigger] blank_run(s)
            ==> r.accepts(s) && r.kind_of(s) == TokenType::Whitespace,
        forall|s: Seq<char>|
            #[trigger] line_comment(s)
            ==> r.accepts(s) && r.kind_of(s) == TokenType::Comment,
        r.step(0, '@') is None,
{
    let mut states: Vec<State> = Vec::new();
    push_core_states(&mut states);
    push_states_0(&mut states);
    push_states_1(&mut states);
    push_states_2(&mut states);
    push_states_3(&mut states);
    push_states_4(&mut states);
    push_states_5(&mut states);
    let r = Dfa { states };
    proof {
        assert(core_states(&r));
        lemma_language(&r);
    }
    r
}

} // verus!
