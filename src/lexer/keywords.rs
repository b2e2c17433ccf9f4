//! The fixed keyword set, kept in lexicographic order.

use vstd::prelude::*;
use crate::lexer::TokenType;

verus! {

/// Number of keywords.
pub const KEYWORD_COUNT: usize = 20;

/// The text of the `i`-th keyword, in lexicographic order.
pub open spec fn keyword_text(i: int) -> Seq<char> {
    if i == 0 { seq!['b', 'r', 'e', 'a', 'k'] }
    else if i == 1 { seq!['c', 'o', 'n', 't', 'i', 'n', 'u', 'e'] }
    else if i == 2 { seq!['e', 'l', 's', 'e'] }
    else if i == 3 { seq!['e', 'n', 'u', 'm'] }
    else if i == 4 { seq!['e', 'x', 't', 'e', 'r', 'n'] }
    else if i == 5 { seq!['f', 'n'] }
    else if i == 6 { seq!['f', 'o', 'r'] }
    else if i == 7 { seq!['i', 'f'] }
    else if i == 8 { seq!['i', 'm', 'p', 'l'] }
    else if i == 9 { seq!['i', 'm', 'p', 'l', 's'] }
    else if i == 10 { seq!['i', 'n'] }
    else if i == 11 { seq!['l', 'e', 't'] }
    else if i == 12 { seq!['m', 'o', 'd'] }
    else if i == 13 { seq!['n', 'e', 'w', '_', 'o', 'b', 'j', 'e', 'c', 't'] }
    else if i == 14 { seq!['n', 'i', 'l'] }
    else if i == 15 { seq!['r', 'e', 't', 'u', 'r', 'n'] }
    else if i == 16 { seq!['t', 'h', 'r', 'o', 'w'] }
    else if i == 17 { seq!['t', 'r', 'a', 'i', 't'] }
    else if i == 18 { seq!['t', 'y', 'p', 'e'] }
    else { seq!['u', 's', 'e'] }
}

/// The token kind of the `i`-th keyword.
pub open spec fn keyword_token(i: int) -> TokenType {
    if i == 0 { TokenType::Break }
    else if i == 1 { TokenType::Continue }
    else if i == 2 { TokenType::Else }
    else if i == 3 { TokenType::Enum }
    else if i == 4 { TokenType::Extern }
    else if i == 5 { TokenType::Function }
    else if i == 6 { TokenType::For }
    else if i == 7 { TokenType::If }
    else if i == 8 { TokenType::Impl }
    else if i == 9 { TokenType::Impls }
    else if i == 10 { TokenType::In }
    else if i == 11 { TokenType::Let }
    else if i == 12 { TokenType::Mod }
    else if i == 13 { TokenType::NewObject }
    else if i == 14 { TokenType::Nil }
    else if i == 15 { TokenType::Return }
    else if i == 16 { TokenType::Throw }
    else if i == 17 { TokenType::Trait }
    else if i == 18 { TokenType::Type }
    else { TokenType::Use }
}

/// The keyword kind of `s`: exact, case-sensitive match against the keyword set.
pub open spec fn keyword_of(s: Seq<char>) -> Option<TokenType> {
    if exists|i: int| 0 <= i < KEYWORD_COUNT && #[trigger] keyword_text(i) == s {
        Some(keyword_token(choose|i: int| 0 <= i < KEYWORD_COUNT && #[trigger] keyword_text(i) == s))
    } else {
        None
    }
}

/// Distinct entries of the table have distinct texts.
proof fn lemma_texts_distinct(i: int, j: int)
    requires
        0 <= i < KEYWORD_COUNT,
        0 <= j < KEYWORD_COUNT,
        keyword_text(i) == keyword_text(j),
    ensures
        i == j,
{
    assert(keyword_text(i).len() == keyword_text(j).len());
    assert(keyword_text(i)[0] == keyword_text(j)[0]);
    if keyword_text(i).len() > 1 {
        assert(keyword_text(i)[1] == keyword_text(j)[1]);
    }
    if keyword_text(i).len() > 2 {
        assert(keyword_text(i)[2] == keyword_text(j)[2]);
    }
}

fn keyword_entry(i: usize) -> (r: (&'static str, TokenType))
    requires
        i < KEYWORD_COUNT,
    ensures
        r.0@ == keyword_text(i as int),
        r.1 == keyword_token(i as int),
{
    let r = match i {
        0 => ("break", TokenType::Break),
        1 => ("continue", TokenType::Continue),
        2 => ("else", TokenType::Else),
        3 => ("enum", TokenType::Enum),
        4 => ("extern", TokenType::Extern),
        5 => ("fn", TokenType::Function),
        6 => ("for", TokenType::For),
        7 => ("if", TokenType::If),
        8 => ("impl", TokenType::Impl),
        9 => ("impls", TokenType::Impls),
        10 => ("in", TokenType::In),
        11 => ("let", TokenType::Let),
        12 => ("mod", TokenType::Mod),
        13 => ("new_object", TokenType::NewObject),
        14 => ("nil", TokenType::Nil),
        15 => ("return", TokenType::Return),
        16 => ("throw", TokenType::Throw),
        17 => ("trait", TokenType::Trait),
        18 => ("type", TokenType::Type),
        _ => ("use", TokenType::Use),
    };
    proof {
        reveal_strlit("break");
        reveal_strlit("continue");
        reveal_strlit("else");
        reveal_strlit("enum");
        reveal_strlit("extern");
        reveal_strlit("fn");
        reveal_strlit("for");
        reveal_strlit("if");
        reveal_strlit("impl");
        reveal_strlit("impls");
        reveal_strlit("in");
        reveal_strlit("let");
        reveal_strlit("mod");
        reveal_strlit("new_object");
        reveal_strlit("nil");
        reveal_strlit("return");
        reveal_strlit("throw");
        reveal_strlit("trait");
        reveal_strlit("type");
        reveal_strlit("use");
        assert(r.0@ =~= keyword_text(i as int));
    }
    r
}

/// Lexicographic order on texts, by code point.
pub open spec fn text_less(a: Seq<char>, b: Seq<char>) -> bool
    decreases a.len(),
{
    if a.len() == 0 {
        b.len() > 0
    } else if b.len() == 0 {
        false
    } else if a[0] == b[0] {
        text_less(a.drop_first(), b.drop_first())
    } else {
        a[0] < b[0]
    }
}

/// Of two different texts, exactly one comes first.
proof fn lemma_text_order_total(a: Seq<char>, b: Seq<char>)
    ensures
        a != b ==> (text_less(a, b) != text_less(b, a)),
        a == b ==> !text_less(a, b),
    decreases a.len(),
{
    if a.len() > 0 && b.len() > 0 && a[0] == b[0] {
        lemma_text_order_total(a.drop_first(), b.drop_first());
        if a.drop_first() == b.drop_first() {
            assert(a =~= seq![a[0]] + a.drop_first());
            assert(b =~= seq![b[0]] + b.drop_first());
        }
    } else if a.len() == 0 && b.len() == 0 {
        assert(a =~= b);
    }
}

proof fn lemma_text_less_transitive(a: Seq<char>, b: Seq<char>, c: Seq<char>)
    requires
        text_less(a, b),
        text_less(b, c),
    ensures
        text_less(a, c),
    decreases a.len(),
{
    if a.len() > 0 && b.len() > 0 && c.len() > 0 && a[0] == b[0] && b[0] == c[0] {
        lemma_text_less_transitive(a.drop_first(), b.drop_first(), c.drop_first());
    }
}

/// The keyword table is in strictly increasing order.
proof fn lemma_keywords_sorted(i: int, j: int)
    requires
        0 <= i < j < KEYWORD_COUNT,
    ensures
        text_less(keyword_text(i), keyword_text(j)),
    decreases j - i,
{
    reveal_with_fuel(text_less, 6);
    if j == i + 1 {
        assert(text_less(keyword_text(i), keyword_text(j)));
    } else {
        lemma_keywords_sorted(i, j - 1);
        lemma_keywords_sorted(j - 1, j);
        lemma_text_less_transitive(keyword_text(i), keyword_text(j - 1), keyword_text(j));
    }
}

/// Compares `a` with `b`: negative where `a` comes first, zero where they
/// are the same text, positive where `b` comes first.
fn compare_text(a: &str, b: &str) -> (r: i8)
    ensures
        (r < 0) == text_less(a@, b@),
        (r == 0) == (a@ == b@),
        (r > 0) == text_less(b@, a@),
{
    proof {
        lemma_text_order_total(a@, b@);
    }
    let na = a.unicode_len();
    let nb = b.unicode_len();
    let mut i: usize = 0;
    assert(a@.subrange(0, na as int) =~= a@);
    assert(b@.subrange(0, nb as int) =~= b@);
    while i < na && i < nb
        invariant
            na == a@.len(),
            nb == b@.len(),
            i <= na,
            i <= nb,
            text_less(a@, b@) == text_less(a@.subrange(i as int, na as int), b@.subrange(i as int, nb as int)),
            text_less(b@, a@) == text_less(b@.subrange(i as int, nb as int), a@.subrange(i as int, na as int)),
            (a@ == b@) == (a@.subrange(i as int, na as int) == b@.subrange(i as int, nb as int)),
        decreases na - i,
    {
        let ca = a.get_char(i);
        let cb = b.get_char(i);
        let ghost sa = a@.subrange(i as int, na as int);
        let ghost sb = b@.subrange(i as int, nb as int);
        if ca != cb {
            assert(sa[0] == ca && sb[0] == cb);
            assert(sa != sb);
            if ca < cb {
                return -1;
            } else {
                return 1;
            }
        }
        assert(sa.drop_first() =~= a@.subrange(i + 1, na as int));
        assert(sb.drop_first() =~= b@.subrange(i + 1, nb as int));
        assert(sa =~= seq![ca] + sa.drop_first());
        assert(sb =~= seq![cb] + sb.drop_first());
        i += 1;
    }
    if i < nb {
        assert(a@.subrange(i as int, na as int).len() == 0);
        assert(a@.subrange(i as int, na as int) != b@.subrange(i as int, nb as int));
        -1
    } else if i < na {
        assert(a@.subrange(i as int, na as int) != b@.subrange(i as int, nb as int));
        1
    } else {
        assert(a@.subrange(i as int, na as int) =~= b@.subrange(i as int, nb as int));
        0
    }
}

/// The keyword kind of `ident`, if it is one of the keywords: a binary
/// search of the sorted keyword table, by exact, case-sensitive match.
pub fn match_keyword(ident: &str) -> (r: Option<TokenType>)
    ensures
        r == keyword_of(ident@),
{
    let mut lo: usize = 0;
    let mut hi: usize = KEYWORD_COUNT;
    while lo < hi
        invariant
            0 <= lo <= hi <= KEYWORD_COUNT,
            forall|j: int| 0 <= j < lo ==> text_less(keyword_text(j), ident@),
            forall|j: int| hi <= j < KEYWORD_COUNT ==> text_less(ident@, keyword_text(j)),
        decreases hi - lo,
    {
        let mid = lo + (hi - lo) / 2;
        let (text, kind) = keyword_entry(mid);
        let c = compare_text(ident, text);
        if c == 0 {
            proof {
                let k = choose|j: int| 0 <= j < KEYWORD_COUNT && #[trigger] keyword_text(j) == ident@;
                lemma_texts_distinct(k, mid as int);
            }
            return Some(kind);
        } else if c < 0 {
            proof {
                assert forall|j: int| mid <= j < KEYWORD_COUNT implies text_less(ident@, keyword_text(j)) by {
                    if j > mid {
                        lemma_keywords_sorted(mid as int, j);
                        lemma_text_less_transitive(ident@, keyword_text(mid as int), keyword_text(j));
                    }
                }
            }
            hi = mid;
        } else {
            proof {
                assert forall|j: int| 0 <= j <= mid implies text_less(keyword_text(j), ident@) by {
                    if j < mid {
                        lemma_keywords_sorted(j, mid as int);
                        lemma_text_less_transitive(keyword_text(j), keyword_text(mid as int), ident@);
                    }
                }
            }
            lo = mid + 1;
        }
    }
    proof {
        assert forall|j: int| 0 <= j < KEYWORD_COUNT implies #[trigger] keyword_text(j) != ident@ by {
            lemma_text_order_total(keyword_text(j), ident@);
        }
    }
    None
}

} // verus!
