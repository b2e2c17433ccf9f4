//! Lexical analysis: drives a character automaton over source text with
//! longest match and backtracking, producing located tokens.

use vstd::prelude::*;
use vstd::utf8::encode_utf8;
use crate::lexer::dfa::Dfa;
use crate::lexer::keywords::{keyword_of, match_keyword};

pub mod dfa;
pub mod keywords;
pub mod seal_dfa;
pub mod utf8;

verus! {

/// The kinds of token that the lexer produces.
#[derive(Copy, Clone, Debug, PartialEq, Eq, Structural, PartialOrd, Ord, Hash)]
pub enum TokenType {
    Invalid,
    Identifier,
    Whitespace,
    Comment,
    DocComment,
    ModuleDocComment,
    IntLiteral,
    HexLiteral,
    OctLiteral,
    BinLiteral,
    FloatLiteral,
    StringLiteral,
    CharLiteral,
    Label,
    Break,
    Continue,
    Else,
    Enum,
    Extern,
    /// `fn`
    Function,
    For,
    If,
    Impl,
    Impls,
    In,
    Let,
    /// `mod`
    Mod,
    /// `new_object`
    NewObject,
    Nil,
    Return,
    Throw,
    Trait,
    Type,
    Use,
    OpenCurly,
    CloseCurly,
    OpenParen,
    CloseParen,
    OpenBracket,
    CloseBracket,
    Semicolon,
    Colon,
    Comma,
    Question,
    Dot,
    RangeExclusive,
    RangeInclusive,
    Equal,
    NotEqual,
    LessThan,
    LessOrEqual,
    GreaterThan,
    GreaterOrEqual,
    Not,
    LogicalAnd,
    LogicalOr,
    LogicalAndAssign,
    LogicalOrAssign,
    Add,
    Sub,
    Mul,
    Div,
    Rem,
    DivRem,
    BitAnd,
    BitOr,
    BitXor,
    Shl,
    Shr,
    LShr,
    Assign,
    AddAssign,
    SubAssign,
    MulAssign,
    DivAssign,
    RemAssign,
    ModAssign,
    BitAndAssign,
    BitOrAssign,
    BitXorAssign,
    ShlAssign,
    ShrAssign,
    LShrAssign,
}

/// A position in source text: one-based line and column, and the byte offset
/// into the UTF-8 encoding of the text.
#[derive(Copy, Clone, Debug, PartialEq, Eq, Structural, Default)]
pub struct Location {
    pub line: usize,
    pub column: usize,
    pub index: usize,
}

/// The location of the first character of a text.
pub open spec fn start_location() -> Location {
    Location { line: 1, column: 1, index: 0 }
}

/// The location that follows `l` once the character `c` has been consumed:
/// a newline moves to column one of the next line, any other character moves
/// one column to the right; the byte offset grows by the character's UTF-8 width.
pub open spec fn advance(l: Location, c: char) -> Location {
    if c == '\n' {
        Location { line: (l.line + 1) as usize, column: 1, index: (l.index + utf8::width(c)) as usize }
    } else {
        Location { line: l.line, column: (l.column + 1) as usize, index: (l.index + utf8::width(c)) as usize }
    }
}

/// The location reached from `l` by consuming the characters of `cs` in order.
pub open spec fn advance_all(l: Location, cs: Seq<char>) -> Location
    decreases cs.len(),
{
    if cs.len() == 0 {
        l
    } else {
        advance(advance_all(l, cs.drop_last()), cs.last())
    }
}

/// Computes `advance(l, c)`.
fn advance_location(l: Location, c: char) -> (r: Location)
    requires
        l.line < usize::MAX,
        l.column < usize::MAX,
        l.index + utf8::width(c) <= usize::MAX,
    ensures
        r == advance(l, c),
{
    let w = utf8::char_width(c);
    if c == '\n' {
        Location { line: l.line + 1, column: 1, index: l.index + w }
    } else {
        Location { line: l.line, column: l.column + 1, index: l.index + w }
    }
}

/// Consuming two texts one after the other is consuming their concatenation.
pub proof fn lemma_advance_append(l: Location, a: Seq<char>, b: Seq<char>)
    ensures
        advance_all(advance_all(l, a), b) == advance_all(l, a + b),
    decreases b.len(),
{
    if b.len() == 0 {
        assert(a + b =~= a);
    } else {
        lemma_advance_append(l, a, b.drop_last());
        assert((a + b).drop_last() =~= a + b.drop_last());
        assert((a + b).last() == b.last());
    }
}

/// From the start of a text, the location after `j` characters stays within
/// bounds: line and column are at most `j + 1`, and the byte offset is the
/// length of the encoding of those characters.
proof fn lemma_location_bounds(input: Seq<char>, j: int)
    requires
        0 <= j <= input.len(),
        encode_utf8(input).len() < usize::MAX,
    ensures
        advance_all(start_location(), input.subrange(0, j)).line <= j + 1,
        advance_all(start_location(), input.subrange(0, j)).column <= j + 1,
        advance_all(start_location(), input.subrange(0, j)).index
            == encode_utf8(input.subrange(0, j)).len(),
    decreases j,
{
    utf8::lemma_encode_prefix(input, j);
    if j > 0 {
        lemma_location_bounds(input, j - 1);
        utf8::lemma_encode_prefix(input, j - 1);
        assert(input.subrange(0, j).drop_last() =~= input.subrange(0, j - 1));
        assert(input.subrange(0, j) =~= input.subrange(0, j - 1).push(input[j - 1]));
        utf8::lemma_encode_push(input.subrange(0, j - 1), input[j - 1]);
    } else {
        assert(input.subrange(0, 0) =~= Seq::<char>::empty());
    }
}

/// Whether the automaton accepts the `k` characters of `input` from `p`,
/// and no longer run from `p`.
pub open spec fn longest_match(dfa: &Dfa, input: Seq<char>, p: int, k: int) -> bool {
    &&& 1 <= k
    &&& p + k <= input.len()
    &&& dfa.accepts(input.subrange(p, p + k))
    &&& forall|k2: int| k < k2 <= input.len() - p ==> !dfa.accepts(#[trigger] input.subrange(p, p + k2))
}

/// Whether no non-empty run of characters from `p` is accepted.
pub open spec fn no_match(dfa: &Dfa, input: Seq<char>, p: int) -> bool {
    forall|k: int| 1 <= k <= input.len() - p ==> !dfa.accepts(#[trigger] input.subrange(p, p + k))
}

/// The kind of a token of text `text` that the automaton classed as `kind`:
/// an identifier that is a keyword takes the keyword's kind.
pub open spec fn promote(kind: TokenType, text: Seq<char>) -> TokenType {
    if kind == TokenType::Identifier && keyword_of(text) is Some {
        keyword_of(text)->0
    } else {
        kind
    }
}

/// Once the automaton is stuck on a prefix, it is stuck on every longer text.
proof fn lemma_walk_stuck(dfa: &Dfa, cs: Seq<char>, m: int)
    requires
        0 <= m <= cs.len(),
        dfa.walk(cs.subrange(0, m)) is None,
    ensures
        dfa.walk(cs) is None,
    decreases cs.len() - m,
{
    if m < cs.len() {
        assert(cs.subrange(0, m + 1).drop_last() =~= cs.subrange(0, m));
        lemma_walk_stuck(dfa, cs, m + 1);
    } else {
        assert(cs.subrange(0, m) =~= cs);
    }
}

/// Whether tokens of this kind are left out of the stream the lexer yields.
pub open spec fn is_skipped(kind: TokenType) -> bool {
    kind == TokenType::Whitespace || kind == TokenType::Comment
}

/// Whether the characters of `input` from `p` to `q` are a run of whitespace
/// and comment tokens, each the longest match where it starts.
pub open spec fn skipped_run(dfa: &Dfa, input: Seq<char>, p: int, q: int) -> bool
    decreases q - p,
{
    if q <= p {
        q == p
    } else {
        exists|m: int| p <= m < q && #[trigger] longest_match(dfa, input, m, q - m)
            && is_skipped(dfa.kind_of(input.subrange(m, q))) && skipped_run(dfa, input, p, m)
    }
}

/// A token as the lexer yields it: its kind and the text it spans.
pub type Tok<'a> = (TokenType, &'a str);

/// What the lexer yields: a token with its start and end locations, or an error.
pub type Spanned<'a> = Result<(Location, Tok<'a>, Location), LexicalError>;

/// A lexical error.
#[derive(Copy, Clone, Debug, PartialEq, Eq, Structural)]
pub enum LexicalError {
    /// No token starts with this character, found at this location.
    Unexpected(char, Location),
}

/// A token: its kind and the text it spans.
#[derive(Debug, PartialEq, Eq, Hash)]
pub struct Token<'a> {
    pub kind: TokenType,
    pub span: &'a str,
}

/// A restartable lexer over one source text, driven by a shared automaton.
pub struct Lexer<'a> {
    source: &'a str,
    rest: &'a str,
    chars: Vec<char>,
    pos: usize,
    loc: Location,
    dfa: &'a Dfa,
}

impl<'a> Lexer<'a> {
    /// The characters of the source text.
    pub closed spec fn input(&self) -> Seq<char> {
        self.source@
    }

    /// The automaton the lexer runs.
    pub closed spec fn automaton(&self) -> &'a Dfa {
        self.dfa
    }

    /// How many characters have been consumed.
    pub closed spec fn position(&self) -> int {
        self.pos as int
    }

    /// The location of the next character.
    pub closed spec fn location(&self) -> Location {
        self.loc
    }

    pub closed spec fn wf(&self) -> bool {
        &&& self.chars@ == self.source@
        &&& self.pos <= self.chars@.len()
        &&& self.rest@ == self.source@.subrange(self.pos as int, self.source@.len() as int)
        &&& self.loc == advance_all(start_location(), self.source@.subrange(0, self.pos as int))
        &&& self.dfa.wf()
        &&& encode_utf8(self.source@).len() < usize::MAX
    }

    /// A lexer at the start of `input`.
    pub fn new(input: &'a str, dfa: &'a Dfa) -> (r: Self)
        requires
            dfa.wf(),
            encode_utf8(input@).len() < usize::MAX,
        ensures
            r.wf(),
            r.input() == input@,
            r.automaton() == dfa,
            r.position() == 0,
            r.location() == start_location(),
            r.location() == advance_all(start_location(), r.input().subrange(0, r.position())),
    {
        broadcast use vstd::string::group_string_axioms;
        let mut chars: Vec<char> = Vec::new();
        for c in it: input.chars()
            invariant
                it.seq() == input@,
                chars@ == it.seq().subrange(0, it.index() as int),
        {
            chars.push(c);
        }
        assert(chars@ =~= input@);
        assert(input@.subrange(0, 0) =~= Seq::<char>::empty());
        assert(input@.subrange(0, input@.len() as int) =~= input@);
        Lexer { source: input, rest: input, chars, pos: 0, loc: Location { line: 1, column: 1, index: 0 }, dfa }
    }

    /// Produces the next token, whitespace and comments included: the longest
    /// run of characters from the current position that the automaton accepts,
    /// after which scanning resumes. Where no run is accepted, reports the
    /// first character and moves past it. `None` at the end of the input.
    pub fn do_next(&mut self) -> (r: Option<Spanned<'a>>)
        requires
            old(self).wf(),
        ensures
            final(self).wf(),
            final(self).input() == old(self).input(),
            final(self).automaton() == old(self).automaton(),
            final(self).location() == advance_all(
                start_location(),
                final(self).input().subrange(0, final(self).position()),
            ),
            (r is None) == (old(self).position() == old(self).input().len()),
            r is None ==> final(self).position() == old(self).position(),
            r matches Some(Ok((start, (kind, span), end))) ==> {
                let p = old(self).position();
                let k = span@.len() as int;
                let input = old(self).input();
                &&& longest_match(old(self).automaton(), input, p, k)
                &&& span@ == input.subrange(p, p + k)
                &&& kind == promote(old(self).automaton().kind_of(span@), span@)
                &&& start == old(self).location()
                &&& end == advance_all(start, span@)
                &&& final(self).position() == p + k
                &&& final(self).location() == end
            },
            r matches Some(Err(LexicalError::Unexpected(c, at))) ==> {
                let p = old(self).position();
                let input = old(self).input();
                &&& p < input.len()
                &&& no_match(old(self).automaton(), input, p)
                &&& c == input[p]
                &&& at == old(self).location()
                &&& final(self).position() == p + 1
                &&& final(self).location() == advance(at, c)
            },
    {
        let n = self.chars.len();
        let p = self.pos;
        if p == n {
            return None;
        }
        let ghost input = self.source@;
        let dfa = self.dfa;
        let start = self.loc;
        let mut node = dfa.root();
        let mut i = p;
        let mut cur = start;
        let mut best: Option<(usize, TokenType, Location)> = None;
        let mut stuck = false;
        proof {
            assert(input.subrange(p as int, p as int) =~= Seq::<char>::empty());
        }
        while i < n && !stuck
            invariant
                self.wf(),
                self.source@ == input,
                self.dfa == dfa,
                self.pos == p,
                self.loc == start,
                n == input.len(),
                p < n,
                p <= i <= n,
                node < dfa.states@.len(),
                dfa.walk(input.subrange(p as int, i as int)) == Some(node as nat),
                cur == advance_all(start_location(), input.subrange(0, i as int)),
                stuck ==> i < n && dfa.walk(input.subrange(p as int, i + 1)) is None,
                best matches None ==> forall|k: int| 1 <= k <= i - p ==> !dfa.accepts(#[trigger] input.subrange(p as int, p + k)),
                best matches Some((e, kind, l)) ==> {
                    &&& p < e <= i
                    &&& dfa.accepts(input.subrange(p as int, e as int))
                    &&& kind == dfa.kind_of(input.subrange(p as int, e as int))
                    &&& l == advance_all(start_location(), input.subrange(0, e as int))
                    &&& forall|k: int| e - p < k <= i - p ==> !dfa.accepts(#[trigger] input.subrange(p as int, p + k))
                },
            decreases n - i + (if stuck { 0int } else { 1int }),
        {
            let c = self.chars[i];
            let ghost before = input.subrange(p as int, i as int);
            proof {
                assert(input.subrange(p as int, i + 1).drop_last() =~= before);
                assert(input.subrange(p as int, i + 1).last() == c);
            }
            match dfa.next(node, c) {
                None => {
                    stuck = true;
                },
                Some(next) => {
                    proof {
                        lemma_location_bounds(input, i as int);
                        lemma_location_bounds(input, i + 1);
                        assert(input.subrange(0, i + 1).drop_last() =~= input.subrange(0, i as int));
                        assert(input.subrange(0, i + 1) =~= input.subrange(0, i as int).push(c));
                        utf8::lemma_encode_push(input.subrange(0, i as int), c);
                        utf8::lemma_encode_prefix(input, i + 1);
                    }
                    node = next;
                    cur = advance_location(cur, c);
                    i = i + 1;
                    match dfa.state(next) {
                        Some(kind) => {
                            best = Some((i, kind, cur));
                        },
                        None => {
                            assert(!dfa.accepts(input.subrange(p as int, i as int)));
                        },
                    }
                },
            }
        }
        proof {
            assert forall|k: int| i - p < k <= n - p implies !dfa.accepts(#[trigger] input.subrange(p as int, p + k)) by {
                let cs = input.subrange(p as int, p + k);
                assert(cs.subrange(0, i + 1 - p) =~= input.subrange(p as int, i + 1));
                lemma_walk_stuck(dfa, cs, i + 1 - p);
            }
        }
        match best {
            Some((e, kind, end)) => {
                proof {
                    lemma_location_bounds(input, p as int);
                    lemma_location_bounds(input, e as int);
                    assert(input.subrange(0, p as int) + input.subrange(p as int, e as int) =~= input.subrange(0, e as int));
                    utf8::lemma_encode_append(input.subrange(0, p as int), input.subrange(p as int, e as int));
                    assert(self.rest@.subrange(0, e - p) =~= input.subrange(p as int, e as int));
                }
                let (span, tail) = utf8::split_chars(self.rest, end.index - start.index, Ghost((e - p) as int));
                proof {
                    assert(tail@ =~= input.subrange(e as int, n as int));
                }
                self.rest = tail;
                let mut kind = kind;
                if kind == TokenType::Identifier {
                    match match_keyword(span) {
                        Some(k) => {
                            kind = k;
                        },
                        None => {},
                    }
                }
                proof {
                    assert(input.subrange(0, p as int) + span@ =~= input.subrange(0, e as int));
                    lemma_advance_append(start_location(), input.subrange(0, p as int), span@);
                }
                self.pos = e;
                self.loc = end;
                Some(Ok((start, (kind, span), end)))
            },
            None => {
                let c = self.chars[p];
                proof {
                    lemma_location_bounds(input, p as int);
                    lemma_location_bounds(input, p + 1);
                    assert(input.subrange(0, p + 1).drop_last() =~= input.subrange(0, p as int));
                    assert(input.subrange(0, p + 1) =~= input.subrange(0, p as int).push(c));
                    utf8::lemma_encode_push(input.subrange(0, p as int), c);
                    utf8::lemma_encode_prefix(input, p + 1);
                }
                proof {
                    assert(self.rest@.subrange(0, 1) =~= input.subrange(0, p + 1).subrange(p as int, p + 1));
                    assert(input.subrange(0, p as int) + seq![c] =~= input.subrange(0, p + 1));
                    utf8::lemma_encode_push(input.subrange(0, p as int), c);
                    utf8::lemma_encode_append(input.subrange(0, p as int), seq![c]);
                    assert(self.rest@.subrange(0, 1) =~= seq![c]);
                    utf8::lemma_encode_push(Seq::<char>::empty(), c);
                    assert(Seq::<char>::empty().push(c) =~= seq![c]);
                    assert(encode_utf8(Seq::<char>::empty()) =~= Seq::<u8>::empty());
                }
                let (_, tail) = utf8::split_chars(self.rest, utf8::char_width(c), Ghost(1int));
                proof {
                    assert(tail@ =~= input.subrange(p + 1, n as int));
                }
                self.rest = tail;
                let at = start;
                self.loc = advance_location(start, c);
                self.pos = p + 1;
                Some(Err(LexicalError::Unexpected(c, at)))
            },
        }
    }

    /// Produces the next token that is neither whitespace nor a comment, or a
    /// lexical error; `None` once the rest of the input holds only whitespace
    /// and comments.
    pub fn next(&mut self) -> (r: Option<Spanned<'a>>)
        requires
            old(self).wf(),
        ensures
            final(self).wf(),
            final(self).input() == old(self).input(),
            final(self).automaton() == old(self).automaton(),
            final(self).location() == advance_all(
                start_location(),
                final(self).input().subrange(0, final(self).position()),
            ),
            r is None ==> {
                &&& skipped_run(old(self).automaton(), old(self).input(), old(self).position(), old(self).input().len() as int)
                &&& final(self).position() == old(self).input().len()
            },
            r matches Some(Ok((start, (kind, span), end))) ==> exists|q: int| {
                let dfa = old(self).automaton();
                let input = old(self).input();
                let k = span@.len() as int;
                &&& #[trigger] skipped_run(old(self).automaton(), old(self).input(), old(self).position(), q)
                &&& longest_match(dfa, input, q, k)
                &&& span@ == input.subrange(q, q + k)
                &&& !is_skipped(dfa.kind_of(span@))
                &&& kind == promote(dfa.kind_of(span@), span@)
                &&& start == advance_all(start_location(), input.subrange(0, q))
                &&& end == advance_all(start, span@)
                &&& final(self).position() == q + k
                &&& final(self).location() == end
            },
            r matches Some(Err(LexicalError::Unexpected(c, at))) ==> exists|q: int| {
                let dfa = old(self).automaton();
                let input = old(self).input();
                &&& #[trigger] skipped_run(old(self).automaton(), old(self).input(), old(self).position(), q)
                &&& q < input.len()
                &&& no_match(dfa, input, q)
                &&& c == input[q]
                &&& at == advance_all(start_location(), input.subrange(0, q))
                &&& final(self).position() == q + 1
                &&& final(self).location() == advance(at, c)
            },
    {
        let ghost first_pos = self.pos as int;
        let ghost input = self.source@;
        let ghost dfa = self.dfa;
        assert(skipped_run(dfa, input, first_pos, first_pos));
        loop
            invariant
                self.wf(),
                self.source@ == input,
                self.dfa == dfa,
                input == old(self).source@,
                dfa == old(self).dfa,
                first_pos == old(self).pos,
                first_pos <= self.pos,
                skipped_run(dfa, input, first_pos, self.pos as int),
            decreases self.chars@.len() - self.pos,
        {
            let ghost q = self.pos as int;
            let t = self.do_next();
            match t {
                Some(Ok((_, (kind, span), _))) => {
                    if kind == TokenType::Whitespace || kind == TokenType::Comment {
                        proof {
                            let k = span@.len() as int;
                            assert(span@ == input.subrange(q, q + k));
                            assert(longest_match(dfa, input, q, (q + k) - q));
                            assert(skipped_run(dfa, input, first_pos, q + k));
                        }
                        continue;
                    }
                    assert(skipped_run(old(self).automaton(), old(self).input(), old(self).position(), q));
                    return t;
                },
                _ => {
                    assert(skipped_run(old(self).automaton(), old(self).input(), old(self).position(), q));
                    return t;
                },
            }
        }
    }
}

} // verus!
