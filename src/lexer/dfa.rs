//! A deterministic automaton over characters, stored as a table of states with
//! ordered transitions. The first transition whose class holds the character
//! is taken, which keeps the automaton deterministic by construction.

use vstd::prelude::*;
use unicode_xid::UnicodeXID;
use crate::lexer::TokenType;

verus! {

/// Whether `c` has the Unicode property XID_Start.
pub uninterp spec fn xid_start_of(c: char) -> bool;

/// Whether `c` has the Unicode property XID_Continue.
pub uninterp spec fn xid_continue_of(c: char) -> bool;

pub open spec fn is_ascii_letter(c: char) -> bool {
    ('a' <= c && c <= 'z') || ('A' <= c && c <= 'Z')
}

/// Relies on unicode_xid's `is_xid_start`: the property depends on the
/// character alone, and on ASCII it holds exactly of the letters.
#[verifier::external_body]
fn is_xid_start(c: char) -> (r: bool)
    ensures
        r == xid_start_of(c),
        (c as u32) < 0x80 ==> (r <==> is_ascii_letter(c)),
{
    UnicodeXID::is_xid_start(c)
}

/// Relies on unicode_xid's `is_xid_continue`: the property depends on the
/// character alone, and on ASCII it holds exactly of letters, digits and `_`.
#[verifier::external_body]
fn is_xid_continue(c: char) -> (r: bool)
    ensures
        r == xid_continue_of(c),
        (c as u32) < 0x80 ==> (r <==> (is_ascii_letter(c) || ('0' <= c && c <= '9') || c == '_')),
{
    UnicodeXID::is_xid_continue(c)
}

/// A set of characters that labels a transition.
#[derive(Copy, Clone, Debug, PartialEq, Eq, Structural)]
pub enum CharClass {
    /// Exactly this character.
    Single(char),
    /// The characters from the first to the second, both included.
    Range(char, char),
    /// Every character but this one.
    AnyExcept(char),
    /// The characters that may start an identifier (XID_Start).
    XidStart,
    /// The characters that may continue an identifier (XID_Continue).
    XidContinue,
}

impl CharClass {
    pub open spec fn contains(self, c: char) -> bool {
        match self {
            CharClass::Single(x) => c == x,
            CharClass::Range(lo, hi) => lo <= c && c <= hi,
            CharClass::AnyExcept(x) => c != x,
            CharClass::XidStart => if (c as u32) < 0x80 {
                is_ascii_letter(c)
            } else {
                xid_start_of(c)
            },
            CharClass::XidContinue => if (c as u32) < 0x80 {
                is_ascii_letter(c) || ('0' <= c && c <= '9') || c == '_'
            } else {
                xid_continue_of(c)
            },
        }
    }

    /// Whether the class holds `c`.
    pub fn matches(&self, c: char) -> (r: bool)
        ensures
            r == self.contains(c),
    {
        match *self {
            CharClass::Single(x) => c == x,
            CharClass::Range(lo, hi) => lo <= c && c <= hi,
            CharClass::AnyExcept(x) => c != x,
            CharClass::XidStart => is_xid_start(c),
            CharClass::XidContinue => is_xid_continue(c),
        }
    }
}

#[derive(Copy, Clone, Debug)]
pub struct Transition {
    pub class: CharClass,
    pub target: usize,
}

#[derive(Debug)]
pub struct State {
    /// The kind of token recognised on reaching this state, if it accepts.
    pub accept: Option<TokenType>,
    /// Outgoing transitions, tried in order.
    pub transitions: Vec<Transition>,
}

/// The compiled automaton; state 0 is the root.
#[derive(Debug)]
pub struct Dfa {
    pub states: Vec<State>,
}

/// The target of the first transition of `ts` whose class holds `c`.
pub open spec fn first_match(ts: Seq<Transition>, c: char) -> Option<nat>
    decreases ts.len(),
{
    if ts.len() == 0 {
        None
    } else if ts[0].class.contains(c) {
        Some(ts[0].target as nat)
    } else {
        first_match(ts.drop_first(), c)
    }
}

impl Dfa {
    /// Every transition leads to a state of the table, and the root exists.
    pub open spec fn wf(&self) -> bool {
        &&& self.states@.len() > 0
        &&& forall|s: int, t: int|
            0 <= s < self.states@.len() && 0 <= t < self.states@[s].transitions@.len()
                ==> #[trigger] self.states@[s].transitions@[t].target < self.states@.len()
    }

    /// The state reached from `s` on `c`, if any.
    pub open spec fn step(&self, s: nat, c: char) -> Option<nat> {
        first_match(self.states@[s as int].transitions@, c)
    }

    /// The token kind that state `s` accepts, if any.
    pub open spec fn accepting(&self, s: nat) -> Option<TokenType> {
        self.states@[s as int].accept
    }

    /// The state reached from the root on the characters of `cs`, if the
    /// automaton can consume all of them.
    pub open spec fn walk(&self, cs: Seq<char>) -> Option<nat>
        decreases cs.len(),
    {
        if cs.len() == 0 {
            Some(0)
        } else {
            match self.walk(cs.drop_last()) {
                Some(s) => self.step(s, cs.last()),
                None => None,
            }
        }
    }

    /// Whether the automaton consumes all of `cs` and stops in an accepting state.
    pub open spec fn accepts(&self, cs: Seq<char>) -> bool {
        match self.walk(cs) {
            Some(s) => self.accepting(s) is Some,
            None => false,
        }
    }

    /// The token kind of `cs`, where the automaton accepts it.
    pub open spec fn kind_of(&self, cs: Seq<char>) -> TokenType
        recommends
            self.accepts(cs),
    {
        self.accepting(self.walk(cs)->0)->0
    }

    /// The root state.
    pub fn root(&self) -> (r: usize)
        requires
            self.wf(),
        ensures
            r == 0,
            r < self.states@.len(),
    {
        0
    }

    /// The state reached from `node` on `c`, if any.
    pub fn next(&self, node: usize, c: char) -> (r: Option<usize>)
        requires
            self.wf(),
            node < self.states@.len(),
        ensures
            r matches Some(n) ==> n < self.states@.len(),
            match r {
                Some(n) => self.step(node as nat, c) == Some(n as nat),
                None => self.step(node as nat, c) is None,
            },
    {
        let ts = &self.states[node].transitions;
        let mut i: usize = 0;
        assert(ts@.subrange(0, ts@.len() as int) =~= ts@);
        while i < ts.len()
            invariant
                self.wf(),
                node < self.states@.len(),
                ts@ == self.states@[node as int].transitions@,
                0 <= i <= ts@.len(),
                first_match(ts@, c) == first_match(ts@.subrange(i as int, ts@.len() as int), c),
            decreases ts@.len() - i,
        {
            let t = ts[i];
            assert(ts@.subrange(i as int, ts@.len() as int).drop_first()
                =~= ts@.subrange(i + 1, ts@.len() as int));
            if t.class.matches(c) {
                assert(self.states@[node as int].transitions@[i as int].target < self.states@.len());
                return Some(t.target);
            }
            i += 1;
        }
        None
    }

    /// The token kind that `node` accepts, if any.
    pub fn state(&self, node: usize) -> (r: Option<TokenType>)
        requires
            node < self.states@.len(),
        ensures
            r == self.accepting(node as nat),
    {
        self.states[node].accept
    }
}

} // verus!
