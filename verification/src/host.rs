//! What the evaluator asks of its host, and how contracts speak of the
//! answers.
//!
//! Four things are not decided in this crate: arithmetic on doubles, reading
//! a numeral, printing a number, and turning source text into a syntax tree.
//! The evaluator asks a [`Host`] for each. Nothing is assumed of a host. A
//! [`Session`] pairs a host with a ghost record of every question put to it
//! and the answer it gave, and a contract then speaks of every [`Oracle`]
//! that explains the record: every choice of four mathematical functions
//! that would have given the same answers. Where a host answers one question
//! in two ways no oracle explains it, and such a contract promises nothing.

use vstd::prelude::*;
use crate::syntax::{Syntax, SyntaxModel};

verus! {

/// The arithmetic that is asked of the host.
#[derive(Debug, Clone, Copy, PartialEq, Eq, Structural)]
pub enum Arithmetic {
    Add,
    Sub,
    Mul,
    Div,
    Rem,
}

/// The collaborators of the evaluator. Numbers go in and out as the bits of
/// a double.
pub trait Host {
    /// The result of `left op right` on doubles.
    fn arithmetic(&mut self, op: Arithmetic, left: u64, right: u64) -> u64;

    /// The number that `text` denotes, if it is a numeral.
    fn numeral(&mut self, text: &str) -> Option<u64>;

    /// The display form of a number.
    fn format(&mut self, number: u64) -> String;

    /// The syntax tree of `text`: tokenizing and parsing in one step. An
    /// error of either stage comes back as its message.
    fn parse(&mut self, text: &str) -> Result<Syntax, String>;
}

/// One question put to the host, with the answer it gave.
#[allow(inconsistent_fields)]
pub enum Exchange {
    Arithmetic { op: Arithmetic, left: u64, right: u64, answer: u64 },
    Numeral { text: Seq<char>, answer: Option<u64> },
    Format { number: u64, answer: Seq<char> },
    Parse { text: Seq<char>, answer: Result<SyntaxModel, Seq<char>> },
}

/// A host as mathematics: one function for each question.
pub struct Oracle {
    pub arithmetic: spec_fn(Arithmetic, u64, u64) -> u64,
    pub numeral: spec_fn(Seq<char>) -> Option<u64>,
    pub format: spec_fn(u64) -> Seq<char>,
    pub parse: spec_fn(Seq<char>) -> Result<SyntaxModel, Seq<char>>,
}

/// The model of what a front end hands back.
pub open spec fn parse_model(answer: Result<Syntax, String>) -> Result<SyntaxModel, Seq<char>> {
    match answer {
        Ok(tree) => Ok(tree@),
        Err(message) => Err(message@),
    }
}

impl Oracle {
    /// Whether this oracle gives the answer that the host gave.
    pub open spec fn answers(self, exchange: Exchange) -> bool {
        match exchange {
            Exchange::Arithmetic { op, left, right, answer } => (self.arithmetic)(op, left, right)
                == answer,
            Exchange::Numeral { text, answer } => (self.numeral)(text) == answer,
            Exchange::Format { number, answer } => (self.format)(number) == answer,
            Exchange::Parse { text, answer } => (self.parse)(text) == answer,
        }
    }

    /// Whether this oracle gives every answer on record.
    pub open spec fn explains(self, heard: Seq<Exchange>) -> bool {
        forall|i: int| 0 <= i < heard.len() ==> self.answers(#[trigger] heard[i])
    }
}

/// A host together with the record of what it was asked and what it said.
pub struct Session<H: Host> {
    host: H,
    heard: Ghost<Seq<Exchange>>,
}

impl<H: Host> Session<H> {
    /// The record: every exchange with the host so far, oldest first.
    pub closed spec fn heard(&self) -> Seq<Exchange> {
        self.heard@
    }

    /// The host of this session.
    pub closed spec fn host(&self) -> H {
        self.host
    }

    /// A session with nothing on record.
    pub fn new(host: H) -> (r: Self)
        ensures
            r.heard() == Seq::<Exchange>::empty(),
            r.host() == host,
    {
        Session { host, heard: Ghost(Seq::empty()) }
    }

    /// Ends the session and gives the host back.
    pub fn into_host(self) -> (r: H)
        ensures
            r == self.host(),
    {
        self.host
    }

    /// Asks the host for `left op right`.
    pub fn arithmetic(&mut self, op: Arithmetic, left: u64, right: u64) -> (r: u64)
        ensures
            final(self).heard() == old(self).heard().push(
                Exchange::Arithmetic { op, left, right, answer: r },
            ),
            forall|o: Oracle| #[trigger]
                o.explains(final(self).heard()) ==> o.explains(old(self).heard()) && (
                o.arithmetic)(op, left, right) == r,
    {
        let r = self.host.arithmetic(op, left, right);
        let ghost exchange = Exchange::Arithmetic { op, left, right, answer: r };
        self.heard = Ghost(self.heard@.push(exchange));
        proof {
            lemma_explains_push(old(self).heard(), exchange);
        }
        r
    }

    /// Asks the host which number `text` denotes.
    pub fn numeral(&mut self, text: &str) -> (r: Option<u64>)
        ensures
            final(self).heard() == old(self).heard().push(
                Exchange::Numeral { text: text@, answer: r },
            ),
            forall|o: Oracle| #[trigger]
                o.explains(final(self).heard()) ==> o.explains(old(self).heard()) && (o.numeral)(
                    text@,
                ) == r,
    {
        let r = self.host.numeral(text);
        let ghost exchange = Exchange::Numeral { text: text@, answer: r };
        self.heard = Ghost(self.heard@.push(exchange));
        proof {
            lemma_explains_push(old(self).heard(), exchange);
        }
        r
    }

    /// Asks the host for the display form of a number.
    pub fn format(&mut self, number: u64) -> (r: String)
        ensures
            final(self).heard() == old(self).heard().push(
                Exchange::Format { number, answer: r@ },
            ),
            forall|o: Oracle| #[trigger]
                o.explains(final(self).heard()) ==> o.explains(old(self).heard()) && (o.format)(
                    number,
                ) == r@,
    {
        let r = self.host.format(number);
        let ghost exchange = Exchange::Format { number, answer: r@ };
        self.heard = Ghost(self.heard@.push(exchange));
        proof {
            lemma_explains_push(old(self).heard(), exchange);
        }
        r
    }

    /// Asks the host for the syntax tree of `text`.
    pub fn parse(&mut self, text: &str) -> (r: Result<Syntax, String>)
        ensures
            final(self).heard() == old(self).heard().push(
                Exchange::Parse { text: text@, answer: parse_model(r) },
            ),
            forall|o: Oracle| #[trigger]
                o.explains(final(self).heard()) ==> o.explains(old(self).heard()) && (o.parse)(
                    text@,
                ) == parse_model(r),
    {
        let r = self.host.parse(text);
        let ghost exchange = Exchange::Parse { text: text@, answer: parse_model(r) };
        self.heard = Ghost(self.heard@.push(exchange));
        proof {
            lemma_explains_push(old(self).heard(), exchange);
        }
        r
    }
}

/// An oracle that explains a record with one more exchange explains the
/// record without it, and gives the answer of that exchange.
pub proof fn lemma_explains_push(heard: Seq<Exchange>, exchange: Exchange)
    ensures
        forall|o: Oracle| #[trigger]
            o.explains(heard.push(exchange)) ==> o.explains(heard) && o.answers(exchange),
{
    assert forall|o: Oracle| #[trigger] o.explains(heard.push(exchange)) implies o.explains(heard)
        && o.answers(exchange) by {
        let longer = heard.push(exchange);
        assert(longer[heard.len() as int] == exchange);
        assert forall|i: int| 0 <= i < heard.len() implies o.answers(#[trigger] heard[i]) by {
            assert(longer[i] == heard[i]);
        }
    }
}

} // verus!
