use vstd::prelude::*;

use crate::dice::{Dice, StdDice};
use crate::lexer::{lex_at, Lexer};
use crate::token::{kind_of, Token, TokenKind};

verus! {

/// Why notation text could not be parsed.
#[derive(Debug, Clone, Copy, PartialEq, Eq, Structural)]
pub enum ParseError {
    /// A character that starts no token.
    InvalidToken(char),
    /// The parser expected one kind of token and found another token.
    UnexpectedToken(TokenKind, Token),
    /// A `/0` multiplier clause.
    DivisionByZero,
    /// A run of digits whose value does not fit in an `i64`.
    NumberTooLarge,
}

/// The fields that a piece of notation spells out, defaults filled in:
/// `[times x] count d sides [{*|/}factor] [{+|-}modifier] [s drop]`.
pub struct RollNotation {
    pub times: i64,
    pub count: i64,
    pub sides: i64,
    pub multiplier: i64,
    pub modifier: i64,
    pub drop: i64,
}

/// Where a parser stands: the token under it, and the position in the text
/// after that token.
pub type ParseState = (Token, int);

/// Reads the token at position `p`.
pub open spec fn advance(s: Seq<char>, p: int) -> Result<ParseState, ParseError> {
    match lex_at(s, p).0 {
        Ok(t) => Ok((t, lex_at(s, p).1)),
        Err(e) => Err(e),
    }
}

/// A number must stand under the parser; it is taken and the parser moves on.
pub open spec fn number_spec(s: Seq<char>, st: ParseState) -> Result<(i64, ParseState), ParseError> {
    match st.0 {
        Token::Number(n) => match advance(s, st.1) {
            Ok(next) => Ok((n, next)),
            Err(e) => Err(e),
        },
        _ => Err(ParseError::UnexpectedToken(TokenKind::Number, st.0)),
    }
}

/// The token `t` must stand under the parser; the parser moves past it.
pub open spec fn expect_spec(s: Seq<char>, st: ParseState, t: Token) -> Result<ParseState, ParseError> {
    if st.0 == t {
        advance(s, st.1)
    } else {
        Err(ParseError::UnexpectedToken(kind_of(t), st.0))
    }
}

/// An operator token followed by a number; `Ok(None)` where the operator is
/// absent.
pub open spec fn operand_spec(s: Seq<char>, st: ParseState) -> Result<(i64, ParseState), ParseError> {
    match advance(s, st.1) {
        Ok(next) => number_spec(s, next),
        Err(e) => Err(e),
    }
}

/// The optional `*factor` or `/divisor` clause; `/n` stands for the
/// multiplier `1 / n`, truncated.
pub open spec fn multiplier_spec(s: Seq<char>, st: ParseState) -> Result<(Option<i64>, ParseState), ParseError> {
    match st.0 {
        Token::Mul => match operand_spec(s, st) {
            Ok((n, next)) => Ok((Some(n), next)),
            Err(e) => Err(e),
        },
        Token::Div => match operand_spec(s, st) {
            Ok((n, next)) => if n == 0 {
                Err(ParseError::DivisionByZero)
            } else {
                Ok((Some((1int / n as int) as i64), next))
            },
            Err(e) => Err(e),
        },
        _ => Ok((None, st)),
    }
}

/// The optional `+n` or `-n` clause.
pub open spec fn modifier_spec(s: Seq<char>, st: ParseState) -> Result<(Option<i64>, ParseState), ParseError> {
    match st.0 {
        Token::Add => match operand_spec(s, st) {
            Ok((n, next)) => Ok((Some(n), next)),
            Err(e) => Err(e),
        },
        Token::Sub => match operand_spec(s, st) {
            Ok((n, next)) => Ok((Some((-(n as int)) as i64), next)),
            Err(e) => Err(e),
        },
        _ => Ok((None, st)),
    }
}

/// The optional `s n` clause.
pub open spec fn drop_spec(s: Seq<char>, st: ParseState) -> Result<(Option<i64>, ParseState), ParseError> {
    match st.0 {
        Token::Drop => match operand_spec(s, st) {
            Ok((n, next)) => Ok((Some(n), next)),
            Err(e) => Err(e),
        },
        _ => Ok((None, st)),
    }
}

/// `times x count d` or `count d`: the repeat count, the die count, and where
/// the parser then stands.
pub open spec fn head_spec(s: Seq<char>, st: ParseState) -> Result<(i64, i64, ParseState), ParseError> {
    match number_spec(s, st) {
        Err(e) => Err(e),
        Ok((first, a)) => if a.0 == Token::Times {
            match operand_spec(s, a) {
                Err(e) => Err(e),
                Ok((count, b)) => match expect_spec(s, b, Token::Dice) {
                    Err(e) => Err(e),
                    Ok(c) => Ok((first, count, c)),
                },
            }
        } else {
            match expect_spec(s, a, Token::Dice) {
                Err(e) => Err(e),
                Ok(c) => Ok((1, first, c)),
            }
        },
    }
}

pub open spec fn or_default(o: Option<i64>, d: i64) -> i64 {
    match o {
        Some(v) => v,
        None => d,
    }
}

/// A roll, read from the state `st` on: the head, the sides, then the
/// optional multiplier, modifier and drop clauses in that order, and then
/// the end of the text.
pub open spec fn roll_spec(s: Seq<char>, st: ParseState) -> Result<RollNotation, ParseError> {
    match head_spec(s, st) {
        Err(e) => Err(e),
        Ok((times, count, a)) => match number_spec(s, a) {
            Err(e) => Err(e),
            Ok((sides, b)) => match multiplier_spec(s, b) {
                Err(e) => Err(e),
                Ok((mul, c)) => match modifier_spec(s, c) {
                    Err(e) => Err(e),
                    Ok((modifier, d)) => match drop_spec(s, d) {
                        Err(e) => Err(e),
                        Ok((drop, e)) => match expect_spec(s, e, Token::Eof) {
                            Err(e) => Err(e),
                            Ok(_) => Ok(
                                RollNotation {
                                    times,
                                    count,
                                    sides,
                                    multiplier: or_default(mul, 1),
                                    modifier: or_default(modifier, 0),
                                    drop: or_default(drop, 0),
                                },
                            ),
                        },
                    },
                },
            },
        },
    }
}

/// The meaning of notation text `s`.
pub open spec fn notation_of(s: Seq<char>) -> Result<RollNotation, ParseError> {
    match advance(s, 0) {
        Err(e) => Err(e),
        Ok(st) => roll_spec(s, st),
    }
}

/// `d` is the dice that notation `n` describes: faces `1..=sides`, and a
/// drop clamped to the count.
pub open spec fn describes(d: StdDice, n: RollNotation) -> bool {
    &&& d == Dice::new_spec(n.count, d.range, n.multiplier, n.modifier, n.drop)
    &&& d.range@.start == 1
    &&& d.range@.end == n.sides
    &&& !d.range@.exhausted
}

/// `r` is what parsing notation `n` gives: the repeat count and the dice, or
/// the same error.
pub open spec fn parsed_as(r: Result<(i64, StdDice), ParseError>, n: Result<RollNotation, ParseError>) -> bool {
    match (r, n) {
        (Ok((times, d)), Ok(n)) => times == n.times && describes(d, n),
        (Err(e), Err(f)) => e == f,
        _ => false,
    }
}

/// `a` and `b` are the same roll: the same fields and the same faces.
pub open spec fn same_dice(a: StdDice, b: StdDice) -> bool {
    &&& a.count == b.count
    &&& a.range@ == b.range@
    &&& a.multiplier == b.multiplier
    &&& a.modifier == b.modifier
    &&& a.drop == b.drop
}

/// Parsing is a function of the text alone: two parses of the same text
/// give the same repeat count and the same dice, or the same error.
pub proof fn lemma_parse_deterministic(
    a: Seq<char>,
    b: Seq<char>,
    ra: Result<(i64, StdDice), ParseError>,
    rb: Result<(i64, StdDice), ParseError>,
)
    requires
        a == b,
        parsed_as(ra, notation_of(a)),
        parsed_as(rb, notation_of(b)),
    ensures
        ra is Ok <==> rb is Ok,
        ra is Ok ==> ra->Ok_0.0 == rb->Ok_0.0 && same_dice(ra->Ok_0.1, rb->Ok_0.1),
        ra is Err ==> ra == rb,
{
}

/// Parses notation into the number of times to roll and the dice to roll.
pub fn parse_str(input: &str) -> (r: Result<(i64, StdDice), ParseError>)
    ensures
        parsed_as(r, notation_of(input@)),
{
    let mut parser = match Parser::new(input) {
        Ok(p) => p,
        Err(e) => return Err(e),
    };
    parser.parse()
}

/// A recursive-descent parser with one token of lookahead.
pub struct Parser {
    lexer: Lexer,
    current: Token,
}

impl Parser {
    pub closed spec fn text(&self) -> Seq<char> {
        self.lexer.text()
    }

    pub closed spec fn state(&self) -> ParseState {
        (self.current, self.lexer.position())
    }

    pub closed spec fn wf(&self) -> bool {
        &&& self.lexer.wf()
        &&& self.current matches Token::Number(n) ==> n >= 0
    }

    /// A parser over `source`, standing on its first token.
    pub fn new(source: &str) -> (r: Result<Parser, ParseError>)
        ensures
            match advance(source@, 0) {
                Ok(st) => r matches Ok(p) && p.wf() && p.text() == source@ && p.state() == st,
                Err(e) => r matches Err(f) && e == f,
            },
    {
        let mut lexer = Lexer::new(source);
        let current = match lexer.next() {
            Ok(t) => t,
            Err(e) => return Err(e),
        };
        Ok(Parser { lexer, current })
    }

    /// Reads a whole roll: the number of times to roll it and the dice.
    pub fn parse(&mut self) -> (r: Result<(i64, StdDice), ParseError>)
        requires
            old(self).wf(),
        ensures
            parsed_as(r, roll_spec(old(self).text(), old(self).state())),
    {
        let n = self.number()?;
        let (times, count) = if self.current_token_is(Token::Times) {
            self.next_token()?;
            let count = self.number()?;
            self.expect(Token::Dice)?;
            (n, count)
        } else {
            self.expect(Token::Dice)?;
            (1, n)
        };
        let sides = self.number()?;
        let multiplier = match self.parse_multiplier()? {
            Some(m) => m,
            None => 1,
        };
        let modifier = match self.parse_modifier()? {
            Some(m) => m,
            None => 0,
        };
        let drop = match self.parse_drop()? {
            Some(d) => d,
            None => 0,
        };
        self.expect(Token::Eof)?;
        let range = 1..=sides;
        let dice = Dice::new(count, range, multiplier, modifier, drop);
        Ok((times, dice))
    }

    pub fn next_token(&mut self) -> (r: Result<(), ParseError>)
        requires
            old(self).wf(),
        ensures
            final(self).wf(),
            final(self).text() == old(self).text(),
            match advance(old(self).text(), old(self).state().1) {
                Ok(st) => r is Ok && final(self).state() == st,
                Err(e) => r == Err::<(), ParseError>(e) && final(self).state().0 == old(self).state().0,
            },
    {
        self.current = self.lexer.next()?;
        Ok(())
    }

    pub fn number(&mut self) -> (r: Result<i64, ParseError>)
        requires
            old(self).wf(),
        ensures
            final(self).wf(),
            final(self).text() == old(self).text(),
            match number_spec(old(self).text(), old(self).state()) {
                Ok((n, st)) => r == Ok::<i64, ParseError>(n) && final(self).state() == st,
                Err(e) => r == Err::<i64, ParseError>(e),
            },
            r matches Ok(n) ==> n >= 0,
            r is Err ==> final(self).state().0 == old(self).state().0,
            !(old(self).state().0 is Number) ==> final(self).state() == old(self).state(),
    {
        if let Token::Number(n) = self.current {
            self.next_token()?;
            Ok(n)
        } else {
            Err(ParseError::UnexpectedToken(TokenKind::Number, self.current))
        }
    }

    pub fn parse_multiplier(&mut self) -> (r: Result<Option<i64>, ParseError>)
        requires
            old(self).wf(),
        ensures
            final(self).wf(),
            final(self).text() == old(self).text(),
            match multiplier_spec(old(self).text(), old(self).state()) {
                Ok((m, st)) => r == Ok::<Option<i64>, ParseError>(m) && final(self).state() == st,
                Err(e) => r == Err::<Option<i64>, ParseError>(e),
            },
    {
        match self.current {
            Token::Mul => {
                self.next_token()?;
                let multiplier = self.number()?;
                Ok(Some(multiplier))
            },
            Token::Div => {
                self.next_token()?;
                let divisor = self.number()?;
                if divisor == 0 {
                    return Err(ParseError::DivisionByZero);
                }
                Ok(Some(1 / divisor))
            },
            _ => Ok(None),
        }
    }

    pub fn parse_modifier(&mut self) -> (r: Result<Option<i64>, ParseError>)
        requires
            old(self).wf(),
        ensures
            final(self).wf(),
            final(self).text() == old(self).text(),
            match modifier_spec(old(self).text(), old(self).state()) {
                Ok((m, st)) => r == Ok::<Option<i64>, ParseError>(m) && final(self).state() == st,
                Err(e) => r == Err::<Option<i64>, ParseError>(e),
            },
    {
        match self.current {
            Token::Add => {
                self.next_token()?;
                let modifier = self.number()?;
                Ok(Some(modifier))
            },
            Token::Sub => {
                self.next_token()?;
                let modifier = self.number()?;
                Ok(Some(-modifier))
            },
            _ => Ok(None),
        }
    }

    pub fn parse_drop(&mut self) -> (r: Result<Option<i64>, ParseError>)
        requires
            old(self).wf(),
        ensures
            final(self).wf(),
            final(self).text() == old(self).text(),
            match drop_spec(old(self).text(), old(self).state()) {
                Ok((d, st)) => r == Ok::<Option<i64>, ParseError>(d) && final(self).state() == st,
                Err(e) => r == Err::<Option<i64>, ParseError>(e),
            },
    {
        if let Token::Drop = self.current {
            self.next_token()?;
            Ok(Some(self.number()?))
        } else {
            Ok(None)
        }
    }

    pub fn expect(&mut self, expected: Token) -> (r: Result<(), ParseError>)
        requires
            old(self).wf(),
        ensures
            final(self).wf(),
            final(self).text() == old(self).text(),
            match expect_spec(old(self).text(), old(self).state(), expected) {
                Ok(st) => r is Ok && final(self).state() == st,
                Err(e) => r == Err::<(), ParseError>(e),
            },
            r is Err ==> final(self).state().0 == old(self).state().0,
            old(self).state().0 != expected ==> final(self).state() == old(self).state(),
    {
        if expected == self.current {
            self.next_token()
        } else {
            Err(ParseError::UnexpectedToken(expected.kind(), self.current))
        }
    }

    pub fn current_token_is(&mut self, token: Token) -> (r: bool)
        ensures
            *final(self) == *old(self),
            r == (old(self).state().0 == token),
    {
        token == self.current
    }
}

} // verus!
