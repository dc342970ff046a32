use vstd::prelude::*;

use crate::parse::ParseError;
use crate::token::Token;

verus! {

/// Unicode `White_Space` characters, the set that `char::is_whitespace` tests.
pub open spec fn is_space(c: char) -> bool {
    ('\u{9}' <= c && c <= '\u{d}') || c == ' ' || c == '\u{85}' || c == '\u{a0}' || c
        == '\u{1680}' || ('\u{2000}' <= c && c <= '\u{200a}') || c == '\u{2028}' || c
        == '\u{2029}' || c == '\u{202f}' || c == '\u{205f}' || c == '\u{3000}'
}

pub open spec fn is_digit(c: char) -> bool {
    '0' <= c && c <= '9'
}

pub open spec fn digit_value(c: char) -> int {
    c as int - '0' as int
}

/// The token that a single operator character stands for.
pub open spec fn operator_token(c: char) -> Option<Token> {
    if c == '*' {
        Some(Token::Mul)
    } else if c == '/' {
        Some(Token::Div)
    } else if c == '+' {
        Some(Token::Add)
    } else if c == '-' {
        Some(Token::Sub)
    } else if c == 'x' {
        Some(Token::Times)
    } else if c == 'd' {
        Some(Token::Dice)
    } else if c == 's' {
        Some(Token::Drop)
    } else {
        None
    }
}

/// The first position at or after `p` that does not hold whitespace.
pub open spec fn skip_space(s: Seq<char>, p: int) -> int
    decreases s.len() - p,
{
    if 0 <= p < s.len() && is_space(s[p]) {
        skip_space(s, p + 1)
    } else {
        p
    }
}

/// The end of the run of decimal digits that starts at `p`.
pub open spec fn digits_end(s: Seq<char>, p: int) -> int
    decreases s.len() - p,
{
    if 0 <= p < s.len() && is_digit(s[p]) {
        digits_end(s, p + 1)
    } else {
        p
    }
}

/// The decimal value of the digits `s[p..q]`.
pub open spec fn digits_value(s: Seq<char>, p: int, q: int) -> int
    decreases q - p,
{
    if q <= p {
        0
    } else {
        digits_value(s, p, q - 1) * 10 + digit_value(s[q - 1])
    }
}

/// The outcome of reading one token of `s` from position `p`, and the
/// position after it.
pub open spec fn lex_at(s: Seq<char>, p: int) -> (Result<Token, ParseError>, int) {
    let q = skip_space(s, p);
    if q >= s.len() {
        (Ok(Token::Eof), q)
    } else if operator_token(s[q]) is Some {
        (Ok(operator_token(s[q])->0), q + 1)
    } else if is_digit(s[q]) {
        let e = digits_end(s, q);
        let v = digits_value(s, q, e);
        if v <= i64::MAX {
            (Ok(Token::Number(v as i64)), e)
        } else {
            (Err(ParseError::NumberTooLarge), e)
        }
    } else {
        (Err(ParseError::InvalidToken(s[q])), q + 1)
    }
}

proof fn lemma_skip_space_bounds(s: Seq<char>, p: int)
    requires
        0 <= p <= s.len(),
    ensures
        p <= skip_space(s, p) <= s.len(),
        forall|i: int| p <= i < skip_space(s, p) ==> is_space(#[trigger] s[i]),
    decreases s.len() - p,
{
    if p < s.len() && is_space(s[p]) {
        lemma_skip_space_bounds(s, p + 1);
    }
}

proof fn lemma_digits_value_nonneg(s: Seq<char>, p: int, q: int)
    requires
        0 <= p,
        q <= s.len(),
        forall|i: int| p <= i < q ==> is_digit(#[trigger] s[i]),
    ensures
        0 <= digits_value(s, p, q),
    decreases q - p,
{
    if q > p {
        lemma_digits_value_nonneg(s, p, q - 1);
    }
}

/// A cursor over notation text that hands out one token at a time.
#[derive(Debug, Clone)]
pub struct Lexer {
    source: Vec<char>,
    pos: usize,
}

impl Lexer {
    /// The whole text being read.
    pub closed spec fn text(&self) -> Seq<char> {
        self.source@
    }

    /// The position of the next character to read.
    pub closed spec fn position(&self) -> int {
        self.pos as int
    }

    pub closed spec fn wf(&self) -> bool {
        self.pos <= self.source.len()
    }

    pub fn new(source: &str) -> (r: Lexer)
        ensures
            r.wf(),
            r.text() == source@,
            r.position() == 0,
            0 <= r.position() <= r.text().len(),
    {
        let n = source.unicode_len();
        let mut chars: Vec<char> = Vec::new();
        let mut i: usize = 0;
        while i < n
            invariant
                n == source@.len(),
                i <= n,
                chars@ == source@.subrange(0, i as int),
            decreases n - i,
        {
            chars.push(source.get_char(i));
            i = i + 1;
            assert(chars@ =~= source@.subrange(0, i as int));
        }
        assert(chars@ =~= source@);
        Lexer { source: chars, pos: 0 }
    }

    /// The characters that have not been read yet.
    pub fn remaining(&self) -> (r: Vec<char>)
        requires
            self.wf(),
        ensures
            r@ == self.text().subrange(self.position(), self.text().len() as int),
    {
        let mut out: Vec<char> = Vec::new();
        let mut i: usize = self.pos;
        while i < self.source.len()
            invariant
                self.pos <= i <= self.source.len(),
                out@ == self.source@.subrange(self.pos as int, i as int),
            decreases self.source.len() - i,
        {
            out.push(self.source[i]);
            i = i + 1;
            assert(out@ =~= self.source@.subrange(self.pos as int, i as int));
        }
        out
    }

    /// Reads the next token. At the end of the text this is `Eof`, as often
    /// as it is asked for.
    pub fn next(&mut self) -> (r: Result<Token, ParseError>)
        requires
            old(self).wf(),
        ensures
            final(self).wf(),
            final(self).text() == old(self).text(),
            0 <= final(self).position() <= final(self).text().len(),
            (r, final(self).position()) == lex_at(old(self).text(), old(self).position()),
            r matches Ok(Token::Number(n)) ==> n >= 0,
    {
        let ghost s = self.source@;
        let n = self.source.len();
        proof {
            lemma_skip_space_bounds(s, self.pos as int);
        }
        while self.pos < n && is_whitespace(self.source[self.pos])
            invariant
                n == self.source.len(),
                s == self.source@,
                self.pos <= n,
                skip_space(s, self.pos as int) == skip_space(old(self).source@, old(self).pos as int),
            decreases n - self.pos,
        {
            self.pos = self.pos + 1;
        }
        if self.pos >= n {
            return Ok(Token::Eof);
        }
        let c = self.source[self.pos];
        self.pos = self.pos + 1;
        match c {
            '*' => Ok(Token::Mul),
            '/' => Ok(Token::Div),
            '+' => Ok(Token::Add),
            '-' => Ok(Token::Sub),
            'x' => Ok(Token::Times),
            'd' => Ok(Token::Dice),
            's' => Ok(Token::Drop),
            _ => {
                if !('0' <= c && c <= '9') {
                    return Err(ParseError::InvalidToken(c));
                }
                let start = self.pos - 1;
                let mut value: i64 = (c as u32 - '0' as u32) as i64;
                let mut too_large = false;
                proof {
                    assert(digits_value(s, start as int, start as int) == 0);
                }
                while self.pos < n && '0' <= self.source[self.pos] && self.source[self.pos] <= '9'
                    invariant
                        n == self.source.len(),
                        s == self.source@,
                        start < self.pos <= n,
                        digits_end(s, start as int) == digits_end(s, self.pos as int),
                        forall|i: int| start <= i < self.pos ==> is_digit(#[trigger] s[i]),
                        !too_large ==> value == digits_value(s, start as int, self.pos as int),
                        too_large ==> digits_value(s, start as int, self.pos as int) > i64::MAX,
                        0 <= value,
                    decreases n - self.pos,
                {
                    let d = (self.source[self.pos] as u32 - '0' as u32) as i64;
                    proof {
                        lemma_digits_value_nonneg(s, start as int, self.pos as int);
                    }
                    if !too_large {
                        if value > (i64::MAX - d) / 10 {
                            too_large = true;
                        } else {
                            value = value * 10 + d;
                        }
                    }
                    self.pos = self.pos + 1;
                }
                if too_large {
                    Err(ParseError::NumberTooLarge)
                } else {
                    Ok(Token::Number(value))
                }
            },
        }
    }
}

/// Tests whether `c` is whitespace in the sense of Unicode's `White_Space`
/// property.
pub fn is_whitespace(c: char) -> (r: bool)
    ensures
        r == is_space(c),
{
    ('\u{9}' <= c && c <= '\u{d}') || c == ' ' || c == '\u{85}' || c == '\u{a0}' || c
        == '\u{1680}' || ('\u{2000}' <= c && c <= '\u{200a}') || c == '\u{2028}' || c
        == '\u{2029}' || c == '\u{202f}' || c == '\u{205f}' || c == '\u{3000}'
}

} // verus!
