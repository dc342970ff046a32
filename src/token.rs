use vstd::prelude::*;

verus! {

/// One lexical unit of dice notation.
#[derive(Debug, Clone, Copy, PartialEq, Eq, Structural)]
pub enum Token {
    Number(i64),
    Times,
    Dice,
    Drop,
    Mul,
    Div,
    Add,
    Sub,
    Eof,
}

/// The tag of a token, without its payload: what a parser may expect.
#[derive(Debug, Clone, Copy, PartialEq, Eq, Structural)]
pub enum TokenKind {
    Number,
    Times,
    Dice,
    Drop,
    Mul,
    Div,
    Add,
    Sub,
    Eof,
}

pub open spec fn kind_of(t: Token) -> TokenKind {
    match t {
        Token::Number(_) => TokenKind::Number,
        Token::Times => TokenKind::Times,
        Token::Dice => TokenKind::Dice,
        Token::Drop => TokenKind::Drop,
        Token::Mul => TokenKind::Mul,
        Token::Div => TokenKind::Div,
        Token::Add => TokenKind::Add,
        Token::Sub => TokenKind::Sub,
        Token::Eof => TokenKind::Eof,
    }
}

impl Token {
    /// The tag of this token.
    pub fn kind(&self) -> (r: TokenKind)
        ensures
            r == kind_of(*self),
    {
        match self {
            Token::Number(_) => TokenKind::Number,
            Token::Times => TokenKind::Times,
            Token::Dice => TokenKind::Dice,
            Token::Drop => TokenKind::Drop,
            Token::Mul => TokenKind::Mul,
            Token::Div => TokenKind::Div,
            Token::Add => TokenKind::Add,
            Token::Sub => TokenKind::Sub,
            Token::Eof => TokenKind::Eof,
        }
    }
}

impl TokenKind {
    /// The name under which this kind of token is reported in errors.
    pub fn name(&self) -> (r: &'static str)
        ensures
            r@ == kind_name(*self),
    {
        match self {
            TokenKind::Number => {
                proof {
                    reveal_strlit("Number");
                }
                "Number"
            },
            TokenKind::Times => {
                proof {
                    reveal_strlit("Times");
                }
                "Times"
            },
            TokenKind::Dice => {
                proof {
                    reveal_strlit("Dice");
                }
                "Dice"
            },
            TokenKind::Drop => {
                proof {
                    reveal_strlit("Drop");
                }
                "Drop"
            },
            TokenKind::Mul => {
                proof {
                    reveal_strlit("Mul");
                }
                "Mul"
            },
            TokenKind::Div => {
                proof {
                    reveal_strlit("Div");
                }
                "Div"
            },
            TokenKind::Add => {
                proof {
                    reveal_strlit("Add");
                }
                "Add"
            },
            TokenKind::Sub => {
                proof {
                    reveal_strlit("Sub");
                }
                "Sub"
            },
            TokenKind::Eof => {
                proof {
                    reveal_strlit("Eof");
                }
                "Eof"
            },
        }
    }
}

pub open spec fn kind_name(k: TokenKind) -> Seq<char> {
    match k {
        TokenKind::Number => seq!['N', 'u', 'm', 'b', 'e', 'r'],
        TokenKind::Times => seq!['T', 'i', 'm', 'e', 's'],
        TokenKind::Dice => seq!['D', 'i', 'c', 'e'],
        TokenKind::Drop => seq!['D', 'r', 'o', 'p'],
        TokenKind::Mul => seq!['M', 'u', 'l'],
        TokenKind::Div => seq!['D', 'i', 'v'],
        TokenKind::Add => seq!['A', 'd', 'd'],
        TokenKind::Sub => seq!['S', 'u', 'b'],
        TokenKind::Eof => seq!['E', 'o', 'f'],
    }
}


/// The character of a decimal digit.
pub open spec fn digit_char(d: nat) -> char {
    if d == 0 { '0' } else if d == 1 { '1' } else if d == 2 { '2' } else if d == 3 { '3' }
    else if d == 4 { '4' } else if d == 5 { '5' } else if d == 6 { '6' } else if d == 7 { '7' }
    else if d == 8 { '8' } else { '9' }
}

/// The decimal digits of `n`, without leading zeros.
pub open spec fn decimal(n: nat) -> Seq<char>
    decreases n,
{
    if n < 10 {
        seq![digit_char(n)]
    } else {
        decimal(n / 10).push(digit_char(n % 10))
    }
}

/// `n` in decimal, with a leading `-` when it is negative.
pub open spec fn signed_decimal(n: int) -> Seq<char> {
    if n < 0 {
        seq!['-'] + decimal((-n) as nat)
    } else {
        decimal(n as nat)
    }
}

/// How a token is written in messages: `Number(12)`, `Dice`, `Eof`.
pub open spec fn token_text(t: Token) -> Seq<char> {
    match t {
        Token::Number(n) => kind_name(TokenKind::Number) + seq!['('] + signed_decimal(n as int) + seq![')'],
        _ => kind_name(kind_of(t)),
    }
}

fn push_str(out: &mut Vec<char>, s: &str)
    ensures
        final(out)@ == old(out)@ + s@,
{
    let n = s.unicode_len();
    let mut i: usize = 0;
    while i < n
        invariant
            n == s@.len(),
            i <= n,
            out@ == old(out)@ + s@.subrange(0, i as int),
        decreases n - i,
    {
        out.push(s.get_char(i));
        i = i + 1;
        assert(s@.subrange(0, i as int) =~= s@.subrange(0, i - 1).push(s@[i - 1]));
        assert(out@ =~= old(out)@ + s@.subrange(0, i as int));
    }
    assert(s@.subrange(0, n as int) =~= s@);
}

fn push_decimal(out: &mut Vec<char>, n: u64)
    ensures
        final(out)@ == old(out)@ + decimal(n as nat),
    decreases n,
{
    if n >= 10 {
        push_decimal(out, n / 10);
    }
    let d = n % 10;
    let c = if d == 0 { '0' } else if d == 1 { '1' } else if d == 2 { '2' } else if d == 3 { '3' }
    else if d == 4 { '4' } else if d == 5 { '5' } else if d == 6 { '6' } else if d == 7 { '7' }
    else if d == 8 { '8' } else { '9' };
    out.push(c);
    assert(out@ =~= old(out)@ + decimal(n as nat));
}

impl Token {
    /// The text of this token, as messages show it.
    pub fn describe(&self) -> (r: Vec<char>)
        ensures
            r@ == token_text(*self),
    {
        let mut out: Vec<char> = Vec::new();
        let kind = self.kind();
        push_str(&mut out, kind.name());
        if let Token::Number(n) = self {
            out.push('(');
            if *n < 0 {
                out.push('-');
                push_decimal(&mut out, (-(*n as i128)) as u64);
            } else {
                push_decimal(&mut out, *n as u64);
            }
            out.push(')');
            assert(out@ =~= token_text(*self));
        } else {
            assert(out@ =~= token_text(*self));
        }
        out
    }
}

} // verus!
