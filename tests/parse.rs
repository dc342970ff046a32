use dice::dice::DiceRoller;
use dice::parse::{parse_str, ParseError, Parser};
use dice::token::{Token, TokenKind};

#[test]
fn parse_parse_str() {
    let input = "3x4d6*5+1s2";

    let (times, dice) = parse_str(input).unwrap();

    assert_eq!(3, times);
    assert_eq!(4, dice.count);
    assert_eq!(1..=6, dice.range);
    assert_eq!(5, dice.multiplier);
    assert_eq!(1, dice.modifier);
    assert_eq!(2, dice.drop);
}

#[test]
fn parser_parse() {
    let mut parser = Parser::new("3x4d6*5+1s2").unwrap();

    let (times, dice) = parser.parse().unwrap();

    assert_eq!(3, times);
    assert_eq!(4, dice.count);
    assert_eq!(1..=6, dice.range);
    assert_eq!(5, dice.multiplier);
    assert_eq!(1, dice.modifier);
    assert_eq!(2, dice.drop);
}

#[test]
fn parse_defaults_and_bounds() {
    let (times, dice) = parse_str("2d20+2").unwrap();
    assert_eq!(1, times);
    assert_eq!(2, dice.count);
    assert_eq!(1..=20, dice.range);
    assert_eq!(1, dice.multiplier);
    assert_eq!(2, dice.modifier);
    assert_eq!(0, dice.drop);

    let mut roller = DiceRoller::new().unwrap();
    for _ in 0..1000 {
        let v = roller.roll_dice(&dice);
        assert!((4..=42).contains(&v));
    }
}

#[test]
fn parse_one_d_six_is_uniform() {
    let (times, dice) = parse_str("1d6").unwrap();
    assert_eq!(1, times);
    let mut roller = DiceRoller::from_seed(7);
    let mut counts = [0usize; 6];
    for _ in 0..6000 {
        let v = roller.roll_dice(&dice);
        assert!((1..=6).contains(&v));
        counts[(v - 1) as usize] += 1;
    }
    for c in counts {
        assert!(c > 800 && c < 1200, "face count {}", c);
    }
    let rolls = roller.roll_dice_times(&dice, 1000);
    assert_eq!(1000, rolls.len());
    assert!(rolls.iter().all(|v| (1..=6).contains(v)));
}

#[test]
fn parse_missing_count() {
    assert_eq!(
        Err(ParseError::UnexpectedToken(TokenKind::Number, Token::Dice)),
        parse_str("d6").map(|(t, d)| (t, d.count))
    );
}

#[test]
fn parse_invalid_character() {
    assert_eq!(
        Err(ParseError::InvalidToken('%')),
        parse_str("3d6%2").map(|(t, d)| (t, d.count))
    );
    assert!(matches!(Parser::new("?"), Err(ParseError::InvalidToken('?'))));
}

#[test]
fn parse_division() {
    let (_, half) = parse_str("1d6/2").unwrap();
    assert_eq!(0, half.multiplier);
    let (_, one) = parse_str("1d6/1").unwrap();
    assert_eq!(1, one.multiplier);
    assert_eq!(
        Err(ParseError::DivisionByZero),
        parse_str("1d6/0").map(|(t, d)| (t, d.count))
    );
}

#[test]
fn parse_negative_modifier_and_whitespace() {
    let (times, dice) = parse_str(" 2 x 3 d 8 * 2 - 3 s 1 ").unwrap();
    assert_eq!(2, times);
    assert_eq!(3, dice.count);
    assert_eq!(1..=8, dice.range);
    assert_eq!(2, dice.multiplier);
    assert_eq!(-3, dice.modifier);
    assert_eq!(1, dice.drop);
}

#[test]
fn parse_clause_order_is_fixed() {
    assert_eq!(
        Err(ParseError::UnexpectedToken(TokenKind::Eof, Token::Mul)),
        parse_str("1d6+1*2").map(|(t, d)| (t, d.count))
    );
    assert_eq!(
        Err(ParseError::UnexpectedToken(TokenKind::Eof, Token::Number(7))),
        parse_str("1d6 7").map(|(t, d)| (t, d.count))
    );
}

#[test]
fn parse_errors_at_the_end() {
    assert_eq!(
        Err(ParseError::UnexpectedToken(TokenKind::Number, Token::Eof)),
        parse_str("3x").map(|(t, d)| (t, d.count))
    );
    assert_eq!(
        Err(ParseError::UnexpectedToken(TokenKind::Dice, Token::Eof)),
        parse_str("3x4").map(|(t, d)| (t, d.count))
    );
    assert_eq!(
        Err(ParseError::UnexpectedToken(TokenKind::Number, Token::Eof)),
        parse_str("").map(|(t, d)| (t, d.count))
    );
    assert_eq!(
        Err(ParseError::NumberTooLarge),
        parse_str("1d99999999999999999999").map(|(t, d)| (t, d.count))
    );
}

#[test]
fn parse_drop_is_clamped() {
    let (_, dice) = parse_str("2d6+5s9").unwrap();
    assert_eq!(2, dice.drop);
    let mut roller = DiceRoller::new().unwrap();
    for _ in 0..100 {
        assert_eq!(5, roller.roll_dice(&dice));
    }
}

#[test]
fn parse_is_repeatable() {
    let a = parse_str("4x2d10*3-2s1").unwrap();
    let b = parse_str("4x2d10*3-2s1").unwrap();
    assert_eq!(a.0, b.0);
    assert_eq!(a.1.count, b.1.count);
    assert_eq!(a.1.range, b.1.range);
    assert_eq!(a.1.multiplier, b.1.multiplier);
    assert_eq!(a.1.modifier, b.1.modifier);
    assert_eq!(a.1.drop, b.1.drop);
}
