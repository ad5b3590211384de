use stackup::parser::{to_chars, Class};
use stackup::{full_parse, ParseErr, Syntax};

fn number(s: &str) -> Syntax {
    Syntax::Number(s.to_string())
}

fn text(s: &str) -> Syntax {
    Syntax::Text(s.to_string())
}

fn word(s: &str) -> Syntax {
    Syntax::Word(s.to_string())
}

/// The input as one expression.
fn one(input: &str) -> Result<Syntax, ParseErr> {
    let mut items = full_parse(input)?;
    if items.len() == 1 {
        Ok(items.remove(0))
    } else {
        Err(ParseErr { at: input.chars().count() })
    }
}

/// The input as one text.
fn text_parser(input: &str) -> Result<String, ()> {
    match one(input) {
        Ok(Syntax::Text(t)) => Ok(t),
        _ => Err(()),
    }
}

/// The input as one number, with the value that the written form stands for.
fn num_parser(input: &str) -> Result<f64, ()> {
    match one(input) {
        Ok(Syntax::Number(t)) => t.parse::<f64>().map_err(|_| ()),
        _ => Err(()),
    }
}

/// The input as one word.
fn opname_parser(input: &str) -> Result<String, ()> {
    match one(input) {
        Ok(Syntax::Word(t)) => Ok(t),
        _ => Err(()),
    }
}

/// The input as one block.
fn block_parser(input: &str) -> Result<Vec<Syntax>, ()> {
    match one(input) {
        Ok(Syntax::Block(items)) => Ok(items),
        _ => Err(()),
    }
}

#[test]
fn test_text() {
    let text = "hello".to_string();
    assert_eq!(text, text_parser(r#""hello""#).unwrap());
    assert_eq!(text, text_parser(r#"'hello'"#).unwrap());
    assert!(text_parser(r#"'hello""#).is_err());
    assert!(text_parser(r#""hello'"#).is_err());
}

#[test]
fn test_num() {
    assert_eq!(0., num_parser(r#"0"#).unwrap());
    assert_eq!(-1.65, num_parser(r#"-01.650"#).unwrap());
    assert!(num_parser(r#"o232"#).is_err());
}

#[test]
fn test_val() {
    assert_eq!(number("0"), one("0").unwrap());
    assert_eq!(0., num_parser("0").unwrap());
    assert_eq!(text("Hello, World!"), one(r#""Hello, World!""#).unwrap());
}

#[test]
fn test_opname() {
    assert_eq!("fib", opname_parser("fib").unwrap());
    assert_eq!("Weirder_namE", opname_parser("Weirder_namE").unwrap());
    assert!(opname_parser("bad,name32:").is_err());
}

#[test]
fn test_expr() {
    assert_eq!(number("0"), one("0").unwrap());
    assert_eq!(text("Hello, World!"), one(r#""Hello, World!""#).unwrap());
    assert_eq!(word("test_op"), one("test_op").unwrap());
}

#[test]
fn test_block() {
    let block = vec![number("1"), number("3"), number("4")];
    assert_eq!(block, block_parser(r#"{1,3,4}"#).unwrap());
    assert!(num_parser(r#"{ 1,3}"#).is_err());
}

#[test]
fn a_program_is_expressions_between_white_space() {
    assert_eq!(
        full_parse("  1 2\tadd\n'a b'\r\n"),
        Ok(vec![number("1"), number("2"), word("add"), text("a b")])
    );
}

#[test]
fn a_block_takes_commas_and_white_space() {
    assert_eq!(
        full_parse("{ 1, 2 ,add {x} }"),
        Ok(vec![Syntax::Block(vec![
            number("1"),
            number("2"),
            word("add"),
            Syntax::Block(vec![word("x")])
        ])])
    );
    assert_eq!(full_parse("{,1,}"), Ok(vec![Syntax::Block(vec![number("1")])]));
}

#[test]
fn numbers_keep_their_written_form() {
    assert_eq!(full_parse("+5 -0.25 007"), Ok(vec![number("+5"), number("-0.25"), number("007")]));
    assert_eq!(full_parse("1."), Err(ParseErr { at: 2 }));
    assert_eq!(full_parse("-"), Err(ParseErr { at: 1 }));
    assert_eq!(full_parse("-x"), Err(ParseErr { at: 1 }));
    assert_eq!(full_parse(".5"), Err(ParseErr { at: 0 }));
    assert_eq!(full_parse("1e5"), Err(ParseErr { at: 1 }));
    assert_eq!(full_parse("1.5.2"), Err(ParseErr { at: 3 }));
}

#[test]
fn a_text_may_hold_the_other_quote() {
    assert_eq!(full_parse(r#"'say "hi"'"#), Ok(vec![text(r#"say "hi""#)]));
    assert_eq!(full_parse(r#""it's""#), Ok(vec![text("it's")]));
    assert_eq!(full_parse("''"), Ok(vec![text("")]));
    assert_eq!(full_parse("'a\nb'"), Ok(vec![text("a\nb")]));
}

#[test]
fn errors_say_where() {
    assert_eq!(full_parse(""), Err(ParseErr { at: 0 }));
    assert_eq!(full_parse("   "), Err(ParseErr { at: 3 }));
    assert_eq!(full_parse("1 'abc"), Err(ParseErr { at: 2 }));
    assert_eq!(full_parse("{}"), Err(ParseErr { at: 1 }));
    assert_eq!(full_parse("{ }"), Err(ParseErr { at: 2 }));
    assert_eq!(full_parse("{1 2"), Err(ParseErr { at: 4 }));
    assert_eq!(full_parse("1 }"), Err(ParseErr { at: 2 }));
    assert_eq!(full_parse("1,2"), Err(ParseErr { at: 1 }));
    assert_eq!(full_parse("ab1"), Err(ParseErr { at: 2 }));
    assert_eq!(full_parse("a 'b'c"), Err(ParseErr { at: 5 }));
    assert_eq!(full_parse("{1}{2}"), Err(ParseErr { at: 3 }));
    assert_eq!(full_parse("a $"), Err(ParseErr { at: 2 }));
    assert_eq!(full_parse("é 1 ?"), Err(ParseErr { at: 4 }));
}

#[test]
fn words_are_letters_and_underscores() {
    assert_eq!(full_parse("_x été"), Ok(vec![word("_x"), word("été")]));
    assert!(Class::Letter.test('é'));
    assert!(Class::Letter.test('_'));
    assert!(!Class::Letter.test('1'));
    assert!(!Class::Letter.test('-'));
}

#[test]
fn classes_of_characters() {
    for c in [' ', '\t', '\n', '\r'] {
        assert!(Class::Space.test(c));
        assert!(Class::SpaceOrComma.test(c));
    }
    assert!(!Class::Space.test(','));
    assert!(Class::SpaceOrComma.test(','));
    assert!(!Class::Space.test('a'));
    assert!(Class::Digit.test('0') && Class::Digit.test('9'));
    assert!(!Class::Digit.test('a') && !Class::Digit.test('/') && !Class::Digit.test(':'));
    assert!(Class::Except('x').test('y'));
    assert!(!Class::Except('x').test('x'));
}

#[test]
fn the_characters_of_a_string() {
    assert_eq!(to_chars("aé{"), vec!['a', 'é', '{']);
    assert_eq!(to_chars(""), Vec::<char>::new());
}
