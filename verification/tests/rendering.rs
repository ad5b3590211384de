use stackup::render::decimal_text;
use stackup::{Expr, OpErr, Piece, Stack, Type, Val};

fn t(s: &str) -> Piece {
    Piece::Text(s.to_string())
}

fn n(x: f64) -> Piece {
    Piece::Number(x.to_bits())
}

fn flat(pieces: &[Piece]) -> String {
    let mut line = String::new();
    for p in pieces {
        match p {
            Piece::Text(s) => line.push_str(s),
            Piece::Number(b) => line.push_str(&format!("{}", f64::from_bits(*b))),
        }
    }
    line
}

#[test]
fn a_number_is_one_number_piece() {
    assert_eq!(Val::Number(2.5f64.to_bits()).render(), vec![n(2.5)]);
}

#[test]
fn a_text_is_its_characters() {
    assert_eq!(Val::Text("a \"b\" {c}".to_string()).render(), vec![t("a \"b\" {c}")]);
    assert_eq!(Val::Text(String::new()).render(), vec![t("")]);
}

#[test]
fn a_block_is_a_listing() {
    let v = Val::Block(vec![
        Expr::Value(Val::Number(1.0f64.to_bits())),
        Expr::Opname("add".to_string()),
        Expr::Value(Val::Text("hi".to_string())),
        Expr::Value(Val::Block(vec![Expr::Opname("x".to_string())])),
    ]);
    assert_eq!(
        flat(&v.render()),
        "[Value(Number(1)), Opname(\"add\"), Value(Text(\"hi\")), Value(Block([Opname(\"x\")]))]"
    );
    assert_eq!(flat(&Val::Block(vec![]).render()), "[]");
    assert_eq!(
        Val::Block(vec![Expr::Value(Val::Number(7))]).render(),
        vec![t("["), t("Value("), t("Number("), Piece::Number(7), t(")"), t(")"), t("]")]
    );
}

#[test]
fn a_stack_is_shown_from_the_bottom_with_commas() {
    let mut s = Stack::new();
    assert_eq!(s.render(), vec![]);
    s.push(Val::Number(1.0f64.to_bits()));
    assert_eq!(s.render(), vec![n(1.0)]);
    s.push(Val::Text("two".to_string()));
    s.push(Val::Number(3.5f64.to_bits()));
    assert_eq!(s.render(), vec![n(1.0), t(","), t("two"), t(","), n(3.5)]);
    assert_eq!(flat(&s.render()), "1,two,3.5");
}

#[test]
fn counts_are_written_in_decimal() {
    assert_eq!(decimal_text(0), "0");
    assert_eq!(decimal_text(7), "7");
    assert_eq!(decimal_text(10), "10");
    assert_eq!(decimal_text(1234567890), "1234567890");
    assert_eq!(decimal_text(u32::MAX), "4294967295");
}

#[test]
fn errors_are_shown_in_words() {
    assert_eq!(
        flat(&OpErr::TypeMismatch { expected: Type::Number, found: Type::Text }.render()),
        "Expected a Number, found a Text"
    );
    assert_eq!(
        flat(&OpErr::MissingItems { expected: 2, found: 1 }.render()),
        "Expected at least 2 items on the stack, found 1"
    );
    assert_eq!(flat(&OpErr::UnknownOp("foo".to_string()).render()), "Operation foo not bound");
    assert_eq!(
        flat(
            &OpErr::InvalidVal {
                val: Val::Text("a b".to_string()),
                desc: "name contains invalid characters".to_string()
            }
            .render()
        ),
        "Invalid value a b, name contains invalid characters"
    );
}
