use stackup::{Expr, OpErr, Stack, Type, Val};

fn num(x: f64) -> Val {
    Val::Number(x.to_bits())
}

#[test]
fn a_new_stack_is_empty() {
    let mut s = Stack::new();
    assert_eq!(s.len(), 0);
    assert_eq!(s.pop(), Err(OpErr::MissingItems { expected: 1, found: 0 }));
}

#[test]
fn the_last_pushed_is_the_first_popped() {
    let mut s = Stack::new();
    s.push(num(1.0));
    s.push(Val::Text("two".to_string()));
    s.push(num(3.0));
    assert_eq!(s.len(), 3);
    assert_eq!(s.pop(), Ok(num(3.0)));
    assert_eq!(s.pop(), Ok(Val::Text("two".to_string())));
    assert_eq!(s.pop(), Ok(num(1.0)));
    assert_eq!(s.len(), 0);
}

#[test]
fn typed_pops_hand_out_what_the_value_holds() {
    let mut s = Stack::new();
    s.push(Val::Block(vec![Expr::Opname("dup".to_string())]));
    s.push(Val::Text("t".to_string()));
    s.push(num(-0.5));
    assert_eq!(s.pop_num(), Ok((-0.5f64).to_bits()));
    assert_eq!(s.pop_text(), Ok("t".to_string()));
    assert_eq!(s.pop_block(), Ok(vec![Expr::Opname("dup".to_string())]));
}

#[test]
fn typed_pops_report_the_tag_they_found() {
    let mut s = Stack::new();
    s.push(num(1.0));
    assert_eq!(
        s.pop_text(),
        Err(OpErr::TypeMismatch { expected: Type::Text, found: Type::Number })
    );
    assert_eq!(s.len(), 0);
    s.push(Val::Text("t".to_string()));
    assert_eq!(
        s.pop_block(),
        Err(OpErr::TypeMismatch { expected: Type::Block, found: Type::Text })
    );
    s.push(Val::Block(vec![Expr::Value(num(1.0))]));
    assert_eq!(
        s.pop_num(),
        Err(OpErr::TypeMismatch { expected: Type::Number, found: Type::Block })
    );
}

#[test]
fn typed_pops_on_an_empty_stack_report_underflow() {
    let mut s = Stack::new();
    assert_eq!(s.pop_num(), Err(OpErr::MissingItems { expected: 1, found: 0 }));
    assert_eq!(s.pop_text(), Err(OpErr::MissingItems { expected: 1, found: 0 }));
    assert_eq!(s.pop_block(), Err(OpErr::MissingItems { expected: 1, found: 0 }));
}

#[test]
fn the_tag_of_a_value() {
    assert_eq!(Type::from(&num(1.0)), Type::Number);
    assert_eq!(Type::from(&Val::Text(String::new())), Type::Text);
    assert_eq!(Type::from(&Val::Block(vec![Expr::Value(num(1.0))])), Type::Block);
    assert_eq!(Type::Number.name(), "Number");
    assert_eq!(Type::Text.name(), "Text");
    assert_eq!(Type::Block.name(), "Block");
}

#[test]
fn a_copy_of_a_value_is_equal_to_it() {
    let v = Val::Block(vec![
        Expr::Value(Val::Block(vec![Expr::Value(num(1.0)), Expr::Opname("x".to_string())])),
        Expr::Value(Val::Text("t".to_string())),
    ]);
    assert_eq!(v.clone(), v);
}

#[test]
fn same_compares_values_by_what_they_hold() {
    let block = |x: f64| Val::Block(vec![Expr::Value(num(x)), Expr::Opname("w".to_string())]);
    assert!(num(1.0).same(&num(1.0)));
    assert!(!num(1.0).same(&num(2.0)));
    assert!(num(0.0).same(&num(-0.0)));
    assert!(!num(f64::NAN).same(&num(f64::NAN)));
    assert!(num(0.0) == num(-0.0));
    assert!(num(f64::NAN) != num(f64::NAN));
    assert!(block(f64::NAN) != block(f64::NAN));
    assert!(block(0.0) == block(-0.0));
    assert!(Val::Text("a".to_string()).same(&Val::Text("a".to_string())));
    assert!(!Val::Text("a".to_string()).same(&Val::Text("b".to_string())));
    assert!(!Val::Text("1".to_string()).same(&num(1.0)));
    assert!(block(1.0).same(&block(1.0)));
    assert!(!block(1.0).same(&block(2.0)));
    assert!(!block(1.0).same(&Val::Block(vec![Expr::Value(num(1.0))])));
    assert!(Val::Block(vec![]).same(&Val::Block(vec![])));
    assert!(Expr::Opname("w".to_string()).same(&Expr::Opname("w".to_string())));
    assert!(!Expr::Opname("w".to_string()).same(&Expr::Opname("v".to_string())));
    assert!(!Expr::Opname("w".to_string()).same(&Expr::Value(Val::Text("w".to_string()))));
}
