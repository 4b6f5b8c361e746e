use kyber::parse;

#[test]
fn chained_dot_access() {
    parse("foo.bar.baz;").unwrap();
}

#[test]
fn method_call() {
    parse("foo.bar();").unwrap();
}

#[test]
fn no_semicolon_after_for() {
    parse("for foo in bar() {}").unwrap();
}

#[test]
fn requires_semicolon_after_expr_as_stmt() {
    parse("foo()").unwrap_err();
}
