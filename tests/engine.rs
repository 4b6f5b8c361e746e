use kyber::{
    all, lex, parse, ContentRegion, EditorContext, ErrorKind, Mutation, Token,
};

fn unselected(text: &str) -> EditorContext {
    EditorContext {
        contents: vec![ContentRegion { text: text.to_string(), selected: false }],
    }
}

fn regions(parts: &[(&str, bool)]) -> EditorContext {
    EditorContext {
        contents: parts
            .iter()
            .map(|(t, s)| ContentRegion { text: t.to_string(), selected: *s })
            .collect(),
    }
}

#[test]
fn perform_and_applies_to_follow_exec() {
    let script = parse(r#"let region = find("t"); region.replace("r");"#).unwrap();
    for ctx in [unselected("t"), unselected("u"), regions(&[("at", false), ("", true), ("t", false)])] {
        let ran = script.exec(&ctx);
        assert_eq!(script.applies_to(&ctx), ran.is_ok());
        match ran {
            Ok(m) => assert_eq!(script.perform(&ctx).unwrap(), m),
            Err(e) => assert_eq!(script.perform(&ctx).unwrap_err(), e.message()),
        }
    }
}

#[test]
fn adjacency_of_concatenation() {
    let script = parse(r#"find(/a/ .. /b/);"#).unwrap();

    assert!(!script.applies_to(&unselected("a_b")));
    assert!(script.applies_to(&unselected("ab")));
}

#[test]
fn overlap_boundary_through_find() {
    let script = parse(r#"find("abcd");"#).unwrap();

    assert!(script.applies_to(&regions(&[("abc", false), ("", true), ("d", false)])));
    assert!(!script.applies_to(&regions(&[("abcd", false), ("", true)])));
}

#[test]
fn no_selection_end_to_end() {
    let script = parse(r#"let region = find("t"); region.replace("r");"#).unwrap();

    assert_eq!(
        script.perform(&unselected("t")).unwrap(),
        vec![Mutation::Delete(1), Mutation::Insert("r".to_string())]
    );
}

#[test]
fn capture_round_trip() {
    let script =
        parse(r#"let region = find("r" .. foo:(/\w+/)); region.replace(region.foo);"#).unwrap();

    assert_eq!(
        script.perform(&unselected("rate")).unwrap(),
        vec![Mutation::Delete(4), Mutation::Insert("ate".to_string())]
    );
}

#[test]
fn skip_ahead_scan() {
    let script = parse(r#"let region = find("r"); region.replace("t");"#).unwrap();

    assert_eq!(
        script
            .perform(&regions(&[("rrr", false), ("", true), ("r", false)]))
            .unwrap(),
        vec![Mutation::Delete(1), Mutation::Insert("t".to_string())]
    );
}

#[test]
fn backspaces_and_selection() {
    let script = parse(r#"let region = find("abcd"); region.replace("x");"#).unwrap();

    assert_eq!(
        script
            .perform(&regions(&[("a", false), ("b", true), ("cd", false)]))
            .unwrap(),
        vec![Mutation::Delete(3), Mutation::Backspace(1), Mutation::Insert("x".to_string())]
    );
}

#[test]
fn later_binding_wins() {
    let script = parse(
        r#"let a = "one"; let a = "two"; let region = find(x:"q" .. x:"r"); region.replace(a .. region.x);"#,
    )
    .unwrap();

    assert_eq!(
        script.perform(&unselected("qr")).unwrap(),
        vec![Mutation::Delete(2), Mutation::Insert("twor".to_string())]
    );
}

#[test]
fn non_ascii_text_counts_bytes() {
    let script = parse(r#"let region = find("é" .. rest:/\w/); region.replace(region.rest);"#).unwrap();

    assert_eq!(
        script.perform(&unselected("éa")).unwrap(),
        vec![Mutation::Delete(3), Mutation::Insert("a".to_string())]
    );
}

#[test]
fn unknown_variable() {
    let e = parse("x;").unwrap().exec(&unselected("a")).unwrap_err();
    assert_eq!(e.kind, ErrorKind::UnknownVariable);
    assert_eq!(e.subject, "x");
    assert_eq!(e.message(), "unknown variable x");
}

#[test]
fn unknown_function() {
    let e = parse(r#"look("a");"#).unwrap().exec(&unselected("a")).unwrap_err();
    assert_eq!(e.kind, ErrorKind::UnknownFunction);
    assert_eq!(e.subject, "look");
}

#[test]
fn unknown_method() {
    let e = parse(r#"let r = find("a"); r.swap("b");"#)
        .unwrap()
        .exec(&unselected("a"))
        .unwrap_err();
    assert_eq!(e.kind, ErrorKind::UnknownMethod);
    assert_eq!(e.subject, "swap");
}

#[test]
fn missing_capture() {
    let e = parse(r#"let r = find("a"); r.replace(r.nope);"#)
        .unwrap()
        .exec(&unselected("a"))
        .unwrap_err();
    assert_eq!(e.kind, ErrorKind::MissingCapture);
    assert_eq!(e.message(), "region does not have binding nope");
}

#[test]
fn missing_argument() {
    let e = parse("find();").unwrap().exec(&unselected("a")).unwrap_err();
    assert_eq!(e.kind, ErrorKind::MissingArgument);
}

#[test]
fn wrong_operand() {
    let e = parse(r#"let r = find("a"); r.replace(r);"#)
        .unwrap()
        .exec(&unselected("a"))
        .unwrap_err();
    assert_eq!(e.kind, ErrorKind::WrongOperand);
}

#[test]
fn not_found() {
    let e = parse(r#"find("z");"#).unwrap().exec(&unselected("a")).unwrap_err();
    assert_eq!(e.kind, ErrorKind::NotFound);
    assert_eq!(e.message(), "not found");
}

#[test]
fn unsupported_constructs() {
    let e = parse("for x in y() {}").unwrap().exec(&unselected("a")).unwrap_err();
    assert_eq!(e.kind, ErrorKind::Unsupported);
    let e = parse(r#"import { a, b } from "lib";"#)
        .unwrap()
        .exec(&unselected("a"))
        .unwrap_err();
    assert_eq!(e.kind, ErrorKind::Unsupported);
    let e = parse("find(find(\"a\"));").unwrap().exec(&unselected("a")).unwrap_err();
    assert_eq!(e.kind, ErrorKind::Unsupported);
}

#[test]
fn capture_that_is_not_text() {
    let e = parse(r#"let r = find(c:/(?-u:\xC3)/); r.replace(r.c);"#)
        .unwrap()
        .exec(&unselected("é"))
        .unwrap_err();
    assert_eq!(e.kind, ErrorKind::NotText);
}

#[test]
fn directives_are_metadata() {
    let script = parse(r#"@id = "x"; @name = "n"; @description = "d"; find("a");"#).unwrap();
    assert!(script.declares_metadata());
    assert_eq!(script.id(), "x");
    assert_eq!(script.name(), "n");
    assert_eq!(script.description(), "d");
    assert!(script.applies_to(&unselected("a")));
    assert_eq!(script.directive_value("other"), None);
    assert!(!parse(r#"@id = "x";"#).unwrap().declares_metadata());
}

#[test]
fn tokens() {
    assert_eq!(
        lex("import from let for in {}(),;: .. . \"a b\" /x+/ @ = ab_1").unwrap(),
        vec![
            Token::Import,
            Token::From,
            Token::Let,
            Token::For,
            Token::In,
            Token::OpenBrace,
            Token::CloseBrace,
            Token::OpenParen,
            Token::CloseParen,
            Token::Comma,
            Token::SemiColon,
            Token::Colon,
            Token::Concatenate,
            Token::Period,
            Token::StringLiteral("a b".to_string()),
            Token::Regex("x+".to_string()),
            Token::Directive,
            Token::Equal,
            Token::Ident("ab_1".to_string()),
        ]
    );
    assert_eq!(lex("importer").unwrap(), vec![Token::Ident("importer".to_string())]);
    assert_eq!(lex("a...b").unwrap().len(), 4);
}

#[test]
fn lexing_errors() {
    assert_eq!(lex("a $ b").unwrap_err(), "$");
    assert!(lex("\"open").is_err());
    assert!(lex("//").is_err());
    assert!(parse("let x = #;").is_err());
}

#[test]
fn parse_errors() {
    assert!(parse(r#"find(/(/);"#).is_err());
    assert!(parse("let = x;").is_err());
    assert!(parse("find(\"a\"").is_err());
    assert!(parse("@id \"x\";").is_err());
    assert!(parse("(a;").is_err());
    assert!(parse("").is_ok());
    assert!(parse("a.b().c;").is_err());
    assert!(parse("f(a, b,);").is_ok());
}

#[test]
fn catalog_loads() {
    let refactorings = all().unwrap();
    assert_eq!(refactorings.len(), 4);
    let ids: Vec<String> = refactorings.iter().map(|r| r.id()).collect();
    assert_eq!(
        ids,
        vec!["extract_not_eq", "replace_eq_false", "remove_surrounding_parens", "remove_double_not"]
    );
}

#[test]
fn catalog_rewrites() {
    let refactorings = all().unwrap();
    let ctx = regions(&[("if a ", false), ("!=", true), (" b {}", false)]);
    assert!(refactorings[0].applies_to(&ctx));
    assert_eq!(
        refactorings[0].perform(&ctx).unwrap(),
        vec![
            Mutation::Delete(3),
            Mutation::Backspace(2),
            Mutation::Insert("!(a == b)".to_string())
        ]
    );
    let ctx = regions(&[("!!", true), ("x", false)]);
    assert_eq!(
        refactorings[3].perform(&ctx).unwrap(),
        vec![Mutation::Delete(2), Mutation::Insert("x".to_string())]
    );
    assert!(!refactorings[2].applies_to(&ctx));
}

#[test]
fn suggestions_and_lookup_by_id() {
    let refactorings = all().unwrap();
    let ctx = regions(&[("x == ", false), ("false", true)]);
    let suggestions = kyber::suggestions_for_context(&refactorings, &ctx);
    assert_eq!(suggestions.len(), 1);
    assert_eq!(suggestions[0].id, "replace_eq_false");
    assert_eq!(suggestions[0].name, "Replace comparison with false");
    assert_eq!(
        refactorings[1].perform(&ctx).unwrap(),
        vec![Mutation::Delete(1), Mutation::Backspace(5), Mutation::Insert("!x".to_string())]
    );
    assert_eq!(kyber::position_of(&refactorings, "remove_double_not"), Some(3));
    assert_eq!(kyber::position_of(&refactorings, "nothing"), None);
}

#[test]
fn empty_context() {
    let script = parse(r#"find("");"#).unwrap();
    let empty = EditorContext { contents: Vec::new() };
    assert_eq!(script.exec(&empty).unwrap_err().kind, ErrorKind::NotFound);
    let script = parse(r#"find("a");"#).unwrap();
    assert!(!script.applies_to(&empty));
}

#[test]
fn empty_matches_move_the_search_on() {
    let script = parse(r#"find(/x*/);"#).unwrap();
    let e = script
        .exec(&regions(&[("a", false), ("b", true)]))
        .unwrap_err();
    assert_eq!(e.kind, ErrorKind::NotFound);
}

#[test]
fn empty_left_side_retries_one_byte_on() {
    let script = parse(r#"let r = find(/x*/ .. "b"); r.replace("c");"#).unwrap();
    assert_eq!(
        script.perform(&regions(&[("a", false), ("b", true)])).unwrap(),
        vec![Mutation::Delete(1), Mutation::Insert("c".to_string())]
    );
    assert!(!script.applies_to(&unselected("ab")));
}

#[test]
fn selection_at_the_end() {
    let script = parse(r#"let r = find("ab"); r.replace("x");"#).unwrap();
    assert_eq!(
        script.perform(&regions(&[("ab", false), ("", true)])).unwrap_err(),
        "not found"
    );
    assert_eq!(
        script.perform(&regions(&[("a", false), ("", true), ("b", false)])).unwrap(),
        vec![Mutation::Delete(1), Mutation::Backspace(1), Mutation::Insert("x".to_string())]
    );
}

#[test]
fn parse_error_messages() {
    assert_eq!(parse("let x y;").unwrap_err(), "expected `=`, found `y`");
    assert_eq!(parse("foo()").unwrap_err(), "expected `;`, found end of input");
    assert_eq!(parse("find(\"a\" \"b\");").unwrap_err(), "expected `,` or `)`, found `\"b\"`");
    assert_eq!(parse("a $").unwrap_err(), "unrecognized input: $");
}
