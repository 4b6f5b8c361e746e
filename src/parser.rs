//! The recursive-descent parser: tokens to a script's syntax tree.
//!
//! ```text
//! Script      := TopLevel*
//! TopLevel    := Import | Directive | Stmt
//! Import      := 'import' '{' (Ident (',' Ident)* ','?)? '}' 'from' String ';'
//! Directive   := '@' Ident '=' String ';'
//! Stmt        := 'let' Ident '=' Expr ';' | 'for' Ident 'in' Expr Body | Expr ';'
//! Body        := '{' (Stmt (';' Stmt)* ';'?)? '}'
//! Expr        := Binding ('..' Binding)*
//! Binding     := (Ident ':')? FnOrDot
//! FnOrDot     := Ident '(' Args | Dot
//! Dot         := Paren ('.' Ident)* ('.' Ident '(' Args)?
//! Paren       := '(' Expr ')' | Leaf
//! Leaf        := String | Regex | Ident
//! Args        := (Expr (',' Expr)* ','?)? ')'
//! ```

use crate::ast::{
    exprs_view, names_view, stmts_view, top_levels_view, Directive, Expr, ExprView, Import, Stmt,
    StmtView, TopLevel, TopLevelView,
};
use crate::lex::{lex, lex_spec, tokens_view, Token, TokenView};
use crate::pattern::{compile, regex_valid};
use crate::script::Script;
use vstd::prelude::*;
use vstd::string::StringExecFns;

verus! {

broadcast use vstd::std_specs::vec::group_vec_axioms;

/// A parse of one construct: its value and the position after it.
pub type Parse<X> = Result<(X, int), ()>;

/// `q` is a position after `p`, within the tokens.
pub open spec fn advanced(t: Seq<TokenView>, p: int, q: int) -> bool {
    p < q <= t.len()
}

pub open spec fn at(t: Seq<TokenView>, p: int, k: TokenView) -> bool {
    0 <= p < t.len() && t[p] == k
}

pub open spec fn leaf_spec(t: Seq<TokenView>, p: int) -> Parse<ExprView> {
    if !(0 <= p < t.len()) {
        Err(())
    } else {
        match t[p] {
            TokenView::StringLiteral(s) => Ok((ExprView::StringLiteral(s), p + 1)),
            TokenView::Regex(s) => if regex_valid(s) {
                Ok((ExprView::Regex(s), p + 1))
            } else {
                Err(())
            },
            TokenView::Ident(i) => Ok((ExprView::Ident(i), p + 1)),
            _ => Err(()),
        }
    }
}

pub open spec fn expr_spec(t: Seq<TokenView>, p: int) -> Parse<ExprView>
    decreases t.len() - p, 6int,
{
    if !(0 <= p < t.len()) {
        Err(())
    } else {
        match binding_spec(t, p) {
            Ok((b, q)) => if advanced(t, p, q) {
                concat_rest_spec(t, q, b)
            } else {
                Err(())
            },
            Err(()) => Err(()),
        }
    }
}

pub open spec fn concat_rest_spec(t: Seq<TokenView>, p: int, acc: ExprView) -> Parse<ExprView>
    decreases t.len() - p, 7int,
{
    if !(0 <= p <= t.len()) {
        Err(())
    } else if at(t, p, TokenView::Concatenate) {
        match binding_spec(t, p + 1) {
            Ok((b, q)) => if advanced(t, p, q) {
                concat_rest_spec(t, q, ExprView::Concatenate(Box::new(acc), Box::new(b)))
            } else {
                Err(())
            },
            Err(()) => Err(()),
        }
    } else {
        Ok((acc, p))
    }
}

pub open spec fn binding_spec(t: Seq<TokenView>, p: int) -> Parse<ExprView>
    decreases t.len() - p, 5int,
{
    if !(0 <= p < t.len()) {
        Err(())
    } else if t[p] is Ident && at(t, p + 1, TokenView::Colon) {
        match fn_expr_spec(t, p + 2) {
            Ok((e, q)) => Ok((ExprView::Binding(t[p]->Ident_0, Box::new(e)), q)),
            Err(()) => Err(()),
        }
    } else {
        fn_expr_spec(t, p)
    }
}

pub open spec fn fn_expr_spec(t: Seq<TokenView>, p: int) -> Parse<ExprView>
    decreases t.len() - p, 4int,
{
    if !(0 <= p < t.len()) {
        Err(())
    } else if t[p] is Ident && at(t, p + 1, TokenView::OpenParen) {
        match args_spec(t, p + 2, seq![]) {
            Ok((args, q)) => Ok((ExprView::FnCall(t[p]->Ident_0, args), q)),
            Err(()) => Err(()),
        }
    } else {
        dot_spec(t, p)
    }
}

/// A list of expressions, separated by commas and closed by `)`, after the
/// expressions `acc` already read.
pub open spec fn args_spec(t: Seq<TokenView>, p: int, acc: Seq<ExprView>) -> Parse<Seq<ExprView>>
    decreases t.len() - p, 8int,
{
    if !(0 <= p < t.len()) {
        Err(())
    } else if t[p] == TokenView::CloseParen {
        Ok((acc, p + 1))
    } else {
        match expr_spec(t, p) {
            Ok((e, q)) => if !advanced(t, p, q) {
                Err(())
            } else if at(t, q, TokenView::Comma) {
                args_spec(t, q + 1, acc.push(e))
            } else if at(t, q, TokenView::CloseParen) {
                Ok((acc.push(e), q + 1))
            } else {
                Err(())
            },
            Err(()) => Err(()),
        }
    }
}

pub open spec fn dot_spec(t: Seq<TokenView>, p: int) -> Parse<ExprView>
    decreases t.len() - p, 3int,
{
    if !(0 <= p < t.len()) {
        Err(())
    } else {
        match paren_spec(t, p) {
            Ok((e, q)) => if advanced(t, p, q) {
                dot_rest_spec(t, q, e)
            } else {
                Err(())
            },
            Err(()) => Err(()),
        }
    }
}

/// Field accesses after `acc`; a method call ends the chain.
pub open spec fn dot_rest_spec(t: Seq<TokenView>, p: int, acc: ExprView) -> Parse<ExprView>
    decreases t.len() - p, 9int,
{
    if !(0 <= p <= t.len()) {
        Err(())
    } else if !at(t, p, TokenView::Period) {
        Ok((acc, p))
    } else if !(p + 1 < t.len() && t[p + 1] is Ident) {
        Err(())
    } else if at(t, p + 2, TokenView::OpenParen) {
        match args_spec(t, p + 3, seq![]) {
            Ok((args, q)) => Ok((ExprView::MethodCall(Box::new(acc), t[p + 1]->Ident_0, args), q)),
            Err(()) => Err(()),
        }
    } else {
        dot_rest_spec(t, p + 2, ExprView::DotAccess(Box::new(acc), t[p + 1]->Ident_0))
    }
}

pub open spec fn paren_spec(t: Seq<TokenView>, p: int) -> Parse<ExprView>
    decreases t.len() - p, 2int,
{
    if !(0 <= p < t.len()) {
        Err(())
    } else if t[p] == TokenView::OpenParen {
        match expr_spec(t, p + 1) {
            Ok((e, q)) => if at(t, q, TokenView::CloseParen) {
                Ok((e, q + 1))
            } else {
                Err(())
            },
            Err(()) => Err(()),
        }
    } else {
        leaf_spec(t, p)
    }
}

pub open spec fn stmt_spec(t: Seq<TokenView>, p: int) -> Parse<StmtView>
    decreases t.len() - p, 10int,
{
    if !(0 <= p < t.len()) {
        Err(())
    } else if t[p] == TokenView::Let {
        if p + 1 < t.len() && t[p + 1] is Ident && at(t, p + 2, TokenView::Equal) {
            match expr_spec(t, p + 3) {
                Ok((e, q)) => Ok((StmtView::Assignment(t[p + 1]->Ident_0, e), q)),
                Err(()) => Err(()),
            }
        } else {
            Err(())
        }
    } else if t[p] == TokenView::For {
        if p + 1 < t.len() && t[p + 1] is Ident && at(t, p + 2, TokenView::In) {
            match expr_spec(t, p + 3) {
                Ok((e, q)) => if advanced(t, p, q) && at(t, q, TokenView::OpenBrace) {
                    match stmts_spec(t, q + 1, seq![]) {
                        Ok((body, q2)) => Ok((StmtView::ForLoop(t[p + 1]->Ident_0, e, body), q2)),
                        Err(()) => Err(()),
                    }
                } else {
                    Err(())
                },
                Err(()) => Err(()),
            }
        } else {
            Err(())
        }
    } else {
        match expr_spec(t, p) {
            Ok((e, q)) => Ok((StmtView::Expr(e), q)),
            Err(()) => Err(()),
        }
    }
}

/// Statements separated by `;` and closed by `}`, after those in `acc`.
pub open spec fn stmts_spec(t: Seq<TokenView>, p: int, acc: Seq<StmtView>) -> Parse<Seq<StmtView>>
    decreases t.len() - p, 11int,
{
    if !(0 <= p < t.len()) {
        Err(())
    } else if t[p] == TokenView::CloseBrace {
        Ok((acc, p + 1))
    } else {
        match stmt_spec(t, p) {
            Ok((s, q)) => if !advanced(t, p, q) {
                Err(())
            } else if at(t, q, TokenView::SemiColon) {
                stmts_spec(t, q + 1, acc.push(s))
            } else if at(t, q, TokenView::CloseBrace) {
                Ok((acc.push(s), q + 1))
            } else {
                Err(())
            },
            Err(()) => Err(()),
        }
    }
}

/// Identifiers separated by `,` and closed by `}`, after those in `acc`.
pub open spec fn idents_spec(t: Seq<TokenView>, p: int, acc: Seq<Seq<char>>) -> Parse<Seq<Seq<char>>>
    decreases t.len() - p,
{
    if !(0 <= p < t.len()) {
        Err(())
    } else if t[p] == TokenView::CloseBrace {
        Ok((acc, p + 1))
    } else if !(t[p] is Ident) {
        Err(())
    } else if at(t, p + 1, TokenView::Comma) {
        idents_spec(t, p + 2, acc.push(t[p]->Ident_0))
    } else if at(t, p + 1, TokenView::CloseBrace) {
        Ok((acc.push(t[p]->Ident_0), p + 2))
    } else {
        Err(())
    }
}

/// An import, after its keyword.
pub open spec fn import_spec(t: Seq<TokenView>, p: int) -> Parse<TopLevelView> {
    if !at(t, p, TokenView::OpenBrace) {
        Err(())
    } else {
        match idents_spec(t, p + 1, seq![]) {
            Ok((ids, q)) => if at(t, q, TokenView::From) && q + 1 < t.len() && t[q
                + 1] is StringLiteral && at(t, q + 2, TokenView::SemiColon) {
                Ok((TopLevelView::Import(ids, t[q + 1]->StringLiteral_0), q + 3))
            } else {
                Err(())
            },
            Err(()) => Err(()),
        }
    }
}

/// A directive, after its `@`.
pub open spec fn directive_spec(t: Seq<TokenView>, p: int) -> Parse<TopLevelView> {
    if 0 <= p && p + 3 < t.len() && t[p] is Ident && t[p + 1] == TokenView::Equal
        && t[p + 2] is StringLiteral && t[p + 3] == TokenView::SemiColon {
        Ok((TopLevelView::Directive(t[p]->Ident_0, t[p + 2]->StringLiteral_0), p + 4))
    } else {
        Err(())
    }
}

pub open spec fn top_level_spec(t: Seq<TokenView>, p: int) -> Parse<TopLevelView> {
    if !(0 <= p < t.len()) {
        Err(())
    } else if t[p] == TokenView::Import {
        import_spec(t, p + 1)
    } else if t[p] == TokenView::Directive {
        directive_spec(t, p + 1)
    } else {
        match stmt_spec(t, p) {
            Ok((s, q)) => if s is ForLoop {
                Ok((TopLevelView::Stmt(s), q))
            } else if at(t, q, TokenView::SemiColon) {
                Ok((TopLevelView::Stmt(s), q + 1))
            } else {
                Err(())
            },
            Err(()) => Err(()),
        }
    }
}

/// The top-level items from position `p` to the end, after those in `acc`.
pub open spec fn script_spec(t: Seq<TokenView>, p: int, acc: Seq<TopLevelView>) -> Result<
    Seq<TopLevelView>,
    (),
>
    decreases t.len() - p,
{
    if !(0 <= p < t.len()) {
        Ok(acc)
    } else {
        match top_level_spec(t, p) {
            Ok((tl, q)) => if advanced(t, p, q) {
                script_spec(t, q, acc.push(tl))
            } else {
                Err(())
            },
            Err(()) => Err(()),
        }
    }
}

/// What parsing a source text gives: its tokens parsed as top-level items.
pub open spec fn parse_spec(s: Seq<char>) -> Result<Seq<TopLevelView>, ()> {
    match lex_spec(s) {
        Ok(t) => script_spec(t, 0, seq![]),
        Err(_) => Err(()),
    }
}

/// A token as it stands in the source.
fn token_text(t: &Token) -> String {
    match t {
        Token::Import => "import".to_owned(),
        Token::From => "from".to_owned(),
        Token::Let => "let".to_owned(),
        Token::For => "for".to_owned(),
        Token::In => "in".to_owned(),
        Token::OpenBrace => "{".to_owned(),
        Token::CloseBrace => "}".to_owned(),
        Token::OpenParen => "(".to_owned(),
        Token::CloseParen => ")".to_owned(),
        Token::Ident(s) => s.clone(),
        Token::Comma => ",".to_owned(),
        Token::SemiColon => ";".to_owned(),
        Token::Colon => ":".to_owned(),
        Token::Concatenate => "..".to_owned(),
        Token::Period => ".".to_owned(),
        Token::StringLiteral(s) => "\"".to_owned().concat(s.as_str()).concat("\""),
        Token::Regex(s) => "/".to_owned().concat(s.as_str()).concat("/"),
        Token::Directive => "@".to_owned(),
        Token::Equal => "=".to_owned(),
    }
}

/// The message of a parse error: what was expected, and the token found at
/// position `p` instead.
fn expected(what: &str, t: &Vec<Token>, p: usize) -> String {
    let found = if p < t.len() {
        "`".to_owned().concat(token_text(&t[p]).as_str()).concat("`")
    } else {
        "end of input".to_owned()
    };
    "expected ".to_owned().concat(what).concat(", found ").concat(found.as_str())
}

fn ident_at(t: &Vec<Token>, p: usize) -> (r: Option<String>)
    ensures
        match r {
            Some(n) => p < t@.len() && tokens_view(t@)[p as int] == TokenView::Ident(n@),
            None => !(p < t@.len() && tokens_view(t@)[p as int] is Ident),
        },
{
    if p < t.len() {
        match &t[p] {
            Token::Ident(n) => Some(n.clone()),
            _ => None,
        }
    } else {
        None
    }
}

fn string_at(t: &Vec<Token>, p: usize) -> (r: Option<String>)
    ensures
        match r {
            Some(n) => p < t@.len() && tokens_view(t@)[p as int] == TokenView::StringLiteral(n@),
            None => !(p < t@.len() && tokens_view(t@)[p as int] is StringLiteral),
        },
{
    if p < t.len() {
        match &t[p] {
            Token::StringLiteral(n) => Some(n.clone()),
            _ => None,
        }
    } else {
        None
    }
}

pub open spec fn expr_parsed(r: Result<(Expr, usize), String>, s: Parse<ExprView>) -> bool {
    match s {
        Ok((e, q)) => r is Ok && r->Ok_0.0@ == e && r->Ok_0.1 == q,
        Err(()) => r is Err,
    }
}

fn leaf(t: &Vec<Token>, p: usize) -> (r: Result<(Expr, usize), String>)
    ensures
        expr_parsed(r, leaf_spec(tokens_view(t@), p as int)),
{
    if p >= t.len() {
        return Err(expected("expression", t, p));
    }
    match &t[p] {
        Token::StringLiteral(s) => Ok((Expr::StringLiteral(s.clone()), p + 1)),
        Token::Regex(s) => match compile(s.as_str()) {
            Some(pattern) => Ok((Expr::Regex(pattern), p + 1)),
            None => Err("invalid regular expression".to_owned()),
        },
        Token::Ident(i) => Ok((Expr::Ident(i.clone()), p + 1)),
        _ => Err(expected("expression", t, p)),
    }
}

#[verifier::loop_isolation(false)]
fn expr(t: &Vec<Token>, p: usize) -> (r: Result<(Expr, usize), String>)
    ensures
        expr_parsed(r, expr_spec(tokens_view(t@), p as int)),
    decreases t@.len() - p, 6int,
{
    let ghost tv = tokens_view(t@);
    if p >= t.len() {
        return Err(expected("expression", t, p));
    }
    let (mut acc, mut q) = match binding(t, p) {
        Ok(x) => x,
        Err(m) => return Err(m),
    };
    if !(p < q && q <= t.len()) {
        return Err(expected("expression", t, q));
    }
    while q < t.len() && matches!(t[q], Token::Concatenate)
        invariant
            p < q <= t@.len(),
            expr_spec(tv, p as int) == concat_rest_spec(tv, q as int, acc@),
        decreases t@.len() - q,
    {
        let (b, q2) = match binding(t, q + 1) {
            Ok(x) => x,
            Err(m) => return Err(m),
        };
        if !(q < q2 && q2 <= t.len()) {
            return Err(expected("expression", t, q));
        }
        acc = Expr::Concatenate(Box::new(acc), Box::new(b));
        q = q2;
    }
    Ok((acc, q))
}

fn binding(t: &Vec<Token>, p: usize) -> (r: Result<(Expr, usize), String>)
    ensures
        expr_parsed(r, binding_spec(tokens_view(t@), p as int)),
    decreases t@.len() - p, 5int,
{
    if p >= t.len() {
        return Err(expected("expression", t, p));
    }
    if p + 1 < t.len() && matches!(t[p + 1], Token::Colon) {
        if let Some(name) = ident_at(t, p) {
            return match fn_expr(t, p + 2) {
                Ok((e, q)) => Ok((Expr::Binding(name, Box::new(e)), q)),
                Err(m) => Err(m),
            };
        }
    }
    fn_expr(t, p)
}

fn fn_expr(t: &Vec<Token>, p: usize) -> (r: Result<(Expr, usize), String>)
    ensures
        expr_parsed(r, fn_expr_spec(tokens_view(t@), p as int)),
    decreases t@.len() - p, 4int,
{
    if p >= t.len() {
        return Err(expected("expression", t, p));
    }
    if p + 1 < t.len() && matches!(t[p + 1], Token::OpenParen) {
        if let Some(name) = ident_at(t, p) {
            return match args(t, p + 2) {
                Ok((a, q)) => {
                    let e = Expr::FnCall(name, a);
                    assert(e@->FnCall_1 =~= exprs_view(a@));
                    Ok((e, q))
                },
                Err(m) => Err(m),
            };
        }
    }
    dot_access_expr(t, p)
}

/// Arguments up to and including the closing `)`.
#[verifier::loop_isolation(false)]
fn args(t: &Vec<Token>, p: usize) -> (r: Result<(Vec<Expr>, usize), String>)
    ensures
        match args_spec(tokens_view(t@), p as int, seq![]) {
            Ok((a, q)) => r is Ok && exprs_view(r->Ok_0.0@) == a && r->Ok_0.1 == q,
            Err(()) => r is Err,
        },
    decreases t@.len() - p, 8int,
{
    let ghost tv = tokens_view(t@);
    if p >= t.len() {
        return Err(expected("`)`", t, p));
    }
    let mut acc: Vec<Expr> = Vec::new();
    let mut q: usize = p;
    assert(exprs_view(acc@) =~= seq![]);
    loop
        invariant
            p <= q <= t@.len(),
            args_spec(tv, p as int, seq![]) == args_spec(tv, q as int, exprs_view(acc@)),
        decreases t@.len() - q,
    {
        if q >= t.len() {
            return Err(expected("`)`", t, q));
        }
        if matches!(t[q], Token::CloseParen) {
            return Ok((acc, q + 1));
        }
        let (e, q2) = match expr(t, q) {
            Ok(x) => x,
            Err(m) => return Err(m),
        };
        if !(q < q2 && q2 <= t.len()) {
            return Err(expected("expression", t, q));
        }
        let ghost before = acc@;
        let ghost ev = e@;
        acc.push(e);
        assert(exprs_view(acc@) =~= exprs_view(before).push(ev));
        if q2 < t.len() && matches!(t[q2], Token::Comma) {
            q = q2 + 1;
        } else if q2 < t.len() && matches!(t[q2], Token::CloseParen) {
            return Ok((acc, q2 + 1));
        } else {
            return Err(expected("`,` or `)`", t, q2));
        }
    }
}

#[verifier::loop_isolation(false)]
fn dot_access_expr(t: &Vec<Token>, p: usize) -> (r: Result<(Expr, usize), String>)
    ensures
        expr_parsed(r, dot_spec(tokens_view(t@), p as int)),
    decreases t@.len() - p, 3int,
{
    let ghost tv = tokens_view(t@);
    if p >= t.len() {
        return Err(expected("expression", t, p));
    }
    let (mut acc, mut q) = match paren_expr(t, p) {
        Ok(x) => x,
        Err(m) => return Err(m),
    };
    if !(p < q && q <= t.len()) {
        return Err(expected("expression", t, q));
    }
    while q < t.len() && matches!(t[q], Token::Period)
        invariant
            p < q <= t@.len(),
            dot_spec(tv, p as int) == dot_rest_spec(tv, q as int, acc@),
        decreases t@.len() - q,
    {
        let prop = match ident_at(t, q + 1) {
            Some(n) => n,
            None => return Err(expected("identifier", t, q + 1)),
        };
        if q + 2 < t.len() && matches!(t[q + 2], Token::OpenParen) {
            return match args(t, q + 3) {
                Ok((a, q2)) => {
                    let e = Expr::MethodCall(Box::new(acc), prop, a);
                    assert(e@->MethodCall_2 =~= exprs_view(a@));
                    Ok((e, q2))
                },
                Err(m) => Err(m),
            };
        }
        acc = Expr::DotAccess(Box::new(acc), prop);
        q = q + 2;
    }
    Ok((acc, q))
}

fn paren_expr(t: &Vec<Token>, p: usize) -> (r: Result<(Expr, usize), String>)
    ensures
        expr_parsed(r, paren_spec(tokens_view(t@), p as int)),
    decreases t@.len() - p, 2int,
{
    if p >= t.len() {
        return Err(expected("expression", t, p));
    }
    if matches!(t[p], Token::OpenParen) {
        let (e, q) = match expr(t, p + 1) {
            Ok(x) => x,
            Err(m) => return Err(m),
        };
        if q < t.len() && matches!(t[q], Token::CloseParen) {
            Ok((e, q + 1))
        } else {
            Err(expected("`)`", t, q))
        }
    } else {
        leaf(t, p)
    }
}

#[verifier::loop_isolation(false)]
fn stmt(t: &Vec<Token>, p: usize) -> (r: Result<(Stmt, usize), String>)
    ensures
        match stmt_spec(tokens_view(t@), p as int) {
            Ok((st, q)) => r is Ok && r->Ok_0.0.view() == st && r->Ok_0.1 == q,
            Err(()) => r is Err,
        },
    decreases t@.len() - p, 10int,
{
    let ghost tv = tokens_view(t@);
    if p >= t.len() {
        return Err(expected("statement", t, p));
    }
    if matches!(t[p], Token::Let) {
        let name = match ident_at(t, p + 1) {
            Some(n) => n,
            None => return Err(expected("identifier", t, p + 1)),
        };
        if !(p + 2 < t.len() && matches!(t[p + 2], Token::Equal)) {
            return Err(expected("`=`", t, p + 2));
        }
        return match expr(t, p + 3) {
            Ok((e, q)) => Ok((Stmt::Assignment(name, e), q)),
            Err(m) => Err(m),
        };
    }
    if matches!(t[p], Token::For) {
        let name = match ident_at(t, p + 1) {
            Some(n) => n,
            None => return Err(expected("identifier", t, p + 1)),
        };
        if !(p + 2 < t.len() && matches!(t[p + 2], Token::In)) {
            return Err(expected("`in`", t, p + 2));
        }
        let (e, q) = match expr(t, p + 3) {
            Ok(x) => x,
            Err(m) => return Err(m),
        };
        if !(p < q && q < t.len() && matches!(t[q], Token::OpenBrace)) {
            return Err(expected("`{`", t, q));
        }
        let mut body: Vec<Stmt> = Vec::new();
        let mut k: usize = q + 1;
        assert(stmts_view(body@) =~= seq![]);
        loop
            invariant
                q < k <= t@.len(),
                stmts_spec(tv, q + 1, seq![]) == stmts_spec(tv, k as int, stmts_view(body@)),
            decreases t@.len() - k,
        {
            if k >= t.len() {
                return Err(expected("`}`", t, k));
            }
            if matches!(t[k], Token::CloseBrace) {
                k = k + 1;
                break;
            }
            let (st, k2) = match stmt(t, k) {
                Ok(x) => x,
                Err(m) => return Err(m),
            };
            if !(k < k2 && k2 <= t.len()) {
                return Err(expected("statement", t, k));
            }
            let ghost before = body@;
            let ghost sv = st.view();
            body.push(st);
            assert(stmts_view(body@) =~= stmts_view(before).push(sv));
            if k2 < t.len() && matches!(t[k2], Token::SemiColon) {
                k = k2 + 1;
            } else if k2 < t.len() && matches!(t[k2], Token::CloseBrace) {
                k = k2 + 1;
                break;
            } else {
                return Err(expected("`;` or `}`", t, k2));
            }
        }
        let st = Stmt::ForLoop(name, e, body);
        assert(st.view()->ForLoop_2 =~= stmts_view(body@));
        return Ok((st, k));
    }
    match expr(t, p) {
        Ok((e, q)) => Ok((Stmt::Expr(e), q)),
        Err(m) => Err(m),
    }
}

#[verifier::loop_isolation(false)]
fn import(t: &Vec<Token>, p: usize) -> (r: Result<(TopLevel, usize), String>)
    ensures
        match import_spec(tokens_view(t@), p as int) {
            Ok((tl, q)) => r is Ok && r->Ok_0.0.view() == tl && r->Ok_0.1 == q,
            Err(()) => r is Err,
        },
{
    let ghost tv = tokens_view(t@);
    if !(p < t.len() && matches!(t[p], Token::OpenBrace)) {
        return Err(expected("`{`", t, p));
    }
    let mut idents: Vec<String> = Vec::new();
    let mut k: usize = p + 1;
    assert(names_view(idents@) =~= seq![]);
    loop
        invariant
            p < k <= t@.len(),
            idents_spec(tv, p + 1, seq![]) == idents_spec(tv, k as int, names_view(idents@)),
        decreases t@.len() - k,
    {
        if k >= t.len() {
            return Err(expected("`}`", t, k));
        }
        if matches!(t[k], Token::CloseBrace) {
            k = k + 1;
            break;
        }
        let name = match ident_at(t, k) {
            Some(n) => n,
            None => return Err(expected("identifier", t, k)),
        };
        let ghost before = idents@;
        let ghost nv = name@;
        idents.push(name);
        assert(names_view(idents@) =~= names_view(before).push(nv));
        if k + 1 < t.len() && matches!(t[k + 1], Token::Comma) {
            k = k + 2;
        } else if k + 1 < t.len() && matches!(t[k + 1], Token::CloseBrace) {
            k = k + 2;
            break;
        } else {
            return Err(expected("`,` or `}`", t, k + 1));
        }
    }
    if !(k < t.len() && matches!(t[k], Token::From)) {
        return Err(expected("`from`", t, k));
    }
    let source = match string_at(t, k + 1) {
        Some(s) => s,
        None => return Err(expected("string", t, k + 1)),
    };
    if !(k + 2 < t.len() && matches!(t[k + 2], Token::SemiColon)) {
        return Err(expected("`;`", t, k + 2));
    }
    Ok((TopLevel::Import(Import { idents, source }), k + 3))
}

fn directive(t: &Vec<Token>, p: usize) -> (r: Result<(TopLevel, usize), String>)
    ensures
        match directive_spec(tokens_view(t@), p as int) {
            Ok((tl, q)) => r is Ok && r->Ok_0.0.view() == tl && r->Ok_0.1 == q,
            Err(()) => r is Err,
        },
{
    if p >= t.len() {
        return Err(expected("identifier", t, p));
    }
    let name = match ident_at(t, p) {
        Some(n) => n,
        None => return Err(expected("identifier", t, p)),
    };
    if !(p + 1 < t.len() && matches!(t[p + 1], Token::Equal)) {
        return Err(expected("`=`", t, p + 1));
    }
    let value = match string_at(t, p + 2) {
        Some(s) => s,
        None => return Err(expected("string", t, p + 2)),
    };
    if !(p + 3 < t.len() && matches!(t[p + 3], Token::SemiColon)) {
        return Err(expected("`;`", t, p + 3));
    }
    Ok((TopLevel::Directive(Directive { name, value }), p + 4))
}

fn top_level(t: &Vec<Token>, p: usize) -> (r: Result<(TopLevel, usize), String>)
    ensures
        match top_level_spec(tokens_view(t@), p as int) {
            Ok((tl, q)) => r is Ok && r->Ok_0.0.view() == tl && r->Ok_0.1 == q,
            Err(()) => r is Err,
        },
{
    if p >= t.len() {
        return Err(expected("item", t, p));
    }
    if matches!(t[p], Token::Import) {
        return import(t, p + 1);
    }
    if matches!(t[p], Token::Directive) {
        return directive(t, p + 1);
    }
    let (st, q) = match stmt(t, p) {
        Ok(x) => x,
        Err(m) => return Err(m),
    };
    if !st.requires_terminal() {
        return Ok((TopLevel::Stmt(st), q));
    }
    if q < t.len() && matches!(t[q], Token::SemiColon) {
        Ok((TopLevel::Stmt(st), q + 1))
    } else {
        Err(expected("`;`", t, q))
    }
}

/// Parses a script's source text: its tokens, as [`lex`] gives them, read as
/// top-level items by the grammar at the head of this module.
#[verifier::loop_isolation(false)]
pub fn parse(s: &str) -> (r: Result<Script, String>)
    ensures
        match parse_spec(s@) {
            Ok(tls) => r is Ok && r->Ok_0@ == tls,
            Err(()) => r is Err,
        },
{
    let t = match lex(s) {
        Ok(t) => t,
        Err(m) => return Err("unrecognized input: ".to_owned().concat(m.as_str())),
    };
    let ghost tv = tokens_view(t@);
    let mut top_levels: Vec<TopLevel> = Vec::new();
    let mut p: usize = 0;
    assert(top_levels_view(top_levels@) =~= seq![]);
    while p < t.len()
        invariant
            p <= t@.len(),
            tv == tokens_view(t@),
            parse_spec(s@) == script_spec(tv, p as int, top_levels_view(top_levels@)),
        decreases t@.len() - p,
    {
        let (tl, q) = match top_level(&t, p) {
            Ok(x) => x,
            Err(m) => return Err(m),
        };
        if !(p < q && q <= t.len()) {
            return Err(expected("item", &t, p));
        }
        let ghost before = top_levels@;
        let ghost v = tl.view();
        top_levels.push(tl);
        assert(top_levels_view(top_levels@) =~= top_levels_view(before).push(v));
        p = q;
    }
    Ok(Script::new(top_levels))
}

} // verus!
