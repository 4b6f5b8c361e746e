//! The syntax tree of a script, and its mathematical form.

use crate::pattern::Pattern;
use vstd::prelude::*;

verus! {

broadcast use vstd::std_specs::vec::group_vec_axioms;

/// One item at the top of a script.
#[derive(Debug)]
pub enum TopLevel {
    Import(Import),
    Directive(Directive),
    Stmt(Stmt),
}

/// `{ a, b } from "source";`
#[derive(Debug)]
pub struct Import {
    pub idents: Vec<String>,
    pub source: String,
}

/// `@name = "value";`
#[derive(Debug)]
pub struct Directive {
    pub name: String,
    pub value: String,
}

#[derive(Debug)]
pub enum Stmt {
    /// `for x in e { ... }`: parsed, never run.
    ForLoop(String, Expr, Vec<Stmt>),
    Expr(Expr),
    Assignment(String, Expr),
}

#[derive(Debug)]
pub enum Expr {
    /// `name:e`: match `e` and record what it matched under `name`.
    Binding(String, Box<Expr>),
    /// `e.field`
    DotAccess(Box<Expr>, String),
    /// `f(args)`
    FnCall(String, Vec<Expr>),
    /// `e.m(args)`
    MethodCall(Box<Expr>, String, Vec<Expr>),
    Ident(String),
    StringLiteral(String),
    /// A regular expression, compiled when the script is parsed.
    Regex(Pattern),
    /// `a .. b`
    Concatenate(Box<Expr>, Box<Expr>),
}

pub enum ExprView {
    Binding(Seq<char>, Box<ExprView>),
    DotAccess(Box<ExprView>, Seq<char>),
    FnCall(Seq<char>, Seq<ExprView>),
    MethodCall(Box<ExprView>, Seq<char>, Seq<ExprView>),
    Ident(Seq<char>),
    StringLiteral(Seq<char>),
    Regex(Seq<char>),
    Concatenate(Box<ExprView>, Box<ExprView>),
}

pub enum StmtView {
    ForLoop(Seq<char>, ExprView, Seq<StmtView>),
    Expr(ExprView),
    Assignment(Seq<char>, ExprView),
}

pub enum TopLevelView {
    Import(Seq<Seq<char>>, Seq<char>),
    Directive(Seq<char>, Seq<char>),
    Stmt(StmtView),
}

impl Expr {
    pub open spec fn view(&self) -> ExprView
        decreases self,
    {
        match self {
            Expr::Binding(n, e) => ExprView::Binding(n@, Box::new(e.view())),
            Expr::DotAccess(e, f) => ExprView::DotAccess(Box::new(e.view()), f@),
            Expr::FnCall(n, args) => ExprView::FnCall(
                n@,
                Seq::new(
                    args.len() as nat,
                    |i: int|
                        if 0 <= i < args.len() {
                            args[i].view()
                        } else {
                            ExprView::Ident(Seq::empty())
                        },
                ),
            ),
            Expr::MethodCall(e, m, args) => ExprView::MethodCall(
                Box::new(e.view()),
                m@,
                Seq::new(
                    args.len() as nat,
                    |i: int|
                        if 0 <= i < args.len() {
                            args[i].view()
                        } else {
                            ExprView::Ident(Seq::empty())
                        },
                ),
            ),
            Expr::Ident(n) => ExprView::Ident(n@),
            Expr::StringLiteral(s) => ExprView::StringLiteral(s@),
            Expr::Regex(p) => ExprView::Regex(p@),
            Expr::Concatenate(a, b) => ExprView::Concatenate(Box::new(a.view()), Box::new(b.view())),
        }
    }
}

impl Stmt {
    pub open spec fn view(&self) -> StmtView
        decreases self,
    {
        match self {
            Stmt::ForLoop(x, e, body) => StmtView::ForLoop(
                x@,
                e.view(),
                Seq::new(
                    body.len() as nat,
                    |i: int|
                        if 0 <= i < body.len() {
                            body[i].view()
                        } else {
                            StmtView::Expr(ExprView::Ident(Seq::empty()))
                        },
                ),
            ),
            Stmt::Expr(e) => StmtView::Expr(e.view()),
            Stmt::Assignment(x, e) => StmtView::Assignment(x@, e.view()),
        }
    }

    /// Whether the statement ends with a `;` of its own.
    pub fn requires_terminal(&self) -> (r: bool)
        ensures
            r == !(self.view() is ForLoop),
    {
        match self {
            Stmt::ForLoop(_, _, _) => false,
            Stmt::Expr(_) | Stmt::Assignment(_, _) => true,
        }
    }
}

pub open spec fn names_view(v: Seq<String>) -> Seq<Seq<char>> {
    v.map_values(|s: String| s@)
}

impl TopLevel {
    pub open spec fn view(&self) -> TopLevelView {
        match self {
            TopLevel::Import(i) => TopLevelView::Import(names_view(i.idents@), i.source@),
            TopLevel::Directive(d) => TopLevelView::Directive(d.name@, d.value@),
            TopLevel::Stmt(s) => TopLevelView::Stmt(s.view()),
        }
    }
}

pub open spec fn exprs_view(v: Seq<Expr>) -> Seq<ExprView> {
    v.map_values(|e: Expr| e.view())
}

pub open spec fn stmts_view(v: Seq<Stmt>) -> Seq<StmtView> {
    v.map_values(|s: Stmt| s.view())
}

pub open spec fn top_levels_view(v: Seq<TopLevel>) -> Seq<TopLevelView> {
    v.map_values(|t: TopLevel| t.view())
}

} // verus!
