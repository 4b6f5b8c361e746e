//! Running a parsed script against an editor context.

use crate::ast::{top_levels_view, Expr, ExprView, Stmt, StmtView, TopLevel, TopLevelView};
use crate::context::{
    buffer_of, logical_buffer, overlap_holds, overlaps, selected, selection_of, ContentRegion,
    EditorContext,
};
use crate::edit::{edits_of, replace_range, replacement, synthesize, Edit, Mutation};
use crate::errors::{agrees, failure, plain_failure, ErrorKind, EvalError, Failure};
use crate::pattern::{
    captures_view, no_match, resolve, resolve_spec, shift, Capture, Found, FoundView,
};
use std::ops::Range;
use vstd::prelude::*;
use vstd::string::StringExecFns;
use vstd::slice::{slice_subrange, slice_to_vec};
use vstd::utf8::{decode_utf8, encode_utf8, encode_utf8_decode_utf8, valid_utf8};

verus! {

/// Relies on `String::from_utf8`: it succeeds exactly when the bytes are
/// UTF-8, and then gives the string whose bytes they are.
#[verifier::external_body]
fn text_from_bytes(bytes: Vec<u8>) -> (r: Option<String>)
    ensures
        r is Some <==> valid_utf8(bytes@),
        r matches Some(s) ==> encode_utf8(s@) == bytes@,
{
    String::from_utf8(bytes).ok()
}

/// A value that an expression evaluates to.
pub enum Value {
    /// A match of `find`, with its captures.
    Range(Found),
    /// The edits of a `replace`.
    Mutations(Vec<Mutation>),
    Text(String),
}

pub enum ValueView {
    Range(FoundView),
    Mutations(Seq<Edit>),
    Text(Seq<char>),
}

impl View for Value {
    type V = ValueView;

    open spec fn view(&self) -> ValueView {
        match self {
            Value::Range(f) => ValueView::Range(f@),
            Value::Mutations(m) => ValueView::Mutations(edits_of(m@)),
            Value::Text(s) => ValueView::Text(s@),
        }
    }
}

/// The names in scope, in the order they were bound.
pub type Scope = Vec<(String, Value)>;

pub open spec fn scope_view(s: Seq<(String, Value)>) -> Seq<(Seq<char>, ValueView)> {
    s.map_values(|p: (String, Value)| (p.0@, p.1@))
}

/// The value last bound to `k`.
pub open spec fn lookup<V>(s: Seq<(Seq<char>, V)>, k: Seq<char>) -> Option<V>
    decreases s.len(),
{
    if s.len() == 0 {
        None
    } else if s.last().0 == k {
        Some(s.last().1)
    } else {
        lookup(s.drop_last(), k)
    }
}

/// The logical buffer of a context and its selection, computed once.
pub struct Document {
    pub buffer: Vec<u8>,
    pub selection: Range<usize>,
}

impl Document {
    pub open spec fn sel(&self) -> (int, int) {
        (self.selection.start as int, self.selection.end as int)
    }

    pub fn of(context: &EditorContext) -> (r: Document)
        ensures
            r.buffer@ == buffer_of(context.contents@),
            r.sel() == selection_of(context.contents@),
    {
        let buffer = logical_buffer(context.contents_ref());
        assert(buffer.len() == buffer@.len());
        let selection = selected(context.contents_ref());
        Document { buffer, selection }
    }
}

/// The `find` search: resolve the pattern from `offset` on; reject a match
/// that starts after the selection ends; accept one that overlaps the
/// selection; otherwise search again from the end of the rejected match (one
/// byte further when that match was empty).
pub open spec fn search(p: ExprView, buf: Seq<u8>, sel: (int, int), offset: int) -> Result<
    FoundView,
    Failure,
>
    decreases buf.len() + 1 - offset,
{
    if !(0 <= offset <= buf.len()) {
        Err(no_match())
    } else {
        match resolve_spec(p, buf.subrange(offset, buf.len() as int)) {
            Err(x) => Err(x),
            Ok(f) => {
                let m = shift(f, offset);
                if m.start > sel.1 {
                    Err(no_match())
                } else if overlap_holds((m.start, m.end), sel) {
                    Ok(m)
                } else {
                    let next = if m.end > offset {
                        m.end
                    } else {
                        offset + 1
                    };
                    if next > buf.len() {
                        Err(no_match())
                    } else {
                        search(p, buf, sel, next)
                    }
                }
            },
        }
    }
}

/// A match that `find` accepts overlaps the selection, so a replacement of
/// it can always be anchored at the cursor.
pub proof fn lemma_found_is_anchored(p: ExprView, buf: Seq<u8>, sel: (int, int), offset: int)
    requires
        search(p, buf, sel, offset) is Ok,
    ensures
        overlap_holds(
            (search(p, buf, sel, offset)->Ok_0.start, search(p, buf, sel, offset)->Ok_0.end),
            sel,
        ),
        synthesize(
            (search(p, buf, sel, offset)->Ok_0.start, search(p, buf, sel, offset)->Ok_0.end),
            sel,
        ) is Some,
    decreases buf.len() + 1 - offset,
{
    let f = resolve_spec(p, buf.subrange(offset, buf.len() as int))->Ok_0;
    let m = shift(f, offset);
    if !overlap_holds((m.start, m.end), sel) {
        let next = if m.end > offset {
            m.end
        } else {
            offset + 1
        };
        lemma_found_is_anchored(p, buf, sel, next);
    }
}

/// What an expression evaluates to, given the scope, the logical buffer and
/// the selection.
pub open spec fn eval_spec(
    e: ExprView,
    scope: Seq<(Seq<char>, ValueView)>,
    buf: Seq<u8>,
    sel: (int, int),
) -> Result<ValueView, Failure>
    decreases e,
{
    match e {
        ExprView::MethodCall(obj, method, args) => match eval_spec(*obj, scope, buf, sel) {
            Err(x) => Err(x),
            Ok(v) => if method != "replace"@ {
                Err(failure(ErrorKind::UnknownMethod, method))
            } else {
                match v {
                    ValueView::Range(f) => if args.len() == 0 {
                        Err(failure(ErrorKind::MissingArgument, method))
                    } else {
                        match eval_spec(args[0], scope, buf, sel) {
                            Err(x) => Err(x),
                            Ok(ValueView::Text(t)) => match synthesize((f.start, f.end), sel) {
                                Some((d, b)) => Ok(ValueView::Mutations(replacement(d, b, t))),
                                None => Err(plain_failure(ErrorKind::Unanchored)),
                            },
                            Ok(_) => Err(plain_failure(ErrorKind::WrongOperand)),
                        }
                    },
                    _ => Err(plain_failure(ErrorKind::WrongOperand)),
                }
            },
        },
        ExprView::FnCall(func, args) => if func != "find"@ {
            Err(failure(ErrorKind::UnknownFunction, func))
        } else if args.len() == 0 {
            Err(failure(ErrorKind::MissingArgument, func))
        } else {
            match search(args[0], buf, sel, 0) {
                Ok(m) => Ok(ValueView::Range(m)),
                Err(x) => Err(x),
            }
        },
        ExprView::Ident(name) => match lookup(scope, name) {
            Some(v) => Ok(v),
            None => Err(failure(ErrorKind::UnknownVariable, name)),
        },
        ExprView::StringLiteral(s) => Ok(ValueView::Text(s)),
        ExprView::Concatenate(l, r) => match eval_spec(*l, scope, buf, sel) {
            Err(x) => Err(x),
            Ok(a) => match eval_spec(*r, scope, buf, sel) {
                Err(x) => Err(x),
                Ok(b) => match (a, b) {
                    (ValueView::Text(x), ValueView::Text(y)) => Ok(ValueView::Text(x + y)),
                    _ => Err(plain_failure(ErrorKind::WrongOperand)),
                },
            },
        },
        ExprView::DotAccess(obj, field) => match eval_spec(*obj, scope, buf, sel) {
            Err(x) => Err(x),
            Ok(ValueView::Range(f)) => match lookup(f.captures, field) {
                Some(b) => if valid_utf8(b) {
                    Ok(ValueView::Text(decode_utf8(b)))
                } else {
                    Err(plain_failure(ErrorKind::NotText))
                },
                None => Err(failure(ErrorKind::MissingCapture, field)),
            },
            Ok(_) => Err(plain_failure(ErrorKind::WrongOperand)),
        },
        _ => Err(plain_failure(ErrorKind::Unsupported)),
    }
}

/// Runs the top-level items from index `i` on, with the scope and the edits
/// gathered so far.
pub open spec fn run(
    tls: Seq<TopLevelView>,
    buf: Seq<u8>,
    sel: (int, int),
    i: int,
    scope: Seq<(Seq<char>, ValueView)>,
    out: Seq<Edit>,
) -> Result<Seq<Edit>, Failure>
    decreases tls.len() - i,
{
    if i < 0 || i >= tls.len() {
        Ok(out)
    } else {
        match tls[i] {
            TopLevelView::Stmt(StmtView::Assignment(x, e)) => match eval_spec(e, scope, buf, sel) {
                Ok(v) => run(tls, buf, sel, i + 1, scope.push((x, v)), out),
                Err(f) => Err(f),
            },
            TopLevelView::Stmt(StmtView::Expr(e)) => match eval_spec(e, scope, buf, sel) {
                Ok(ValueView::Mutations(m)) => run(tls, buf, sel, i + 1, scope, out + m),
                Ok(_) => run(tls, buf, sel, i + 1, scope, out),
                Err(f) => Err(f),
            },
            TopLevelView::Directive(_, _) => run(tls, buf, sel, i + 1, scope, out),
            _ => Err(plain_failure(ErrorKind::Unsupported)),
        }
    }
}

/// The outcome of running a script against a context: all the edits that its
/// statements emit, in order, or the first failure.
pub open spec fn exec_spec(tls: Seq<TopLevelView>, ctx: Seq<ContentRegion>) -> Result<Seq<Edit>, Failure> {
    run(tls, buffer_of(ctx), selection_of(ctx), 0, Seq::empty(), Seq::empty())
}

fn copy_captures(c: &Vec<Capture>) -> (r: Vec<Capture>)
    ensures
        captures_view(r@) == captures_view(c@),
{
    let mut out: Vec<Capture> = Vec::new();
    let mut i: usize = 0;
    while i < c.len()
        invariant
            i <= c@.len(),
            captures_view(out@) == captures_view(c@.take(i as int)),
        decreases c@.len() - i,
    {
        let ghost before = out@;
        let item = (c[i].0.clone(), slice_to_vec(c[i].1.as_slice()));
        assert(item.0@ == c@[i as int].0@ && item.1@ == c@[i as int].1@);
        out.push(item);
        assert(captures_view(out@) =~= captures_view(before).push((item.0@, item.1@)));
        assert(captures_view(c@.take(i + 1)) =~= captures_view(c@.take(i as int)).push(
            (item.0@, item.1@),
        ));
        i = i + 1;
    }
    assert(c@.take(i as int) =~= c@);
    out
}

fn copy_mutations(m: &Vec<Mutation>) -> (r: Vec<Mutation>)
    ensures
        edits_of(r@) == edits_of(m@),
{
    let mut out: Vec<Mutation> = Vec::new();
    let mut i: usize = 0;
    while i < m.len()
        invariant
            i <= m@.len(),
            edits_of(out@) == edits_of(m@.take(i as int)),
        decreases m@.len() - i,
    {
        let next = match &m[i] {
            Mutation::Delete(n) => Mutation::Delete(*n),
            Mutation::Backspace(n) => Mutation::Backspace(*n),
            Mutation::Insert(t) => Mutation::Insert(t.clone()),
        };
        let ghost before = out@;
        assert(next@ == m@[i as int]@);
        out.push(next);
        assert(edits_of(out@) =~= edits_of(before).push(next@));
        assert(edits_of(m@.take(i + 1)) =~= edits_of(m@.take(i as int)).push(next@));
        i = i + 1;
    }
    assert(m@.take(i as int) =~= m@);
    out
}

fn copy_value(v: &Value) -> (r: Value)
    ensures
        r@ == v@,
{
    match v {
        Value::Range(f) => Value::Range(
            Found { range: f.range.start..f.range.end, captures: copy_captures(&f.captures) },
        ),
        Value::Mutations(m) => Value::Mutations(copy_mutations(m)),
        Value::Text(t) => Value::Text(t.clone()),
    }
}

/// The value last bound to `name` in the scope.
fn lookup_value<'a>(scope: &'a Scope, name: &String) -> (r: Option<&'a Value>)
    ensures
        match lookup(scope_view(scope@), name@) {
            Some(v) => r is Some && r->Some_0@ == v,
            None => r is None,
        },
{
    let mut i: usize = scope.len();
    assert(scope@.take(i as int) =~= scope@);
    while i > 0
        invariant
            i <= scope@.len(),
            lookup(scope_view(scope@), name@) == lookup(scope_view(scope@.take(i as int)), name@),
        decreases i,
    {
        assert(scope_view(scope@.take(i as int)).drop_last() =~= scope_view(
            scope@.take(i - 1),
        ));
        if scope[i - 1].0 == *name {
            return Some(&scope[i - 1].1);
        }
        i = i - 1;
    }
    None
}

/// The bytes last captured under `name`.
fn lookup_capture<'a>(captures: &'a Vec<Capture>, name: &String) -> (r: Option<&'a Vec<u8>>)
    ensures
        match lookup(captures_view(captures@), name@) {
            Some(b) => r is Some && r->Some_0@ == b,
            None => r is None,
        },
{
    let mut i: usize = captures.len();
    assert(captures@.take(i as int) =~= captures@);
    while i > 0
        invariant
            i <= captures@.len(),
            lookup(captures_view(captures@), name@) == lookup(
                captures_view(captures@.take(i as int)),
                name@,
            ),
        decreases i,
    {
        assert(captures_view(captures@.take(i as int)).drop_last() =~= captures_view(
            captures@.take(i - 1),
        ));
        if captures[i - 1].0 == *name {
            return Some(&captures[i - 1].1);
        }
        i = i - 1;
    }
    None
}

/// The match of `pattern` that `find` accepts, as [`search`] describes it.
#[verifier::loop_isolation(false)]
pub fn find_in(pattern: &Expr, doc: &Document) -> (r: Result<Found, EvalError>)
    ensures
        agrees(r, search(pattern@, doc.buffer@, doc.sel(), 0)),
{
    let buf = doc.buffer.as_slice();
    let len = buf.len();
    let mut offset: usize = 0;
    loop
        invariant
            offset <= len,
            len == buf@.len(),
            buf@ == doc.buffer@,
            search(pattern@, buf@, doc.sel(), 0) == search(pattern@, buf@, doc.sel(), offset as int),
        decreases len + 1 - offset,
    {
        let t = slice_subrange(buf, offset, len);
        let f = match resolve(pattern, t) {
            Ok(f) => f,
            Err(x) => return Err(x),
        };
        let start = f.range.start + offset;
        let end = f.range.end + offset;
        if start > doc.selection.end {
            return Err(EvalError::plain(ErrorKind::NotFound));
        }
        let candidate = start..end;
        if overlaps(&candidate, &doc.selection) {
            return Ok(Found { range: candidate, captures: f.captures });
        }
        let next = if end > offset {
            end
        } else if offset < len {
            offset + 1
        } else {
            return Err(EvalError::plain(ErrorKind::NotFound));
        };
        offset = next;
    }
}

/// The first directive named `name`, from index `i` on.
pub open spec fn directive_from(tls: Seq<TopLevelView>, name: Seq<char>, i: int) -> Option<Seq<char>>
    decreases tls.len() - i,
{
    if i < 0 || i >= tls.len() {
        None
    } else {
        match tls[i] {
            TopLevelView::Directive(n, v) => if n == name {
                Some(v)
            } else {
                directive_from(tls, name, i + 1)
            },
            _ => directive_from(tls, name, i + 1),
        }
    }
}

/// The value of the first directive named `name`.
pub open spec fn directive_of(tls: Seq<TopLevelView>, name: Seq<char>) -> Option<Seq<char>> {
    directive_from(tls, name, 0)
}

/// The script declares the directives `id`, `name` and `description`.
pub open spec fn declares_metadata(tls: Seq<TopLevelView>) -> bool {
    &&& directive_of(tls, "id"@) is Some
    &&& directive_of(tls, "name"@) is Some
    &&& directive_of(tls, "description"@) is Some
}

/// The text of a failure, as `perform` reports it.
pub open spec fn message_of(f: Failure) -> Seq<char> {
    let prefix = match f.kind {
        ErrorKind::UnknownVariable => "unknown variable "@,
        ErrorKind::UnknownFunction => "unknown function "@,
        ErrorKind::UnknownMethod => "unknown method "@,
        ErrorKind::MissingCapture => "region does not have binding "@,
        ErrorKind::MissingArgument => "too few arguments to "@,
        ErrorKind::WrongOperand => "operand of the wrong kind"@,
        ErrorKind::NotFound => "not found"@,
        ErrorKind::Unsupported => "unsupported construct"@,
        ErrorKind::Unanchored => "could not mutate range"@,
        ErrorKind::NotText => "capture is not text"@,
    };
    prefix + f.subject
}

impl EvalError {
    /// The failure as text.
    pub fn message(&self) -> (r: String)
        ensures
            r@ == message_of(self@),
    {
        let prefix = match self.kind {
            ErrorKind::UnknownVariable => "unknown variable ".to_owned(),
            ErrorKind::UnknownFunction => "unknown function ".to_owned(),
            ErrorKind::UnknownMethod => "unknown method ".to_owned(),
            ErrorKind::MissingCapture => "region does not have binding ".to_owned(),
            ErrorKind::MissingArgument => "too few arguments to ".to_owned(),
            ErrorKind::WrongOperand => "operand of the wrong kind".to_owned(),
            ErrorKind::NotFound => "not found".to_owned(),
            ErrorKind::Unsupported => "unsupported construct".to_owned(),
            ErrorKind::Unanchored => "could not mutate range".to_owned(),
            ErrorKind::NotText => "capture is not text".to_owned(),
        };
        prefix.concat(self.subject.as_str())
    }
}

/// Whether a script applies to a context: running it succeeds.
pub open spec fn applies_spec(tls: Seq<TopLevelView>, ctx: Seq<ContentRegion>) -> bool {
    exec_spec(tls, ctx) is Ok
}

/// What `perform` returns: the edits of a successful run, or the failure's
/// text.
pub open spec fn perform_spec(tls: Seq<TopLevelView>, ctx: Seq<ContentRegion>) -> Result<
    Seq<Edit>,
    Seq<char>,
> {
    match exec_spec(tls, ctx) {
        Ok(m) => Ok(m),
        Err(f) => Err(message_of(f)),
    }
}

/// A run that succeeds means that the script applies, and that `perform`
/// returns exactly the edits of that run.
pub proof fn lemma_perform_agrees_with_exec(tls: Seq<TopLevelView>, ctx: Seq<ContentRegion>)
    requires
        exec_spec(tls, ctx) is Ok,
    ensures
        applies_spec(tls, ctx),
        perform_spec(tls, ctx) == Ok::<Seq<Edit>, Seq<char>>(exec_spec(tls, ctx)->Ok_0),
{
}

/// A script: its top-level items, in source order.
#[derive(Debug)]
pub struct Script {
    top_levels: Vec<TopLevel>,
}

impl View for Script {
    type V = Seq<TopLevelView>;

    closed spec fn view(&self) -> Seq<TopLevelView> {
        top_levels_view(self.top_levels@)
    }
}

impl Script {
    pub fn new(top_levels: Vec<TopLevel>) -> (r: Script)
        ensures
            r@ == top_levels_view(top_levels@),
    {
        Script { top_levels }
    }

    /// Runs the script against a context: every edit that its statements
    /// emit, in order, or the first failure.
    pub fn exec(&self, context: &EditorContext) -> (r: Result<Vec<Mutation>, EvalError>)
        ensures
            match exec_spec(self@, context.contents@) {
                Ok(m) => r is Ok && edits_of(r->Ok_0@) == m,
                Err(f) => r is Err && r->Err_0@ == f,
            },
    {
        let doc = Document::of(context);
        let mut result: Vec<Mutation> = Vec::new();
        let mut scope: Scope = Vec::new();
        let mut i: usize = 0;
        assert(scope_view(scope@) =~= Seq::empty());
        assert(edits_of(result@) =~= Seq::empty());
        while i < self.top_levels.len()
            invariant
                i <= self.top_levels@.len(),
                doc.buffer@ == buffer_of(context.contents@),
                doc.sel() == selection_of(context.contents@),
                exec_spec(self@, context.contents@) == run(
                    self@,
                    doc.buffer@,
                    doc.sel(),
                    i as int,
                    scope_view(scope@),
                    edits_of(result@),
                ),
            decreases self.top_levels@.len() - i,
        {
            assert(self@[i as int] == self.top_levels@[i as int].view());
            match &self.top_levels[i] {
                TopLevel::Stmt(Stmt::Assignment(ident, expr)) => {
                    let v = match self.eval(expr, &scope, &doc) {
                        Ok(v) => v,
                        Err(x) => return Err(x),
                    };
                    let ghost before = scope@;
                    let item = (ident.clone(), v);
                    scope.push(item);
                    assert(scope_view(scope@) =~= scope_view(before).push((item.0@, item.1@)));
                },
                TopLevel::Stmt(Stmt::Expr(e)) => {
                    match self.eval(e, &scope, &doc) {
                        Ok(Value::Mutations(m)) => {
                            let mut m = m;
                            let ghost before = result@;
                            let ghost added = m@;
                            result.append(&mut m);
                            assert(edits_of(result@) =~= edits_of(before) + edits_of(added));
                        },
                        Ok(_) => {},
                        Err(x) => return Err(x),
                    }
                },
                TopLevel::Directive(_) => {},
                _ => return Err(EvalError::plain(ErrorKind::Unsupported)),
            }
            i = i + 1;
        }
        Ok(result)
    }

    /// Whether the script applies to the context.
    pub fn applies_to(&self, context: &EditorContext) -> (r: bool)
        ensures
            r == applies_spec(self@, context.contents@),
    {
        self.exec(context).is_ok()
    }

    /// The edits that the script makes to the context, or why it cannot.
    pub fn perform(&self, context: &EditorContext) -> (r: Result<Vec<Mutation>, String>)
        ensures
            match perform_spec(self@, context.contents@) {
                Ok(m) => r is Ok && edits_of(r->Ok_0@) == m,
                Err(msg) => r is Err && r->Err_0@ == msg,
            },
    {
        match self.exec(context) {
            Ok(m) => Ok(m),
            Err(e) => Err(e.message()),
        }
    }

    /// The value of the first directive named `directive_name`.
    pub fn directive_value(&self, directive_name: &str) -> (r: Option<String>)
        ensures
            match directive_of(self@, directive_name@) {
                Some(v) => r is Some && r->Some_0@ == v,
                None => r is None,
            },
    {
        let name = directive_name.to_owned();
        let mut i: usize = 0;
        while i < self.top_levels.len()
            invariant
                i <= self.top_levels@.len(),
                name@ == directive_name@,
                directive_of(self@, directive_name@) == directive_from(
                    self@,
                    directive_name@,
                    i as int,
                ),
            decreases self.top_levels@.len() - i,
        {
            assert(self@[i as int] == self.top_levels@[i as int].view());
            if let TopLevel::Directive(d) = &self.top_levels[i] {
                if d.name == name {
                    return Some(d.value.clone());
                }
            }
            i = i + 1;
        }
        None
    }

    /// The value of the `id` directive.
    pub fn id(&self) -> (r: String)
        requires
            declares_metadata(self@),
        ensures
            r@ == directive_of(self@, "id"@)->Some_0,
    {
        match self.directive_value("id") {
            Some(v) => v,
            None => String::new(),
        }
    }

    /// The value of the `name` directive.
    pub fn name(&self) -> (r: String)
        requires
            declares_metadata(self@),
        ensures
            r@ == directive_of(self@, "name"@)->Some_0,
    {
        match self.directive_value("name") {
            Some(v) => v,
            None => String::new(),
        }
    }

    /// The value of the `description` directive.
    pub fn description(&self) -> (r: String)
        requires
            declares_metadata(self@),
        ensures
            r@ == directive_of(self@, "description"@)->Some_0,
    {
        match self.directive_value("description") {
            Some(v) => v,
            None => String::new(),
        }
    }

    /// Whether the script declares its `id`, `name` and `description`.
    pub fn declares_metadata(&self) -> (r: bool)
        ensures
            r == declares_metadata(self@),
    {
        self.directive_value("id").is_some() && self.directive_value("name").is_some()
            && self.directive_value("description").is_some()
    }

    /// Evaluates one expression.
    pub fn eval(&self, expr: &Expr, scope: &Scope, doc: &Document) -> (r: Result<Value, EvalError>)
        ensures
            agrees(r, eval_spec(expr@, scope_view(scope@), doc.buffer@, doc.sel())),
        decreases expr,
    {
        match expr {
            Expr::MethodCall(obj, method, args) => {
                let v = match self.eval(obj, scope, doc) {
                    Ok(v) => v,
                    Err(x) => return Err(x),
                };
                if *method != "replace".to_owned() {
                    return Err(EvalError::named(ErrorKind::UnknownMethod, method));
                }
                let found = match v {
                    Value::Range(f) => f,
                    _ => return Err(EvalError::plain(ErrorKind::WrongOperand)),
                };
                if args.len() == 0 {
                    return Err(EvalError::named(ErrorKind::MissingArgument, method));
                }
                let text = match self.eval(&args[0], scope, doc) {
                    Ok(Value::Text(t)) => t,
                    Ok(_) => return Err(EvalError::plain(ErrorKind::WrongOperand)),
                    Err(x) => return Err(x),
                };
                let sel = doc.selection.start..doc.selection.end;
                match replace_range(found.range, sel, text) {
                    Some(m) => Ok(Value::Mutations(m)),
                    None => Err(EvalError::plain(ErrorKind::Unanchored)),
                }
            },
            Expr::FnCall(func, args) => {
                if *func != "find".to_owned() {
                    return Err(EvalError::named(ErrorKind::UnknownFunction, func));
                }
                if args.len() == 0 {
                    return Err(EvalError::named(ErrorKind::MissingArgument, func));
                }
                match find_in(&args[0], doc) {
                    Ok(m) => Ok(Value::Range(m)),
                    Err(x) => Err(x),
                }
            },
            Expr::Ident(name) => match lookup_value(scope, name) {
                Some(v) => Ok(copy_value(v)),
                None => Err(EvalError::named(ErrorKind::UnknownVariable, name)),
            },
            Expr::StringLiteral(s) => Ok(Value::Text(s.clone())),
            Expr::Concatenate(l, r) => {
                let a = match self.eval(l, scope, doc) {
                    Ok(v) => v,
                    Err(x) => return Err(x),
                };
                let b = match self.eval(r, scope, doc) {
                    Ok(v) => v,
                    Err(x) => return Err(x),
                };
                match (a, b) {
                    (Value::Text(x), Value::Text(y)) => {
                        let joined = x.concat(y.as_str());
                        Ok(Value::Text(joined))
                    },
                    _ => Err(EvalError::plain(ErrorKind::WrongOperand)),
                }
            },
            Expr::DotAccess(obj, field) => {
                let v = match self.eval(obj, scope, doc) {
                    Ok(v) => v,
                    Err(x) => return Err(x),
                };
                let found = match v {
                    Value::Range(f) => f,
                    _ => return Err(EvalError::plain(ErrorKind::WrongOperand)),
                };
                match lookup_capture(&found.captures, field) {
                    Some(bytes) => match text_from_bytes(slice_to_vec(bytes.as_slice())) {
                        Some(t) => {
                            proof {
                                encode_utf8_decode_utf8(t@);
                            }
                            Ok(Value::Text(t))
                        },
                        None => Err(EvalError::plain(ErrorKind::NotText)),
                    },
                    None => Err(EvalError::named(ErrorKind::MissingCapture, field)),
                }
            },
            _ => Err(EvalError::plain(ErrorKind::Unsupported)),
        }
    }
}

} // verus!
