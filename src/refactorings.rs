//! The catalog of refactorings that ship with the engine.

use crate::ast::TopLevelView;
use crate::context::{ContentRegion, EditorContext};
use crate::edit::{edits_of, Mutation};
use crate::parser::{parse, parse_spec};
use crate::script::{applies_spec, declares_metadata, directive_of, perform_spec, Script};
use vstd::prelude::*;

verus! {

/// Rewrites `a != b` as `!(a == b)`.
pub const EXTRACT_NOT_EQ: &'static str = "@id = \"extract_not_eq\";
@name = \"Extract not-equals\";
@description = \"Rewrites a != b as !(a == b)\";
let region = find(left:/[\\w_]+/ .. /\\s*/ .. \"!=\" .. /\\s*/ .. right:/[\\w_]+/);
region.replace(\"!(\" .. region.left .. \" == \" .. region.right .. \")\");
";

/// Rewrites `x == false` as `!x`.
pub const REPLACE_EQ_FALSE: &'static str = "@id = \"replace_eq_false\";
@name = \"Replace comparison with false\";
@description = \"Rewrites x == false as !x\";
let region = find(value:/[\\w_]+/ .. /\\s*/ .. \"==\" .. /\\s*/ .. \"false\");
region.replace(\"!\" .. region.value);
";

/// Rewrites `(x)` as `x`.
pub const REMOVE_SURROUNDING_PARENS: &'static str = "@id = \"remove_surrounding_parens\";
@name = \"Remove surrounding parentheses\";
@description = \"Rewrites (x) as x\";
let region = find(\"(\" .. inner:/[^()]*/ .. \")\");
region.replace(region.inner);
";

/// Rewrites `!!x` as `x`.
pub const REMOVE_DOUBLE_NOT: &'static str = "@id = \"remove_double_not\";
@name = \"Remove double negation\";
@description = \"Rewrites !!x as x\";
let region = find(\"!!\" .. value:/[\\w_]+/);
region.replace(region.value);
";

/// A refactoring that the engine offers. Each is a script.
pub enum Refactoring {
    Script(Script),
}

impl Refactoring {
    /// The items of the refactoring's script.
    pub open spec fn items(&self) -> Seq<TopLevelView> {
        match self {
            Refactoring::Script(s) => s@,
        }
    }

    pub fn applies_to(&self, context: &EditorContext) -> (r: bool)
        ensures
            r == applies_spec(self.items(), context.contents@),
    {
        match self {
            Refactoring::Script(s) => s.applies_to(context),
        }
    }

    pub fn perform(&self, context: &EditorContext) -> (r: Result<Vec<Mutation>, String>)
        ensures
            match perform_spec(self.items(), context.contents@) {
                Ok(m) => r is Ok && edits_of(r->Ok_0@) == m,
                Err(msg) => r is Err && r->Err_0@ == msg,
            },
    {
        match self {
            Refactoring::Script(s) => s.perform(context),
        }
    }

    pub fn id(&self) -> (r: String)
        requires
            declares_metadata(self.items()),
        ensures
            r@ == directive_of(self.items(), "id"@)->Some_0,
    {
        match self {
            Refactoring::Script(s) => s.id(),
        }
    }

    pub fn name(&self) -> (r: String)
        requires
            declares_metadata(self.items()),
        ensures
            r@ == directive_of(self.items(), "name"@)->Some_0,
    {
        match self {
            Refactoring::Script(s) => s.name(),
        }
    }

    pub fn description(&self) -> (r: String)
        requires
            declares_metadata(self.items()),
        ensures
            r@ == directive_of(self.items(), "description"@)->Some_0,
    {
        match self {
            Refactoring::Script(s) => s.description(),
        }
    }
}

/// The source texts of the catalog, in order.
pub open spec fn catalog() -> Seq<Seq<char>> {
    seq![EXTRACT_NOT_EQ@, REPLACE_EQ_FALSE@, REMOVE_SURROUNDING_PARENS@, REMOVE_DOUBLE_NOT@]
}

/// A source text loads when it parses and declares its metadata.
pub open spec fn loads(src: Seq<char>) -> bool {
    parse_spec(src) is Ok && declares_metadata(parse_spec(src)->Ok_0)
}

fn load(src: &str) -> (r: Result<Refactoring, String>)
    ensures
        r is Ok <==> loads(src@),
        r matches Ok(x) ==> x.items() == parse_spec(src@)->Ok_0,
{
    match parse(src) {
        Ok(s) => if s.declares_metadata() {
            Ok(Refactoring::Script(s))
        } else {
            Err("a script must declare its id, name and description".to_owned())
        },
        Err(m) => Err(m),
    }
}

/// Every refactoring of the catalog, loaded once; the first one that does
/// not load makes the whole catalog fail.
pub fn all() -> (r: Result<Vec<Refactoring>, String>)
    ensures
        r is Ok <==> forall|i: int| 0 <= i < catalog().len() ==> loads(#[trigger] catalog()[i]),
        r matches Ok(v) ==> v@.len() == catalog().len() && all_declared(v@) && forall|i: int|
            0 <= i < v@.len() ==> #[trigger] v@[i].items() == parse_spec(catalog()[i])->Ok_0,
{
    let mut v: Vec<Refactoring> = Vec::new();
    let a = match load(EXTRACT_NOT_EQ) {
        Ok(x) => x,
        Err(m) => return Err(m),
    };
    v.push(a);
    let b = match load(REPLACE_EQ_FALSE) {
        Ok(x) => x,
        Err(m) => return Err(m),
    };
    v.push(b);
    let c = match load(REMOVE_SURROUNDING_PARENS) {
        Ok(x) => x,
        Err(m) => return Err(m),
    };
    v.push(c);
    let d = match load(REMOVE_DOUBLE_NOT) {
        Ok(x) => x,
        Err(m) => return Err(m),
    };
    v.push(d);
    Ok(v)
}

/// What a suggestion shows of a refactoring.
pub struct Suggestion {
    pub name: String,
    pub description: String,
    pub id: String,
}

/// Every refactoring declares its metadata.
pub open spec fn all_declared(rs: Seq<Refactoring>) -> bool {
    forall|i: int| 0 <= i < rs.len() ==> declares_metadata(#[trigger] rs[i].items())
}

/// The metadata of a refactoring: its name, description and id.
pub open spec fn metadata(r: Refactoring) -> (Seq<char>, Seq<char>, Seq<char>) {
    (
        directive_of(r.items(), "name"@)->Some_0,
        directive_of(r.items(), "description"@)->Some_0,
        directive_of(r.items(), "id"@)->Some_0,
    )
}

/// The metadata of the refactorings that apply to the context, in order.
pub open spec fn suggestions_spec(rs: Seq<Refactoring>, ctx: Seq<ContentRegion>) -> Seq<
    (Seq<char>, Seq<char>, Seq<char>),
>
    decreases rs.len(),
{
    if rs.len() == 0 {
        Seq::empty()
    } else if applies_spec(rs.last().items(), ctx) {
        suggestions_spec(rs.drop_last(), ctx).push(metadata(rs.last()))
    } else {
        suggestions_spec(rs.drop_last(), ctx)
    }
}

pub open spec fn suggestions_view(s: Seq<Suggestion>) -> Seq<(Seq<char>, Seq<char>, Seq<char>)> {
    s.map_values(|x: Suggestion| (x.name@, x.description@, x.id@))
}

/// The refactorings that apply to the context, each as its name,
/// description and id.
pub fn suggestions_for_context(refactorings: &Vec<Refactoring>, context: &EditorContext) -> (r: Vec<
    Suggestion,
>)
    requires
        all_declared(refactorings@),
    ensures
        suggestions_view(r@) == suggestions_spec(refactorings@, context.contents@),
{
    let mut out: Vec<Suggestion> = Vec::new();
    let mut i: usize = 0;
    while i < refactorings.len()
        invariant
            i <= refactorings@.len(),
            all_declared(refactorings@),
            suggestions_view(out@) == suggestions_spec(refactorings@.take(i as int), context.contents@),
        decreases refactorings@.len() - i,
    {
        let r = &refactorings[i];
        assert(refactorings@.take(i + 1).drop_last() =~= refactorings@.take(i as int));
        assert(declares_metadata(r.items()));
        if r.applies_to(context) {
            let ghost before = out@;
            let item = Suggestion { name: r.name(), description: r.description(), id: r.id() };
            out.push(item);
            assert(suggestions_view(out@) =~= suggestions_view(before).push(
                (item.name@, item.description@, item.id@),
            ));
        }
        i = i + 1;
    }
    assert(refactorings@.take(i as int) =~= refactorings@);
    out
}

/// The first refactoring whose id is `id`.
pub open spec fn index_of(rs: Seq<Refactoring>, id: Seq<char>, i: int) -> Option<int>
    decreases rs.len() - i,
{
    if i < 0 || i >= rs.len() {
        None
    } else if directive_of(rs[i].items(), "id"@)->Some_0 == id {
        Some(i)
    } else {
        index_of(rs, id, i + 1)
    }
}

/// The position of the first refactoring whose id is `id`; `None` when
/// there is no such refactoring.
pub fn position_of(refactorings: &Vec<Refactoring>, id: &str) -> (r: Option<usize>)
    requires
        all_declared(refactorings@),
    ensures
        match index_of(refactorings@, id@, 0) {
            Some(i) => r == Some(i as usize),
            None => r is None,
        },
{
    let wanted = id.to_owned();
    let mut i: usize = 0;
    while i < refactorings.len()
        invariant
            i <= refactorings@.len(),
            wanted@ == id@,
            all_declared(refactorings@),
            index_of(refactorings@, id@, 0) == index_of(refactorings@, id@, i as int),
        decreases refactorings@.len() - i,
    {
        assert(declares_metadata(refactorings@[i as int].items()));
        if refactorings[i].id() == wanted {
            return Some(i);
        }
        i = i + 1;
    }
    None
}

} // verus!
