//! Edit operations for a cursor-relative editor, and the synthesis of the
//! fewest of them that replace a range.

use std::ops::Range;
use vstd::prelude::*;

verus! {

/// One editing step, applied at the cursor.
#[derive(Debug, PartialEq, Eq, Clone)]
pub enum Mutation {
    /// Delete this many bytes after the cursor.
    Delete(usize),
    /// Delete this many bytes before the cursor.
    Backspace(usize),
    /// Type this text at the cursor.
    Insert(String),
}

/// The mathematical form of a [`Mutation`].
pub enum Edit {
    Delete(nat),
    Backspace(nat),
    Insert(Seq<char>),
}

impl View for Mutation {
    type V = Edit;

    open spec fn view(&self) -> Edit {
        match self {
            Mutation::Delete(n) => Edit::Delete(*n as nat),
            Mutation::Backspace(n) => Edit::Backspace(*n as nat),
            Mutation::Insert(s) => Edit::Insert(s@),
        }
    }
}

pub open spec fn edits_of(ms: Seq<Mutation>) -> Seq<Edit> {
    ms.map_values(|m: Mutation| m@)
}

/// How many forward deletes and backspaces, from the selection, remove the
/// target range; `None` when the target does not contain the selection.
pub open spec fn synthesize(target: (int, int), sel: (int, int)) -> Option<(nat, nat)> {
    if target.1 < sel.1 || sel.0 < target.0 {
        None
    } else {
        let extra: int = if sel.1 > sel.0 { 1 } else { 0 };
        Some(((target.1 - sel.1 + extra) as nat, (sel.0 - target.0) as nat))
    }
}

/// The edits that replace a range: the deletes, the backspaces, each only
/// when there is one to make, then the text.
pub open spec fn replacement(deletes: nat, backspaces: nat, text: Seq<char>) -> Seq<Edit> {
    let d = if deletes > 0 { seq![Edit::Delete(deletes)] } else { Seq::empty() };
    let b = if backspaces > 0 { seq![Edit::Backspace(backspaces)] } else { Seq::empty() };
    d + b + seq![Edit::Insert(text)]
}

/// The number of deletes and backspaces that, starting from the selection
/// `selected`, remove the range `to_delete`.
pub fn delete_range(to_delete: Range<usize>, selected: Range<usize>) -> (r: Option<(usize, usize)>)
    ensures
        match synthesize(
            (to_delete.start as int, to_delete.end as int),
            (selected.start as int, selected.end as int),
        ) {
            Some((d, b)) => r == Some((d as usize, b as usize)),
            None => r is None,
        },
{
    if to_delete.end < selected.end || selected.start < to_delete.start {
        return None;
    }
    let deletes_needed = to_delete.end - selected.end;
    let backspaces_needed = selected.start - to_delete.start;
    if selected.end > selected.start {
        Some((deletes_needed + 1, backspaces_needed))
    } else {
        Some((deletes_needed, backspaces_needed))
    }
}

/// The edits that replace the range `target`, starting from the selection
/// `sel`, by `text`; `None` when the target does not contain the selection.
pub fn replace_range(target: Range<usize>, sel: Range<usize>, text: String) -> (r: Option<Vec<Mutation>>)
    ensures
        match synthesize((target.start as int, target.end as int), (sel.start as int, sel.end as int)) {
            Some((d, b)) => r is Some && edits_of(r->Some_0@) == replacement(d, b, text@),
            None => r is None,
        },
{
    let (deletes, backspaces) = match delete_range(target, sel) {
        Some(p) => p,
        None => return None,
    };
    let mut mutations: Vec<Mutation> = Vec::new();
    if deletes > 0 {
        mutations.push(Mutation::Delete(deletes));
    }
    if backspaces > 0 {
        mutations.push(Mutation::Backspace(backspaces));
    }
    let ghost t = text@;
    mutations.push(Mutation::Insert(text));
    assert(edits_of(mutations@) =~= replacement(deletes as nat, backspaces as nat, t));
    Some(mutations)
}

} // verus!
