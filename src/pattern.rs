//! Resolving a pattern expression against text: the first byte range that
//! it matches, with the captures that its bindings recorded.

use crate::ast::{Expr, ExprView};
use crate::errors::{agrees, plain_failure, ErrorKind, EvalError, Failure};
use std::ops::Range;
use vstd::prelude::*;
use vstd::slice::{slice_subrange, slice_to_vec};
use vstd::utf8::encode_utf8;

verus! {

/// The first match of the regular expression `pattern` in `hay`, as a
/// half-open range of byte offsets.
pub uninterp spec fn regex_first(pattern: Seq<char>, hay: Seq<u8>) -> Option<(int, int)>;

/// Whether `pattern` compiles as a regular expression.
pub uninterp spec fn regex_valid(pattern: Seq<char>) -> bool;

/// Declares `regex::bytes::Regex`, a compiled regular expression, as an
/// opaque type: nothing is assumed of what a value of it holds.
#[verifier::external_type_specification]
#[verifier::external_body]
pub struct ExRegex(regex::bytes::Regex);

/// A compiled regular expression, with the source it was compiled from.
#[derive(Debug)]
pub struct Pattern {
    source: String,
    compiled: regex::bytes::Regex,
}

impl View for Pattern {
    type V = Seq<char>;

    /// The source text.
    closed spec fn view(&self) -> Seq<char> {
        self.source@
    }
}

/// Relies on `regex::bytes::Regex::new`: it accepts the pattern, and gives
/// the compiled form, exactly when the pattern is valid. A `Pattern` is made
/// here and nowhere else, so its compiled form always belongs to its source.
#[verifier::external_body]
pub(crate) fn compile(source: &str) -> (r: Option<Pattern>)
    ensures
        r is Some <==> regex_valid(source@),
        r matches Some(p) ==> p@ == source@,
{
    regex::bytes::Regex::new(source).ok().map(|compiled| Pattern { source: source.to_string(), compiled })
}

/// Relies on `regex::bytes::Regex::find`: the first match of the pattern,
/// whose start is at most its end and whose end is at most the haystack's
/// length (as `Match::start` and `Match::end` promise).
#[verifier::external_body]
fn regex_find(pattern: &Pattern, hay: &[u8]) -> (r: Option<(usize, usize)>)
    ensures
        match r {
            Some((s, e)) => regex_first(pattern@, hay@) == Some((s as int, e as int)) && s <= e
                <= hay@.len(),
            None => regex_first(pattern@, hay@) is None,
        },
{
    pattern.compiled.find(hay).map(|m| (m.start(), m.end()))
}

/// A named piece of matched text.
pub type Capture = (String, Vec<u8>);

/// A match: its byte range, and the captures in the order they were made.
pub struct Found {
    pub range: Range<usize>,
    pub captures: Vec<Capture>,
}

pub struct FoundView {
    pub start: int,
    pub end: int,
    pub captures: Seq<(Seq<char>, Seq<u8>)>,
}

pub open spec fn captures_view(c: Seq<Capture>) -> Seq<(Seq<char>, Seq<u8>)> {
    c.map_values(|p: Capture| (p.0@, p.1@))
}

impl View for Found {
    type V = FoundView;

    open spec fn view(&self) -> FoundView {
        FoundView {
            start: self.range.start as int,
            end: self.range.end as int,
            captures: captures_view(self.captures@),
        }
    }
}

/// `needle` occurs in `text` at offset `i`.
pub open spec fn occurs_at(text: Seq<u8>, needle: Seq<u8>, i: int) -> bool {
    0 <= i && i + needle.len() <= text.len() && text.subrange(i, i + needle.len()) == needle
}

/// The first offset at or after `k` where `needle` occurs in `text`.
pub open spec fn first_from(text: Seq<u8>, needle: Seq<u8>, k: int) -> Option<int>
    decreases text.len() + 1 - k,
{
    if k < 0 || k + needle.len() > text.len() {
        None
    } else if occurs_at(text, needle, k) {
        Some(k)
    } else {
        first_from(text, needle, k + 1)
    }
}

pub open spec fn shift(f: FoundView, k: int) -> FoundView {
    FoundView { start: f.start + k, end: f.end + k, captures: f.captures }
}

pub open spec fn shift_result(r: Result<FoundView, Failure>, k: int) -> Result<FoundView, Failure> {
    match r {
        Ok(f) => Ok(shift(f, k)),
        Err(x) => Err(x),
    }
}

pub open spec fn no_match() -> Failure {
    plain_failure(ErrorKind::NotFound)
}

/// What a pattern resolves to in `text`.
///
/// A string is found at its first occurrence and a regular expression at its
/// first match. A binding resolves as its inner pattern and records the
/// matched bytes under its name. A concatenation resolves its left side, then
/// its right side in the text after the left match; when the right match does
/// not start right there, the whole concatenation is searched again in that
/// remainder (at least one byte further on), so the two sides always match
/// side by side.
pub open spec fn resolve_spec(e: ExprView, text: Seq<u8>) -> Result<FoundView, Failure>
    decreases text.len(), e,
{
    match e {
        ExprView::StringLiteral(s) => match first_from(text, encode_utf8(s), 0) {
            Some(i) => Ok(FoundView { start: i, end: i + encode_utf8(s).len(), captures: seq![] }),
            None => Err(no_match()),
        },
        ExprView::Regex(p) => match regex_first(p, text) {
            Some((s, t)) => if 0 <= s <= t <= text.len() {
                Ok(FoundView { start: s, end: t, captures: seq![] })
            } else {
                Err(no_match())
            },
            None => Err(no_match()),
        },
        ExprView::Binding(name, inner) => match resolve_spec(*inner, text) {
            Ok(f) => if 0 <= f.start <= f.end <= text.len() {
                Ok(
                    FoundView {
                        start: f.start,
                        end: f.end,
                        captures: f.captures.push((name, text.subrange(f.start, f.end))),
                    },
                )
            } else {
                Err(no_match())
            },
            Err(x) => Err(x),
        },
        ExprView::Concatenate(l, r) => match resolve_spec(*l, text) {
            Err(x) => Err(x),
            Ok(lf) => if !(0 <= lf.end <= text.len()) {
                Err(no_match())
            } else {
                match resolve_spec(*r, text.subrange(lf.end, text.len() as int)) {
                    Err(x) => Err(x),
                    Ok(rf) => if rf.start == 0 {
                        Ok(
                            FoundView {
                                start: lf.start,
                                end: lf.end + (rf.end - rf.start),
                                captures: lf.captures + rf.captures,
                            },
                        )
                    } else {
                        let skip = if lf.end > 0 {
                            lf.end
                        } else {
                            1
                        };
                        if skip > text.len() {
                            Err(no_match())
                        } else {
                            shift_result(resolve_spec(e, text.subrange(skip, text.len() as int)), skip)
                        }
                    },
                }
            },
        },
        _ => Err(plain_failure(ErrorKind::Unsupported)),
    }
}

/// At offset `k` of `text`, the left side matches and the right side
/// matches right where the left match ends, and together they span `f`.
pub open spec fn adjacent_at(l: ExprView, r: ExprView, text: Seq<u8>, k: int, f: FoundView) -> bool {
    0 <= k <= text.len() && match resolve_spec(l, text.subrange(k, text.len() as int)) {
        Ok(lf) => 0 <= lf.end && k + lf.end <= text.len() && match resolve_spec(
            r,
            text.subrange(k + lf.end, text.len() as int),
        ) {
            Ok(rf) => rf.start == 0 && f.start == k + lf.start && f.end == k + lf.end + rf.end,
            Err(_) => false,
        },
        Err(_) => false,
    }
}

/// A concatenation only matches where its two sides match side by side:
/// whatever it matches is, at some offset of the text, a match of its left
/// side followed at once by a match of its right side.
pub proof fn lemma_concatenation_adjacent(l: ExprView, r: ExprView, text: Seq<u8>)
    requires
        resolve_spec(ExprView::Concatenate(Box::new(l), Box::new(r)), text) is Ok,
    ensures
        exists|k: int|
            #[trigger] adjacent_at(
                l,
                r,
                text,
                k,
                resolve_spec(ExprView::Concatenate(Box::new(l), Box::new(r)), text)->Ok_0,
            ),
    decreases text.len(),
{
    let e = ExprView::Concatenate(Box::new(l), Box::new(r));
    let f = resolve_spec(e, text)->Ok_0;
    let lf = resolve_spec(l, text)->Ok_0;
    let rf = resolve_spec(r, text.subrange(lf.end, text.len() as int))->Ok_0;
    assert(text.subrange(0, text.len() as int) =~= text);
    if rf.start == 0 {
        assert(adjacent_at(l, r, text, 0, f));
    } else {
        let skip = if lf.end > 0 {
            lf.end
        } else {
            1
        };
        let rest = text.subrange(skip, text.len() as int);
        lemma_concatenation_adjacent(l, r, rest);
        let g = resolve_spec(e, rest)->Ok_0;
        let k = choose|k: int| adjacent_at(l, r, rest, k, g);
        assert(rest.subrange(k, rest.len() as int) =~= text.subrange(skip + k, text.len() as int));
        let lf2 = resolve_spec(l, rest.subrange(k, rest.len() as int))->Ok_0;
        assert(rest.subrange(k + lf2.end, rest.len() as int) =~= text.subrange(
            skip + k + lf2.end,
            text.len() as int,
        ));
        assert(adjacent_at(l, r, text, skip + k, f));
    }
}

/// The offset of the first occurrence of `needle` in `text`.
pub fn find_bytes(text: &[u8], needle: &[u8]) -> (r: Option<usize>)
    ensures
        match r {
            Some(i) => first_from(text@, needle@, 0) == Some(i as int),
            None => first_from(text@, needle@, 0) is None,
        },
        r matches Some(i) ==> occurs_at(text@, needle@, i as int),
{
    if needle.len() > text.len() {
        return None;
    }
    let last = text.len() - needle.len();
    let mut i: usize = 0;
    while i <= last
        invariant
            last == text@.len() - needle@.len(),
            needle@.len() <= text@.len(),
            text@.len() <= usize::MAX,
            i <= last,
            first_from(text@, needle@, 0) == first_from(text@, needle@, i as int),
        decreases last - i,
    {
        let mut j: usize = 0;
        let mut same = true;
        while same && j < needle.len()
            invariant
                i <= last,
                last == text@.len() - needle@.len(),
                needle@.len() <= text@.len(),
                text@.len() <= usize::MAX,
                j <= needle@.len(),
                same ==> forall|k: int| 0 <= k < j ==> text@[i + k] == needle@[k],
                !same ==> !occurs_at(text@, needle@, i as int),
            decreases needle@.len() - j + (if same { 1int } else { 0 }),
        {
            if text[i + j] != needle[j] {
                same = false;
                assert(text@.subrange(i as int, i + needle@.len())[j as int] != needle@[j as int]);
            } else {
                j = j + 1;
            }
        }
        if same {
            assert(text@.subrange(i as int, i + needle@.len()) =~= needle@);
            return Some(i);
        }
        if i == last {
            return None;
        }
        i = i + 1;
    }
    None
}

/// The first match of `expr` in `text`, as [`resolve_spec`] describes it.
#[verifier::loop_isolation(false)]
pub fn resolve(expr: &Expr, text: &[u8]) -> (r: Result<Found, EvalError>)
    ensures
        agrees(r, resolve_spec(expr@, text@)),
        r matches Ok(f) ==> f.range.start <= f.range.end <= text@.len(),
    decreases expr,
{
    match expr {
        Expr::StringLiteral(s) => {
            let needle = s.as_str().as_bytes();
            match find_bytes(text, needle) {
                Some(i) => {
                    assert(text.len() == text@.len());
                    let f = Found { range: i..(i + needle.len()), captures: Vec::new() };
                    assert(f@.captures =~= seq![]);
                    Ok(f)
                },
                None => Err(EvalError::plain(ErrorKind::NotFound)),
            }
        },
        Expr::Regex(p) => match regex_find(p, text) {
            Some((s, e)) => {
                let f = Found { range: s..e, captures: Vec::new() };
                assert(f@.captures =~= seq![]);
                Ok(f)
            },
            None => Err(EvalError::plain(ErrorKind::NotFound)),
        },
        Expr::Binding(name, inner) => {
            let mut f = match resolve(inner, text) {
                Ok(f) => f,
                Err(x) => return Err(x),
            };
            let piece = slice_to_vec(slice_subrange(text, f.range.start, f.range.end));
            let ghost before = f.captures@;
            f.captures.push((name.clone(), piece));
            assert(captures_view(f.captures@) =~= captures_view(before).push(
                (name@, text@.subrange(f.range.start as int, f.range.end as int)),
            ));
            Ok(f)
        },
        Expr::Concatenate(l, r) => {
            let mut skip: usize = 0;
            assert(text@.subrange(0, text@.len() as int) =~= text@);
            assert(shift_result(resolve_spec(expr@, text@), 0) == resolve_spec(expr@, text@)) by {
                match resolve_spec(expr@, text@) {
                    Ok(f) => assert(shift(f, 0) == f),
                    Err(_) => {},
                }
            }
            loop
                invariant
                    skip <= text@.len(),
                    expr@ == ExprView::Concatenate(Box::new(l@), Box::new(r@)),
                    resolve_spec(expr@, text@) == shift_result(
                        resolve_spec(expr@, text@.subrange(skip as int, text@.len() as int)),
                        skip as int,
                    ),
                decreases text@.len() - skip,
            {
                let t = slice_subrange(text, skip, text.len());
                let lf = match resolve(l, t) {
                    Ok(f) => f,
                    Err(x) => return Err(x),
                };
                let rest = slice_subrange(t, lf.range.end, t.len());
                let rf = match resolve(r, rest) {
                    Ok(f) => f,
                    Err(x) => return Err(x),
                };
                if rf.range.start == 0 {
                    let mut captures = lf.captures;
                    let mut more = rf.captures;
                    let ghost lc = captures@;
                    let ghost rc = more@;
                    captures.append(&mut more);
                    assert(captures_view(captures@) =~= captures_view(lc) + captures_view(rc));
                    let f = Found {
                        range: (lf.range.start + skip)..(lf.range.end + rf.range.end + skip),
                        captures,
                    };
                    assert(t@ =~= text@.subrange(skip as int, text@.len() as int));
                    assert(rest@ =~= t@.subrange(lf.range.end as int, t@.len() as int));
                    return Ok(f);
                }
                let step: usize = if lf.range.end > 0 {
                    lf.range.end
                } else {
                    1
                };
                let ghost tv = t@;
                assert(tv.subrange(step as int, tv.len() as int) =~= text@.subrange(
                    skip + step,
                    text@.len() as int,
                ));
                assert(resolve_spec(expr@, text@) == shift_result(
                    resolve_spec(expr@, text@.subrange(skip + step, text@.len() as int)),
                    skip + step,
                )) by {
                    match resolve_spec(expr@, text@.subrange(skip + step, text@.len() as int)) {
                        Ok(f) => assert(shift(shift(f, step as int), skip as int) == shift(
                            f,
                            skip + step,
                        )),
                        Err(_) => {},
                    }
                }
                skip = skip + step;
            }
        },
        _ => Err(EvalError::plain(ErrorKind::Unsupported)),
    }
}

} // verus!
