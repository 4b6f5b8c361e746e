//! Recognizing key sequences (chords such as `of` or `<Tab>`) in typed input.

use crate::lex::char_vec;
use vstd::prelude::*;
use vstd::slice::{slice_subrange, slice_to_vec};

verus! {

/// Maps key sequences to actions, and keeps the input not yet consumed.
pub struct KeyboardControl<A> {
    map: Vec<(Vec<char>, A)>,
    history: Vec<char>,
}

/// `p` is a prefix of `s`.
pub open spec fn is_prefix(p: Seq<char>, s: Seq<char>) -> bool {
    p.len() <= s.len() && s.subrange(0, p.len() as int) == p
}

/// The first binding, from index `i` on, whose sequence starts the input.
pub open spec fn first_match<A>(map: Seq<(Seq<char>, A)>, h: Seq<char>, i: int) -> Option<int>
    decreases map.len() - i,
{
    if i < 0 || i >= map.len() {
        None
    } else if is_prefix(map[i].0, h) {
        Some(i)
    } else {
        first_match(map, h, i + 1)
    }
}

/// Some binding's sequence could still be completed from the input.
pub open spec fn in_progress<A>(map: Seq<(Seq<char>, A)>, h: Seq<char>) -> bool {
    exists|k: int| 0 <= k < map.len() && is_prefix(h, #[trigger] map[k].0)
}

/// What `take` returns, and the input it leaves: the action of the first
/// binding whose sequence starts the input, which that sequence consumes;
/// else nothing, while the input may still grow into a binding; else the
/// input without its first character, tried again (all of it dropped when
/// there are no bindings).
pub open spec fn take_spec<A>(map: Seq<(Seq<char>, A)>, h: Seq<char>) -> (Option<A>, Seq<char>)
    decreases h.len(),
{
    match first_match(map, h, 0) {
        Some(i) => (Some(map[i].1), h.subrange(map[i].0.len() as int, h.len() as int)),
        None => if in_progress(map, h) {
            (None, h)
        } else if map.len() == 0 || h.len() == 0 {
            (None, Seq::empty())
        } else {
            take_spec(map, h.drop_first())
        },
    }
}

pub open spec fn bindings_view<A>(m: Seq<(Vec<char>, A)>) -> Seq<(Seq<char>, A)> {
    m.map_values(|p: (Vec<char>, A)| (p.0@, p.1))
}

fn starts_with(s: &Vec<char>, p: &Vec<char>) -> (r: bool)
    ensures
        r == is_prefix(p@, s@),
{
    if p.len() > s.len() {
        return false;
    }
    let mut i: usize = 0;
    while i < p.len()
        invariant
            p@.len() <= s@.len(),
            i <= p@.len(),
            forall|k: int| 0 <= k < i ==> s@[k] == p@[k],
        decreases p@.len() - i,
    {
        if s[i] != p[i] {
            assert(s@.subrange(0, p@.len() as int)[i as int] != p@[i as int]);
            return false;
        }
        i = i + 1;
    }
    assert(s@.subrange(0, p@.len() as int) =~= p@);
    true
}

impl<A: Copy> KeyboardControl<A> {
    /// The bindings, in the order given.
    pub closed spec fn bindings(&self) -> Seq<(Seq<char>, A)> {
        bindings_view(self.map@)
    }

    /// The input not yet consumed.
    pub closed spec fn pending(&self) -> Seq<char> {
        self.history@
    }

    /// A control with these bindings of key sequences to actions, and no
    /// input yet.
    pub fn new(map: Vec<(&str, A)>) -> (r: Self)
        ensures
            r.bindings().len() == map@.len(),
            forall|i: int|
                0 <= i < map@.len() ==> #[trigger] r.bindings()[i] == (map@[i].0@, map@[i].1),
            r.pending() == Seq::<char>::empty(),
    {
        let mut bindings: Vec<(Vec<char>, A)> = Vec::new();
        let mut i: usize = 0;
        while i < map.len()
            invariant
                i <= map@.len(),
                bindings@.len() == i,
                forall|j: int|
                    0 <= j < i ==> (#[trigger] bindings@[j]).0@ == map@[j].0@ && bindings@[j].1
                        == map@[j].1,
            decreases map@.len() - i,
        {
            bindings.push((char_vec(map[i].0), map[i].1));
            i = i + 1;
        }
        KeyboardControl { map: bindings, history: Vec::new() }
    }

    fn push_chars(&mut self, text: &str)
        ensures
            final(self).map == old(self).map,
            final(self).history@ == old(self).history@ + text@,
    {
        let chars = char_vec(text);
        let ghost before = self.history@;
        let mut i: usize = 0;
        while i < chars.len()
            invariant
                i <= chars@.len(),
                chars@ == text@,
                self.map == old(self).map,
                self.history@ == before + chars@.take(i as int),
            decreases chars@.len() - i,
        {
            self.history.push(chars[i]);
            i = i + 1;
            assert(self.history@ =~= before + chars@.take(i as int));
        }
        assert(chars@.take(i as int) =~= chars@);
    }

    /// Records typed text.
    pub fn on_text(&mut self, text: &str)
        ensures
            final(self).bindings() == old(self).bindings(),
            final(self).pending() == old(self).pending() + text@,
    {
        self.push_chars(text);
    }

    /// Records a key press by the key's name. A key whose name is a single
    /// byte also arrives as text, so only longer names (`Tab`, `Enter`) are
    /// recorded, as `<name>`.
    pub fn on_key(&mut self, key: &str)
        ensures
            final(self).bindings() == old(self).bindings(),
            final(self).pending() == if key.len() > 1 {
                old(self).pending() + seq!['<'] + key@ + seq!['>']
            } else {
                old(self).pending()
            },
    {
        if key.len() > 1 {
            proof {
                reveal_strlit("<");
                reveal_strlit(">");
            }
            let ghost before = self.history@;
            self.push_chars("<");
            self.push_chars(key);
            self.push_chars(">");
            assert("<"@ =~= seq!['<']);
            assert(">"@ =~= seq!['>']);
            assert(self.history@ =~= before + seq!['<'] + key@ + seq!['>']);
        }
    }

    /// The action that the input so far completes, if any, as [`take_spec`]
    /// describes it.
    #[verifier::loop_isolation(false)]
    pub fn take(&mut self) -> (r: Option<A>)
        ensures
            final(self).bindings() == old(self).bindings(),
            (r, final(self).pending()) == take_spec(old(self).bindings(), old(self).pending()),
    {
        let ghost m = bindings_view(self.map@);
        loop
            invariant
                bindings_view(self.map@) == m,
                self.map == old(self).map,
                take_spec(m, old(self).history@) == take_spec(m, self.history@),
            decreases self.history@.len(),
        {
            let ghost h0 = self.history@;
            let mut i: usize = 0;
            while i < self.map.len()
                invariant
                    self.history@ == h0,
                    self.map == old(self).map,
                    i <= self.map@.len(),
                    bindings_view(self.map@) == m,
                    first_match(m, self.history@, 0) == first_match(m, self.history@, i as int),
                decreases self.map@.len() - i,
            {
                if starts_with(&self.history, &self.map[i].0) {
                    let n = self.map[i].0.len();
                    let rest = slice_to_vec(slice_subrange(self.history.as_slice(), n, self.history.len()));
                    self.history = rest;
                    return Some(self.map[i].1);
                }
                i = i + 1;
            }
            let mut k: usize = 0;
            let mut waiting = false;
            while k < self.map.len()
                invariant
                    self.history@ == h0,
                    self.map == old(self).map,
                    k <= self.map@.len(),
                    bindings_view(self.map@) == m,
                    waiting <==> exists|j: int| 0 <= j < k && is_prefix(self.history@, #[trigger] m[j].0),
                decreases self.map@.len() - k,
            {
                if starts_with(&self.map[k].0, &self.history) {
                    assert(is_prefix(self.history@, m[k as int].0));
                    waiting = true;
                }
                k = k + 1;
            }
            if waiting {
                return None;
            }
            if self.map.len() == 0 || self.history.len() == 0 {
                self.history.clear();
                return None;
            }
            let ghost h = self.history@;
            self.history.remove(0);
            assert(self.history@ =~= h.drop_first());
        }
    }
}

} // verus!
