//! Sets of names.
use vstd::prelude::*;

use crate::text::{contains, mentions, same};

verus! {

/// A set of names, each held once.
pub struct NameSet {
    names: Vec<String>,
}

impl View for NameSet {
    type V = Set<Seq<char>>;

    closed spec fn view(&self) -> Set<Seq<char>> {
        Set::new(|s: Seq<char>| exists|k: int| 0 <= k < self.names@.len() && self.names@[k]@ == s)
    }
}

impl NameSet {
    #[verifier::type_invariant]
    spec fn distinct(self) -> bool {
        forall|a: int, b: int|
            0 <= a < b < self.names@.len() ==> #[trigger] self.names@[a]@
                != #[trigger] self.names@[b]@
    }

    /// The empty set.
    pub fn new() -> (r: NameSet)
        ensures
            r@ == Set::<Seq<char>>::empty(),
    {
        let r = NameSet { names: Vec::new() };
        assert(r@ =~= Set::<Seq<char>>::empty());
        r
    }

    /// Whether the set holds `name`.
    pub fn contains(&self, name: &str) -> (r: bool)
        ensures
            r == self@.contains(name@),
    {
        let mut k: usize = 0;
        while k < self.names.len()
            invariant
                k <= self.names@.len(),
                forall|j: int| 0 <= j < k ==> #[trigger] self.names@[j]@ != name@,
            decreases self.names@.len() - k,
        {
            if same(self.names[k].as_str(), name) {
                assert(self.names@[k as int]@ == name@);
                return true;
            }
            k = k + 1;
        }
        false
    }

    /// Puts `name` into the set.
    pub fn insert(&mut self, name: &str)
        ensures
            final(self)@ == old(self)@.insert(name@),
    {
        proof {
            use_type_invariant(&*self);
        }
        if self.contains(name) {
            assert(self@ =~= self@.insert(name@));
            return;
        }
        let ghost before = self.names@;
        let mut names: Vec<String> = Vec::new();
        std::mem::swap(&mut names, &mut self.names);
        names.push(name.to_owned());
        assert(forall|j: int| 0 <= j < before.len() ==> names@[j] == before[j]);
        assert(forall|j: int| 0 <= j < before.len() ==> #[trigger] before[j]@ != name@);
        self.names = names;
        assert forall|s: Seq<char>| old(self)@.insert(name@).contains(s) implies self@.contains(
            s,
        ) by {
            if s == name@ {
                assert(self.names@[before.len() as int]@ == s);
            } else {
                let k = choose|k: int| 0 <= k < before.len() && before[k]@ == s;
                assert(self.names@[k]@ == s);
            }
        }
        assert(self@ =~= old(self)@.insert(name@));
    }

    /// Whether a name of the set occurs in `text`.
    pub fn any_in(&self, text: &str) -> (r: bool)
        ensures
            r == any_mentioned(self@, text@),
    {
        let mut k: usize = 0;
        while k < self.names.len()
            invariant
                k <= self.names@.len(),
                forall|j: int| 0 <= j < k ==> !mentions(text@, #[trigger] self.names@[j]@),
            decreases self.names@.len() - k,
        {
            if contains(text, self.names[k].as_str()) {
                assert(self@.contains(self.names@[k as int]@));
                return true;
            }
            k = k + 1;
        }
        false
    }
}

/// Whether a name of the set occurs in `text`.
pub open spec fn any_mentioned(names: Set<Seq<char>>, text: Seq<char>) -> bool {
    exists|name: Seq<char>| #[trigger] names.contains(name) && mentions(text, name)
}

/// The set with one more name, where there is one.
pub open spec fn with_name(names: Set<Seq<char>>, name: Option<Seq<char>>) -> Set<Seq<char>> {
    match name {
        Some(s) => names.insert(s),
        None => names,
    }
}

/// The names that `name_of` gives for the numbers below `n`.
pub open spec fn collected(name_of: spec_fn(int) -> Option<Seq<char>>, n: int) -> Set<Seq<char>> {
    Set::new(|s: Seq<char>| exists|j: int| 0 <= j < n && #[trigger] name_of(j) == Some(s))
}

/// How the collected names grow from one number to the next.
pub proof fn lemma_collected_step(name_of: spec_fn(int) -> Option<Seq<char>>, n: int)
    requires
        n >= 0,
    ensures
        collected(name_of, n + 1) == with_name(collected(name_of, n), name_of(n)),
{
    let more = collected(name_of, n + 1);
    let less = with_name(collected(name_of, n), name_of(n));
    assert forall|s: Seq<char>| more.contains(s) implies less.contains(s) by {
        let j = choose|j: int| 0 <= j < n + 1 && #[trigger] name_of(j) == Some(s);
        if j < n {
            assert(collected(name_of, n).contains(s));
        }
    }
    assert forall|s: Seq<char>| less.contains(s) implies more.contains(s) by {
        if collected(name_of, n).contains(s) {
            let j = choose|j: int| 0 <= j < n && #[trigger] name_of(j) == Some(s);
            assert(0 <= j < n + 1);
        } else {
            assert(name_of(n) == Some(s));
        }
    }
    assert(more =~= less);
}

/// No number gives no name.
pub proof fn lemma_collected_none(name_of: spec_fn(int) -> Option<Seq<char>>)
    ensures
        collected(name_of, 0) == Set::<Seq<char>>::empty(),
{
    assert(collected(name_of, 0) =~= Set::<Seq<char>>::empty());
}

/// More names make more texts mention one of them.
pub proof fn lemma_more_names_mention_more(
    few: Set<Seq<char>>,
    many: Set<Seq<char>>,
    text: Seq<char>,
)
    requires
        few.subset_of(many),
    ensures
        any_mentioned(few, text) ==> any_mentioned(many, text),
{
    if any_mentioned(few, text) {
        let name = choose|name: Seq<char>| #[trigger]
            few.contains(name) && mentions(text, name);
        assert(many.contains(name));
    }
}

} // verus!
