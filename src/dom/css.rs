//! Selectors of style rules and how specific they are.
use vstd::prelude::*;

verus! {

/// `tag#id.class1.class2`, each part optional.
#[derive(Debug)]
pub struct SimpleSelector {
    pub tag_name: Option<String>,
    pub id: Option<String>,
    pub class: Vec<String>,
}

pub type DescendantSelector = Vec<SimpleSelector>;

#[derive(Debug)]
pub enum Selector {
    Simple(SimpleSelector),
    Descendant(DescendantSelector),
}

/// Counts of ids, classes and tag names.
pub type Specificity = (usize, usize, usize);

#[derive(Debug, Clone, Copy, PartialEq, Eq, Structural)]
pub enum Unit {
    Px,
    Em,
    Percent,
    Default,
}

pub open spec fn present(o: Option<String>) -> nat {
    if o is Some {
        1
    } else {
        0
    }
}

/// Ids, classes and tag names over a chain of simple selectors.
pub open spec fn chain_counts(s: Seq<SimpleSelector>) -> (nat, nat, nat)
    decreases s.len(),
{
    if s.len() == 0 {
        (0, 0, 0)
    } else {
        let c = chain_counts(s.drop_last());
        let l = s.last();
        (c.0 + present(l.id), c.1 + l.class@.len(), c.2 + present(l.tag_name))
    }
}

pub open spec fn specificity_of(sel: Selector) -> (nat, nat, nat) {
    match sel {
        Selector::Simple(s) => (present(s.id), s.class@.len(), present(s.tag_name)),
        Selector::Descendant(d) => chain_counts(d@),
    }
}

/// Whether each count fits in a `usize`.
pub open spec fn counts_fit(c: (nat, nat, nat)) -> bool {
    c.0 <= usize::MAX && c.1 <= usize::MAX && c.2 <= usize::MAX
}

proof fn lemma_chain_prefix(s: Seq<SimpleSelector>, i: int)
    requires
        0 <= i <= s.len(),
    ensures
        chain_counts(s.take(i)).0 <= chain_counts(s).0,
        chain_counts(s.take(i)).1 <= chain_counts(s).1,
        chain_counts(s.take(i)).2 <= chain_counts(s).2,
    decreases s.len() - i,
{
    if i < s.len() {
        lemma_chain_prefix(s, i + 1);
        assert(s.take(i + 1).drop_last() =~= s.take(i));
    } else {
        assert(s.take(i) =~= s);
    }
}

impl Selector {
    /// How many ids, classes and tag names the selector names.
    pub fn specificity(&self) -> (r: Specificity)
        requires
            counts_fit(specificity_of(*self)),
        ensures
            (r.0 as nat, r.1 as nat, r.2 as nat) == specificity_of(*self),
    {
        match self {
            Selector::Simple(simple) => {
                let a: usize = if simple.id.is_some() { 1 } else { 0 };
                let c: usize = if simple.tag_name.is_some() { 1 } else { 0 };
                (a, simple.class.len(), c)
            },
            Selector::Descendant(descendant) => {
                let mut a: usize = 0;
                let mut b: usize = 0;
                let mut c: usize = 0;
                let mut i: usize = 0;
                while i < descendant.len()
                    invariant
                        i <= descendant@.len(),
                        counts_fit(chain_counts(descendant@)),
                        (a as nat, b as nat, c as nat) == chain_counts(descendant@.take(i as int)),
                    decreases descendant@.len() - i,
                {
                    proof {
                        lemma_chain_prefix(descendant@, i + 1);
                        assert(descendant@.take(i + 1).drop_last() =~= descendant@.take(i as int));
                    }
                    let s = &descendant[i];
                    if s.id.is_some() {
                        a = a + 1;
                    }
                    b = b + s.class.len();
                    if s.tag_name.is_some() {
                        c = c + 1;
                    }
                    i = i + 1;
                }
                proof {
                    assert(descendant@.take(i as int) =~= descendant@);
                }
                (a, b, c)
            },
        }
    }
}

} // verus!
