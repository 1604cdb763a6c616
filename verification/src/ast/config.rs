//! The root of the configuration tree.

use vstd::prelude::*;
use crate::ast::directive::{
    collect_named_mut, directives_view, filter_named, forest_size, lemma_children_view,
    lemma_view_take_ends, lemma_view_take_next, mut_refs_view, named, named_in_forest, refs_view,
    restored, tree_size, Directive, DirectiveItem, DirectiveView,
};

verus! {

/// A whole configuration: its top-level directives, in source order.
#[derive(Debug, PartialEq)]
pub struct Config {
    /// The top-level directives.
    pub directives: Vec<Directive>,
}

impl View for Config {
    type V = Seq<DirectiveView>;

    open spec fn view(&self) -> Seq<DirectiveView> {
        directives_view(self.directives@)
    }
}

/// A forest is at least as large as any of its leading parts.
pub proof fn lemma_forest_size_take(ds: Seq<DirectiveView>, i: int)
    requires
        0 <= i <= ds.len(),
    ensures
        forest_size(ds.take(i)) <= forest_size(ds),
    decreases ds.len(),
{
    if i == ds.len() {
        assert(ds.take(i) =~= ds);
    } else {
        lemma_forest_size_take(ds.drop_last(), i);
        assert(ds.drop_last().take(i) =~= ds.take(i));
    }
}

/// Taking one more tree into a forest adds that tree's size.
pub proof fn lemma_forest_size_next(ds: Seq<DirectiveView>, i: int)
    requires
        0 <= i < ds.len(),
    ensures
        forest_size(ds.take(i + 1)) == forest_size(ds.take(i)) + tree_size(ds[i]),
{
    assert(ds.take(i + 1).drop_last() =~= ds.take(i));
    assert(ds.take(i + 1).last() == ds[i]);
}

fn count_tree(d: &Directive) -> (r: usize)
    requires
        tree_size(d@) <= usize::MAX,
    ensures
        r == tree_size(d@),
    decreases d,
{
    proof {
        lemma_children_view(*d);
    }
    match &d.item {
        DirectiveItem::Simple { .. } => 1,
        DirectiveItem::Block { children, .. } => {
            let mut count: usize = 1;
            let mut i: usize = 0;
            let ghost kids = directives_view(children@);
            assert(kids.take(0) =~= Seq::<DirectiveView>::empty());
            while i < children.len()
                invariant
                    i <= children.len(),
                    d.item matches DirectiveItem::Block { children: cs, .. } && cs == children,
                    kids == directives_view(children@),
                    1 + forest_size(kids) <= usize::MAX,
                    count == 1 + forest_size(kids.take(i as int)),
                decreases children.len() - i,
            {
                proof {
                    lemma_forest_size_next(kids, i as int);
                    lemma_forest_size_take(kids, i + 1);
                }
                let sub = count_tree(&children[i]);
                count = count + sub;
                i += 1;
            }
            assert(kids.take(kids.len() as int) =~= kids);
            count
        },
    }
}

impl Config {
    /// An empty configuration.
    pub fn new() -> (r: Config)
        ensures
            r@ == Seq::<DirectiveView>::empty(),
    {
        let r = Config { directives: Vec::new() };
        assert(r@ =~= Seq::<DirectiveView>::empty());
        r
    }

    /// A configuration with the given top-level directives.
    pub fn with_directives(directives: Vec<Directive>) -> (r: Config)
        ensures
            r@ == directives_view(directives@),
            r.directives == directives,
    {
        Config { directives }
    }

    /// Appends a top-level directive.
    pub fn add_directive(&mut self, directive: Directive)
        ensures
            final(self)@ == old(self)@.push(directive@),
            final(self).directives@ == old(self).directives@.push(directive),
    {
        self.directives.push(directive);
        assert(self@ =~= old(self)@.push(directive@));
    }

    /// The top-level directives named `name`, in source order.
    pub fn find_directives<'a>(&'a self, name: &str) -> (r: Vec<&'a Directive>)
        ensures
            refs_view(r@) == named(self@, name@),
    {
        filter_named(self.directives.as_slice(), name)
    }

    /// Mutable borrows of the top-level directives named `name`, in source
    /// order. When the borrows end, each of these directives holds what its
    /// borrow was left with; the others are as they were.
    pub fn find_directives_mut<'a>(&'a mut self, name: &str) -> (r: Vec<&'a mut Directive>)
        ensures
            mut_refs_view(r@) == named(old(self)@, name@),
            final(self).directives@ == restored(
                old(self).directives@,
                name@,
                Seq::new(r@.len(), |i: int| *final(r@[i])),
            ),
    {
        let mut out: Vec<&'a mut Directive> = Vec::new();
        assert(mut_refs_view(out@) =~= Seq::<DirectiveView>::empty());
        collect_named_mut(self.directives.as_mut_slice(), name, &mut out);
        proof {
            assert(mut_refs_view(out@) =~= named(old(self)@, name@));
            assert(Seq::new((out@.len() - 0) as nat, |i: int| *final(out@[0 + i])) =~= Seq::new(
                out@.len(),
                |i: int| *final(out@[i]),
            ));
        }
        out
    }

    /// Every directive named `name` at any depth, in pre-order.
    pub fn find_directives_recursive<'a>(&'a self, name: &str) -> (r: Vec<&'a Directive>)
        ensures
            refs_view(r@) == named_in_forest(self@, name@),
    {
        let mut out: Vec<&'a Directive> = Vec::new();
        let mut i: usize = 0;
        proof {
            lemma_view_take_ends(self.directives@);
            assert(refs_view(out@) =~= named_in_forest(
                directives_view(self.directives@.take(0)),
                name@,
            ));
        }
        while i < self.directives.len()
            invariant
                i <= self.directives.len(),
                refs_view(out@) == named_in_forest(
                    directives_view(self.directives@.take(i as int)),
                    name@,
                ),
            decreases self.directives.len() - i,
        {
            let mut found = self.directives[i].find_recursive(name);
            let ghost before = refs_view(out@);
            let ghost added = refs_view(found@);
            out.append(&mut found);
            proof {
                lemma_view_take_next(self.directives@, i as int);
                let next = directives_view(self.directives@.take(i + 1));
                assert(next.drop_last() =~= directives_view(self.directives@.take(i as int)));
                assert(next.last() == self.directives@[i as int]@);
                assert(refs_view(out@) =~= before + added);
            }
            i += 1;
        }
        proof {
            lemma_view_take_ends(self.directives@);
        }
        out
    }

    /// The number of directives in the whole tree, nested ones included.
    pub fn count_directives(&self) -> (r: usize)
        requires
            forest_size(self@) <= usize::MAX,
        ensures
            r == forest_size(self@),
    {
        let mut count: usize = 0;
        let mut i: usize = 0;
        assert(self@.take(0) =~= Seq::<DirectiveView>::empty());
        while i < self.directives.len()
            invariant
                i <= self.directives.len(),
                forest_size(self@) <= usize::MAX,
                count == forest_size(self@.take(i as int)),
            decreases self.directives.len() - i,
        {
            proof {
                lemma_forest_size_next(self@, i as int);
                lemma_forest_size_take(self@, i + 1);
            }
            let sub = count_tree(&self.directives[i]);
            count = count + sub;
            i += 1;
        }
        assert(self@.take(self@.len() as int) =~= self@);
        count
    }

    /// Whether there is no directive at all.
    pub fn is_empty(&self) -> (r: bool)
        ensures
            r == (self@.len() == 0),
    {
        self.directives.len() == 0
    }
}

impl Default for Config {
    fn default() -> (r: Config)
        ensures
            r@ == Seq::<DirectiveView>::empty(),
    {
        Config::new()
    }
}

impl Clone for Config {
    fn clone(&self) -> (r: Config)
        ensures
            r@ == self@,
    {
        let mut copies: Vec<Directive> = Vec::new();
        let mut i: usize = 0;
        while i < self.directives.len()
            invariant
                i <= self.directives.len(),
                copies.len() == i,
                forall|j: int| 0 <= j < i ==> (#[trigger] copies[j])@ == self.directives[j]@,
            decreases self.directives.len() - i,
        {
            copies.push(self.directives[i].clone());
            i += 1;
        }
        let r = Config { directives: copies };
        assert(r@ =~= self@);
        r
    }
}

} // verus!
