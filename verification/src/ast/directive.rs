//! Directives: the nodes of the configuration tree.

use vstd::prelude::*;
use crate::ast::span::{Span, Spanned};
use crate::ast::value::{Value, ValueView, values_view, clone_values};
use crate::text::str_eq;

verus! {

/// A directive: what it holds and where it stood in the source.
#[derive(Debug, PartialEq)]
pub struct Directive {
    /// The content: simple or block.
    pub item: DirectiveItem,
    /// The source location.
    pub span: Span,
}

/// The content of a directive.
#[derive(Debug, PartialEq)]
pub enum DirectiveItem {
    /// A simple directive: `name arg1 arg2 ...;`
    Simple {
        /// The directive's name.
        name: String,
        /// Its arguments, in source order.
        args: Vec<Value>,
    },
    /// A block directive: `name arg1 arg2 { ... }`
    Block {
        /// The directive's name.
        name: String,
        /// The arguments before the block, in source order.
        args: Vec<Value>,
        /// The directives inside the block, in source order.
        children: Vec<Directive>,
    },
}

/// The mathematical value of a [`Directive`]: a finite tree.
pub struct DirectiveView {
    pub item: ItemView,
    pub span: Span,
}

/// The mathematical value of a [`DirectiveItem`].
pub enum ItemView {
    Simple { name: Seq<char>, args: Seq<ValueView> },
    Block { name: Seq<char>, args: Seq<ValueView>, children: Seq<DirectiveView> },
}

impl DirectiveView {
    /// The directive's name.
    pub open spec fn name(self) -> Seq<char> {
        match self.item {
            ItemView::Simple { name, .. } => name,
            ItemView::Block { name, .. } => name,
        }
    }

    /// The directive's arguments.
    pub open spec fn args(self) -> Seq<ValueView> {
        match self.item {
            ItemView::Simple { args, .. } => args,
            ItemView::Block { args, .. } => args,
        }
    }

    /// The directive's children; none for a simple directive.
    pub open spec fn children(self) -> Seq<DirectiveView> {
        match self.item {
            ItemView::Simple { .. } => Seq::empty(),
            ItemView::Block { children, .. } => children,
        }
    }

    /// Whether this is a block directive.
    pub open spec fn is_block(self) -> bool {
        self.item is Block
    }
}

/// The tree that `d` stands for.
pub open spec fn tree_of(d: Directive) -> DirectiveView
    decreases d,
{
    DirectiveView {
        item: match d.item {
            DirectiveItem::Simple { name, args } => ItemView::Simple {
                name: name@,
                args: values_view(args@),
            },
            DirectiveItem::Block { name, args, children } => ItemView::Block {
                name: name@,
                args: values_view(args@),
                children: Seq::new(
                    children@.len(),
                    |i: int|
                        if 0 <= i < children@.len() {
                            tree_of(children@[i])
                        } else {
                            arbitrary()
                        },
                ),
            },
        },
        span: d.span,
    }
}

impl View for Directive {
    type V = DirectiveView;

    open spec fn view(&self) -> DirectiveView {
        tree_of(*self)
    }
}

/// The views of a sequence of directives, element by element.
pub open spec fn directives_view(ds: Seq<Directive>) -> Seq<DirectiveView> {
    Seq::new(ds.len(), |i: int| ds[i]@)
}

/// The views of a sequence of borrowed directives, element by element.
pub open spec fn refs_view(ds: Seq<&Directive>) -> Seq<DirectiveView> {
    Seq::new(ds.len(), |i: int| ds[i]@)
}

/// Literal values with the given texts, in order.
pub open spec fn literal_views(args: Seq<String>) -> Seq<ValueView> {
    Seq::new(args.len(), |i: int| ValueView::Literal(args[i]@))
}

/// The texts of a sequence of values, in order.
pub open spec fn texts(args: Seq<ValueView>) -> Seq<Seq<char>> {
    Seq::new(args.len(), |i: int| args[i].text())
}

/// The views of a sequence of strings, in order.
pub open spec fn strings_view(ss: Seq<String>) -> Seq<Seq<char>> {
    Seq::new(ss.len(), |i: int| ss[i]@)
}

/// The directives of `ds` that are named `name`, in the order they stand in.
pub open spec fn named(ds: Seq<DirectiveView>, name: Seq<char>) -> Seq<DirectiveView> {
    ds.filter(|d: DirectiveView| d.name() == name)
}

/// Every directive named `name` in the tree under `d`, `d` itself included,
/// in pre-order: a node comes before its children, and the children come in
/// source order.
pub open spec fn named_in_tree(d: DirectiveView, name: Seq<char>) -> Seq<DirectiveView>
    decreases d, 1int,
{
    let own = if d.name() == name {
        seq![d]
    } else {
        Seq::empty()
    };
    match d.item {
        ItemView::Simple { .. } => own,
        ItemView::Block { children, .. } => own + named_in_forest(children, name),
    }
}

/// Every directive named `name` in the trees under `ds`, tree after tree.
pub open spec fn named_in_forest(ds: Seq<DirectiveView>, name: Seq<char>) -> Seq<DirectiveView>
    decreases ds, 0int,
{
    if ds.len() == 0 {
        Seq::empty()
    } else {
        named_in_forest(ds.drop_last(), name) + named_in_tree(ds.last(), name)
    }
}

/// The number of directives in the tree under `d`, `d` itself included.
pub open spec fn tree_size(d: DirectiveView) -> nat
    decreases d, 1int,
{
    match d.item {
        ItemView::Simple { .. } => 1,
        ItemView::Block { children, .. } => 1 + forest_size(children),
    }
}

/// The number of directives in the trees under `ds`.
pub open spec fn forest_size(ds: Seq<DirectiveView>) -> nat
    decreases ds, 0int,
{
    if ds.len() == 0 {
        0
    } else {
        forest_size(ds.drop_last()) + tree_size(ds.last())
    }
}

/// The view of a block's children is the view of each child, in order.
pub proof fn lemma_children_view(d: Directive)
    ensures
        d.item matches DirectiveItem::Block { children, .. } ==> d@.children() == directives_view(
            children@,
        ),
        d.item is Simple ==> d@.children() == Seq::<DirectiveView>::empty(),
        d@.is_block() == (d.item is Block),
{
    match d.item {
        DirectiveItem::Block { children, .. } => {
            assert(d@.children().len() == children@.len());
            assert forall|i: int| 0 <= i < children@.len() implies d@.children()[i]
                == #[trigger] children@[i]@ by {}
            assert(d@.children() =~= directives_view(children@));
        },
        _ => {},
    }
}

/// Taking one more directive into view appends its tree.
pub proof fn lemma_view_take_next(ds: Seq<Directive>, i: int)
    requires
        0 <= i < ds.len(),
    ensures
        directives_view(ds.take(i + 1)) == directives_view(ds.take(i)).push(ds[i]@),
{
    assert(directives_view(ds.take(i + 1)) =~= directives_view(ds.take(i)).push(ds[i]@));
}

/// With no directive taken the view is empty; with all taken it is whole.
pub proof fn lemma_view_take_ends(ds: Seq<Directive>)
    ensures
        directives_view(ds.take(ds.len() as int)) == directives_view(ds),
        directives_view(ds.take(0)) == Seq::<DirectiveView>::empty(),
{
    assert(ds.take(ds.len() as int) =~= ds);
    assert(directives_view(ds.take(0)) =~= Seq::<DirectiveView>::empty());
}

/// The directives of `ds` named `name`, in the order they stand in.
pub fn filter_named<'a>(ds: &'a [Directive], name: &str) -> (r: Vec<&'a Directive>)
    ensures
        refs_view(r@) == named(directives_view(ds@), name@),
{
    let mut out: Vec<&'a Directive> = Vec::new();
    let mut i: usize = 0;
    proof {
        lemma_view_take_ends(ds@);
        assert(refs_view(out@) =~= named(directives_view(ds@.take(0)), name@));
    }
    while i < ds.len()
        invariant
            i <= ds.len(),
            refs_view(out@) == named(directives_view(ds@.take(i as int)), name@),
        decreases ds.len() - i,
    {
        let ghost before = refs_view(out@);
        let ghost seen = directives_view(ds@.take(i as int));
        proof {
            lemma_view_take_next(ds@, i as int);
            seen.lemma_filter_push(ds@[i as int]@, |d: DirectiveView| d.name() == name@);
        }
        if str_eq(ds[i].name(), name) {
            out.push(&ds[i]);
            assert(refs_view(out@) =~= before.push(ds@[i as int]@));
        }
        i += 1;
    }
    proof {
        lemma_view_take_ends(ds@);
    }
    out
}

fn collect_named<'a>(d: &'a Directive, name: &str, out: &mut Vec<&'a Directive>)
    ensures
        refs_view(final(out)@) == refs_view(old(out)@) + named_in_tree(d@, name@),
    decreases d,
{
    let ghost start = refs_view(out@);
    if str_eq(d.name(), name) {
        out.push(d);
        assert(refs_view(out@) =~= start.push(d@));
    }
    proof {
        lemma_children_view(*d);
    }
    match &d.item {
        DirectiveItem::Simple { .. } => {
            assert(refs_view(out@) =~= start + named_in_tree(d@, name@));
        },
        DirectiveItem::Block { children, .. } => {
            let ghost own = refs_view(out@);
            let mut i: usize = 0;
            proof {
                lemma_view_take_ends(children@);
                assert(refs_view(out@) =~= own + named_in_forest(
                    directives_view(children@.take(0)),
                    name@,
                ));
            }
            while i < children.len()
                invariant
                    i <= children.len(),
                    d.item matches DirectiveItem::Block { children: cs, .. } && cs == children,
                    refs_view(out@) == own + named_in_forest(
                        directives_view(children@.take(i as int)),
                        name@,
                    ),
                decreases children.len() - i,
            {
                let ghost before = refs_view(out@);
                collect_named(&children[i], name, out);
                proof {
                    lemma_view_take_next(children@, i as int);
                    let next = directives_view(children@.take(i + 1));
                    assert(next.drop_last() =~= directives_view(children@.take(i as int)));
                    assert(next.last() == children@[i as int]@);
                    assert(refs_view(out@) =~= own + named_in_forest(next, name@));
                }
                i += 1;
            }
            proof {
                lemma_view_take_ends(children@);
                let own_spec = if d@.name() == name@ {
                    seq![d@]
                } else {
                    Seq::empty()
                };
                assert(own =~= start + own_spec);
                assert(refs_view(out@) =~= start + named_in_tree(d@, name@));
            }
        },
    }
}

fn literals(args: Vec<String>) -> (r: Vec<Value>)
    ensures
        values_view(r@) == literal_views(args@),
{
    let mut out: Vec<Value> = Vec::new();
    let mut i: usize = 0;
    while i < args.len()
        invariant
            i <= args.len(),
            out.len() == i,
            forall|j: int| 0 <= j < i ==> out[j]@ == ValueView::Literal(#[trigger] args[j]@),
        decreases args.len() - i,
    {
        out.push(Value::Literal(args[i].clone()));
        i += 1;
    }
    assert(values_view(out@) =~= literal_views(args@));
    out
}

impl Directive {
    /// A simple directive whose arguments are literals, with the default span.
    pub fn simple(name: &str, args: Vec<String>) -> (r: Directive)
        ensures
            r@ == (DirectiveView {
                item: ItemView::Simple { name: name@, args: literal_views(args@) },
                span: Span::spec_default(),
            }),
    {
        Directive {
            item: DirectiveItem::Simple { name: name.to_owned(), args: literals(args) },
            span: Span::default(),
        }
    }

    /// A simple directive whose arguments are literals, with the given span.
    pub fn simple_with_span(name: &str, args: Vec<String>, span: Span) -> (r: Directive)
        ensures
            r@ == (DirectiveView {
                item: ItemView::Simple { name: name@, args: literal_views(args@) },
                span,
            }),
    {
        Directive {
            item: DirectiveItem::Simple { name: name.to_owned(), args: literals(args) },
            span,
        }
    }

    /// A simple directive with the given arguments and the default span.
    pub fn simple_with_values(name: &str, args: Vec<Value>) -> (r: Directive)
        ensures
            r@ == (DirectiveView {
                item: ItemView::Simple { name: name@, args: values_view(args@) },
                span: Span::spec_default(),
            }),
    {
        Directive {
            item: DirectiveItem::Simple { name: name.to_owned(), args },
            span: Span::default(),
        }
    }

    /// A block directive whose arguments are literals, with the default span.
    pub fn block(name: &str, args: Vec<String>, children: Vec<Directive>) -> (r: Directive)
        ensures
            r@ == (DirectiveView {
                item: ItemView::Block {
                    name: name@,
                    args: literal_views(args@),
                    children: directives_view(children@),
                },
                span: Span::spec_default(),
            }),
    {
        let r = Directive {
            item: DirectiveItem::Block { name: name.to_owned(), args: literals(args), children },
            span: Span::default(),
        };
        proof {
            lemma_children_view(r);
        }
        r
    }

    /// A block directive whose arguments are literals, with the given span.
    pub fn block_with_span(
        name: &str,
        args: Vec<String>,
        children: Vec<Directive>,
        span: Span,
    ) -> (r: Directive)
        ensures
            r@ == (DirectiveView {
                item: ItemView::Block {
                    name: name@,
                    args: literal_views(args@),
                    children: directives_view(children@),
                },
                span,
            }),
    {
        let r = Directive {
            item: DirectiveItem::Block { name: name.to_owned(), args: literals(args), children },
            span,
        };
        proof {
            lemma_children_view(r);
        }
        r
    }

    /// A block directive with the given arguments and the default span.
    pub fn block_with_values(name: &str, args: Vec<Value>, children: Vec<Directive>) -> (r:
        Directive)
        ensures
            r@ == (DirectiveView {
                item: ItemView::Block {
                    name: name@,
                    args: values_view(args@),
                    children: directives_view(children@),
                },
                span: Span::spec_default(),
            }),
    {
        let r = Directive {
            item: DirectiveItem::Block { name: name.to_owned(), args, children },
            span: Span::default(),
        };
        proof {
            lemma_children_view(r);
        }
        r
    }

    /// The directive's name.
    pub fn name(&self) -> (r: &str)
        ensures
            r@ == self@.name(),
    {
        match &self.item {
            DirectiveItem::Simple { name, .. } => name.as_str(),
            DirectiveItem::Block { name, .. } => name.as_str(),
        }
    }

    /// The directive's arguments, in source order.
    pub fn args(&self) -> (r: &[Value])
        ensures
            values_view(r@) == self@.args(),
    {
        match &self.item {
            DirectiveItem::Simple { args, .. } => args.as_slice(),
            DirectiveItem::Block { args, .. } => args.as_slice(),
        }
    }

    /// The children of a block directive; `None` for a simple directive.
    pub fn children(&self) -> (r: Option<&[Directive]>)
        ensures
            match r {
                Some(cs) => self@.is_block() && directives_view(cs@) == self@.children(),
                None => !self@.is_block(),
            },
    {
        proof {
            lemma_children_view(*self);
        }
        match &self.item {
            DirectiveItem::Block { children, .. } => Some(children.as_slice()),
            DirectiveItem::Simple { .. } => None,
        }
    }

    /// Whether this is a block directive.
    pub fn is_block(&self) -> (r: bool)
        ensures
            r == self@.is_block(),
    {
        match &self.item {
            DirectiveItem::Block { .. } => true,
            DirectiveItem::Simple { .. } => false,
        }
    }

    /// Whether this is a simple directive.
    pub fn is_simple(&self) -> (r: bool)
        ensures
            r == !self@.is_block(),
    {
        match &self.item {
            DirectiveItem::Block { .. } => false,
            DirectiveItem::Simple { .. } => true,
        }
    }

    /// The text of the first argument, if there is one.
    pub fn first_arg(&self) -> (r: Option<String>)
        ensures
            match r {
                Some(s) => self@.args().len() > 0 && s@ == self@.args()[0].text(),
                None => self@.args().len() == 0,
            },
    {
        let args = self.args();
        if args.len() > 0 {
            assert(values_view(args@)[0] == args@[0]@);
            Some(args[0].to_string())
        } else {
            None
        }
    }

    /// The texts of all arguments, in source order.
    pub fn args_as_strings(&self) -> (r: Vec<String>)
        ensures
            strings_view(r@) == texts(self@.args()),
    {
        let args = self.args();
        let mut out: Vec<String> = Vec::new();
        let mut i: usize = 0;
        while i < args.len()
            invariant
                i <= args.len(),
                out.len() == i,
                forall|j: int| 0 <= j < i ==> (#[trigger] out[j])@ == args[j]@.text(),
            decreases args.len() - i,
        {
            out.push(args[i].to_string());
            i += 1;
        }
        assert(strings_view(out@) =~= texts(self@.args())) by {
            assert forall|j: int| 0 <= j < args.len() implies (#[trigger] out[j])@
                == self@.args()[j].text() by {
                assert(values_view(args@)[j] == args@[j]@);
            }
        }
        out
    }
}

impl Directive {
    /// The direct children named `name`, in the order they stand in; none for a
    /// simple directive.
    pub fn find_children<'a>(&'a self, name: &str) -> (r: Vec<&'a Directive>)
        ensures
            refs_view(r@) == named(self@.children(), name@),
    {
        match self.children() {
            Some(cs) => filter_named(cs, name),
            None => {
                let out: Vec<&'a Directive> = Vec::new();
                assert(refs_view(out@) =~= named(self@.children(), name@));
                out
            },
        }
    }

    /// Every directive named `name` at any depth under this one, this one
    /// included, in pre-order.
    pub fn find_recursive<'a>(&'a self, name: &str) -> (r: Vec<&'a Directive>)
        ensures
            refs_view(r@) == named_in_tree(self@, name@),
    {
        let mut out: Vec<&'a Directive> = Vec::new();
        assert(refs_view(out@) =~= Seq::<DirectiveView>::empty());
        collect_named(self, name, &mut out);
        assert(refs_view(out@) =~= named_in_tree(self@, name@));
        out
    }
}

impl Directive {
    /// Mutable access to the children of a block directive; `None` for a
    /// simple directive. What the caller leaves in the vector becomes the
    /// block's children; name, arguments and span stay as they were.
    pub fn children_mut(&mut self) -> (r: Option<&mut Vec<Directive>>)
        ensures
            match r {
                Some(cs) => old(self)@.is_block() && directives_view(cs@) == old(self)@.children()
                    && final(self)@ == (DirectiveView {
                    item: ItemView::Block {
                        name: old(self)@.name(),
                        args: old(self)@.args(),
                        children: directives_view(final(cs)@),
                    },
                    span: old(self).span,
                }),
                None => !old(self)@.is_block() && *final(self) == *old(self),
            },
    {
        proof {
            lemma_children_view(*self);
            lemma_children_view(*final(self));
        }
        match &mut self.item {
            DirectiveItem::Block { children, .. } => Some(children),
            DirectiveItem::Simple { .. } => None,
        }
    }
}

/// The current values of a sequence of mutably borrowed directives.
pub open spec fn mut_refs_view(ds: Seq<&mut Directive>) -> Seq<DirectiveView> {
    Seq::new(ds.len(), |i: int| (*ds[i])@)
}

/// The directives `ds` once the borrows of those named `name` among them
/// have ended: each of these holds what its borrow was left with, which
/// `left` lists in order; the others are as they were.
pub open spec fn restored(ds: Seq<Directive>, name: Seq<char>, left: Seq<Directive>) -> Seq<
    Directive,
>
    decreases ds.len(),
{
    if ds.len() == 0 {
        Seq::empty()
    } else if ds[0]@.name() == name {
        seq![left[0]] + restored(ds.skip(1), name, left.skip(1))
    } else {
        seq![ds[0]] + restored(ds.skip(1), name, left)
    }
}

/// Hands out, at the end of `out`, mutable borrows of the directives of
/// `ds` that are named `name`, in their order.
pub fn collect_named_mut<'a>(
    ds: &'a mut [Directive],
    name: &str,
    out: &mut Vec<&'a mut Directive>,
)
    ensures
        mut_refs_view(final(out)@) == mut_refs_view(old(out)@) + named(
            directives_view(old(ds)@),
            name@,
        ),
        final(out)@.len() >= old(out)@.len(),
        final(out)@.take(old(out)@.len() as int) == old(out)@,
        final(ds)@ == restored(
            old(ds)@,
            name@,
            Seq::new(
                (final(out)@.len() - old(out)@.len()) as nat,
                |i: int| *final(final(out)@[old(out)@.len() + i]),
            ),
        ),
    decreases old(ds)@.len(),
{
    if ds.len() == 0 {
        assert(directives_view(ds@) =~= Seq::<DirectiveView>::empty());
        assert(mut_refs_view(out@) + named(directives_view(ds@), name@) =~= mut_refs_view(out@));
        assert(out@.take(out@.len() as int) =~= out@);
        return ;
    }
    let ghost all = directives_view(ds@);
    let ghost before = ds@;
    let ghost start = mut_refs_view(out@);
    let ghost held = out@;
    let (head, tail) = ds.split_at_mut(1);
    let ghost rest = directives_view(tail@);
    let ghost others = tail@;
    let first = head.first_mut().unwrap();
    let ghost one = seq![first@];
    proof {
        assert(others =~= before.skip(1));
        assert(*first == before[0]);
    }
    proof {
        assert(all =~= one + rest);
        Seq::filter_distributes_over_add(one, rest, |d: DirectiveView| d.name() == name@);
        assert(one =~= Seq::<DirectiveView>::empty().push(first@));
        Seq::<DirectiveView>::empty().lemma_filter_push(
            first@,
            |d: DirectiveView| d.name() == name@,
        );
        Seq::<DirectiveView>::empty().lemma_filter_len(|d: DirectiveView| d.name() == name@);
    }
    if str_eq(first.name(), name) {
        let ghost view = first@;
        let ghost left = *final(first);
        out.push(first);
        assert(mut_refs_view(out@) =~= start.push(view));
        let ghost pushed = out@;
        collect_named_mut(tail, name, out);
        proof {
            assert(start.push(view) + named(rest, name@) =~= start + named(all, name@));
            assert(out@.take(held.len() as int) =~= out@.take(held.len() as int + 1).take(
                held.len() as int,
            ));
            assert(out@[held.len() as int] == pushed[held.len() as int]);
            let whole = Seq::new(
                (out@.len() - held.len()) as nat,
                |i: int| *final(out@[held.len() + i]),
            );
            let tail_left = Seq::new(
                (out@.len() - pushed.len()) as nat,
                |i: int| *final(out@[pushed.len() + i]),
            );
            assert(whole.skip(1) =~= tail_left);
            assert(whole[0] == left);
        }
    } else {
        collect_named_mut(tail, name, out);
        proof {
            assert(start + named(rest, name@) =~= start + named(all, name@));
        }
    }
}

impl Directive {
    /// Mutable borrows of the direct children named `name`, in their order;
    /// none for a simple directive. When the borrows end, each of these
    /// children holds what its borrow was left with; everything else is as
    /// it was.
    pub fn find_children_mut<'a>(&'a mut self, name: &str) -> (r: Vec<&'a mut Directive>)
        ensures
            mut_refs_view(r@) == named(old(self)@.children(), name@),
            final(self).span == old(self).span,
            old(self).item is Simple ==> *final(self) == *old(self),
            old(self).item matches DirectiveItem::Block { name: n, args: a, children: c } ==> (
            final(self).item matches DirectiveItem::Block { name: fn_, args: fa, children: fc }
                && fn_ == n && fa == a && fc@ == restored(
                c@,
                name@,
                Seq::new(r@.len(), |i: int| *final(r@[i])),
            )),
    {
        proof {
            lemma_children_view(*self);
        }
        let mut out: Vec<&'a mut Directive> = Vec::new();
        match &mut self.item {
            DirectiveItem::Block { children, .. } => {
                assert(mut_refs_view(out@) =~= Seq::<DirectiveView>::empty());
                collect_named_mut(children.as_mut_slice(), name, &mut out);
                proof {
                    assert(mut_refs_view(out@) =~= named(old(self)@.children(), name@));
                    assert(Seq::new((out@.len() - 0) as nat, |i: int| *final(out@[0 + i]))
                        =~= Seq::new(out@.len(), |i: int| *final(out@[i])));
                }
            },
            DirectiveItem::Simple { .. } => {
                assert(mut_refs_view(out@) =~= named(old(self)@.children(), name@));
            },
        }
        out
    }
}

impl Clone for Directive {
    fn clone(&self) -> (r: Directive)
        ensures
            r@ == self@,
        decreases self,
    {
        let item = match &self.item {
            DirectiveItem::Simple { name, args } => DirectiveItem::Simple {
                name: name.clone(),
                args: clone_values(args),
            },
            DirectiveItem::Block { name, args, children } => {
                let mut copies: Vec<Directive> = Vec::new();
                let mut i: usize = 0;
                while i < children.len()
                    invariant
                        i <= children.len(),
                        self.item matches DirectiveItem::Block { children: cs, .. } && cs
                            == children,
                        copies.len() == i,
                        forall|j: int| 0 <= j < i ==> (#[trigger] copies[j])@ == children[j]@,
                    decreases children.len() - i,
                {
                    copies.push(children[i].clone());
                    i += 1;
                }
                assert(directives_view(copies@) =~= directives_view(children@));
                DirectiveItem::Block { name: name.clone(), args: clone_values(args), children: copies }
            },
        };
        let r = Directive { item, span: self.span };
        proof {
            lemma_children_view(*self);
            lemma_children_view(r);
            assert(r@.item =~= self@.item);
        }
        r
    }
}

impl Spanned for Directive {
    fn span(&self) -> (r: Span)
        ensures
            r == self.span,
    {
        self.span
    }
}

} // verus!
