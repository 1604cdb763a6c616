//! The outline of a configuration: its tree, line by line.

use vstd::prelude::*;
use crate::ast::config::Config;
use crate::ast::directive::{
    directives_view, lemma_children_view, strings_view, texts, Directive, DirectiveItem,
    DirectiveView, ItemView,
};
use crate::text::{join_strings, join_texts, views_between};

verus! {

/// What a line of the outline shows.
#[derive(Debug, Clone, Copy, PartialEq, Eq, Structural)]
pub enum LineKind {
    /// A block directive, which opens a block.
    Open,
    /// A simple directive.
    Leaf,
    /// The end of a block.
    Close,
}

/// One line of the outline.
#[derive(Debug, PartialEq, Eq)]
pub struct OutlineLine {
    /// What the line shows.
    pub kind: LineKind,
    /// The indentation: two spaces for each level of nesting.
    pub indent: String,
    /// Whether the directive is the last of its block. Not told of the end
    /// of a block.
    pub last: bool,
    /// The name of the directive; empty at the end of a block.
    pub name: String,
    /// The arguments of the directive, joined by spaces; empty at the end of
    /// a block.
    pub args: String,
}

/// The mathematical value of an [`OutlineLine`].
pub struct OutlineView {
    pub kind: LineKind,
    pub indent: Seq<char>,
    pub last: bool,
    pub name: Seq<char>,
    pub args: Seq<char>,
}

impl View for OutlineLine {
    type V = OutlineView;

    open spec fn view(&self) -> OutlineView {
        OutlineView {
            kind: self.kind,
            indent: self.indent@,
            last: self.last,
            name: self.name@,
            args: self.args@,
        }
    }
}

impl OutlineView {
    /// The line as plain text: the indentation, a mark that tells the last
    /// directive of a block from the others, the name, the arguments where
    /// there are any, and `{` or `;`; the end of a block is the indentation,
    /// two spaces and `}`.
    pub open spec fn text(self) -> Seq<char> {
        match self.kind {
            LineKind::Close => self.indent + "  }"@,
            _ => self.indent + (if self.last {
                "\u{2514}\u{2500}"@
            } else {
                "\u{251c}\u{2500}"@
            }) + " "@ + self.name + (if self.args.len() > 0 {
                " "@ + self.args
            } else {
                Seq::empty()
            }) + (if self.kind == LineKind::Open {
                " {"@
            } else {
                ";"@
            }),
        }
    }
}

/// The views of a sequence of lines, element by element.
pub open spec fn lines_view(lines: Seq<OutlineLine>) -> Seq<OutlineView> {
    Seq::new(lines.len(), |i: int| lines[i]@)
}

/// The line of a directive itself.
pub open spec fn heading(d: DirectiveView, indent: Seq<char>, last: bool) -> OutlineView {
    OutlineView {
        kind: if d.is_block() {
            LineKind::Open
        } else {
            LineKind::Leaf
        },
        indent,
        last,
        name: d.name(),
        args: join_texts(texts(d.args()), " "@),
    }
}

/// The line that ends the block of a directive.
pub open spec fn closing(indent: Seq<char>) -> OutlineView {
    OutlineView {
        kind: LineKind::Close,
        indent,
        last: false,
        name: Seq::empty(),
        args: Seq::empty(),
    }
}

/// The lines of the tree under a directive: its own line and, for a block,
/// the lines of its children, two spaces further in, and the line that ends
/// the block.
pub open spec fn outline_of(d: DirectiveView, indent: Seq<char>, last: bool) -> Seq<OutlineView>
    decreases d, 1int,
{
    match d.item {
        ItemView::Simple { .. } => seq![heading(d, indent, last)],
        ItemView::Block { children, .. } => seq![heading(d, indent, last)] + outline_forest(
            children,
            indent + "  "@,
            children.len(),
        ) + seq![closing(indent)],
    }
}

/// The lines of the trees under the directives `ds`, which are the first of
/// `total` directives of a block: the last of the block is marked as such.
pub open spec fn outline_forest(ds: Seq<DirectiveView>, indent: Seq<char>, total: nat) -> Seq<
    OutlineView,
>
    decreases ds, 0int,
{
    if ds.len() == 0 {
        Seq::empty()
    } else {
        outline_forest(ds.drop_last(), indent, total) + outline_of(
            ds.last(),
            indent,
            ds.len() == total,
        )
    }
}

/// The lines of the trees under the top-level directives, each of which
/// is marked as the last of its block.
pub open spec fn outline_top(ds: Seq<DirectiveView>) -> Seq<OutlineView>
    decreases ds.len(),
{
    if ds.len() == 0 {
        Seq::empty()
    } else {
        outline_top(ds.drop_last()) + outline_of(ds.last(), Seq::empty(), true)
    }
}

fn heading_line(directive: &Directive, indent: &str, last: bool) -> (r: OutlineLine)
    ensures
        r@ == heading(directive@, indent@, last),
{
    let args = directive.args_as_strings();
    let joined = join_strings(args.as_slice(), 0, args.len(), " ");
    proof {
        assert(views_between(args@, 0, args@.len() as int) =~= strings_view(args@));
    }
    OutlineLine {
        kind: if directive.is_block() {
            LineKind::Open
        } else {
            LineKind::Leaf
        },
        indent: indent.to_owned(),
        last,
        name: directive.name().to_owned(),
        args: joined,
    }
}

fn push_outline(directive: &Directive, indent: &str, last: bool, out: &mut Vec<OutlineLine>)
    ensures
        lines_view(final(out)@) == lines_view(old(out)@) + outline_of(directive@, indent@, last),
    decreases directive,
{
    let ghost start = lines_view(out@);
    let line = heading_line(directive, indent, last);
    let ghost head = line@;
    out.push(line);
    assert(lines_view(out@) =~= start + seq![head]);
    proof {
        lemma_children_view(*directive);
    }
    match &directive.item {
        DirectiveItem::Simple { .. } => {},
        DirectiveItem::Block { children, .. } => {
            let mut deeper = String::from_str(indent);
            deeper.append("  ");
            let ghost kids = directives_view(children@);
            let ghost opened = lines_view(out@);
            let mut i: usize = 0;
            proof {
                assert(kids.take(0) =~= Seq::<DirectiveView>::empty());
                assert(opened + outline_forest(kids.take(0), deeper@, kids.len()) =~= opened);
            }
            while i < children.len()
                invariant
                    i <= children.len(),
                    directive.item matches DirectiveItem::Block { children: cs, .. } && cs
                        == children,
                    kids == directives_view(children@),
                    lines_view(out@) == opened + outline_forest(
                        kids.take(i as int),
                        deeper@,
                        kids.len(),
                    ),
                decreases children.len() - i,
            {
                let ghost before = lines_view(out@);
                proof {
                    assert(kids.take(i + 1).drop_last() =~= kids.take(i as int));
                    assert(kids.take(i + 1).last() == children@[i as int]@);
                    assert(kids.take(i + 1).len() == i + 1);
                }
                push_outline(&children[i], deeper.as_str(), i + 1 == children.len(), out);
                proof {
                    assert(lines_view(out@) =~= opened + (outline_forest(
                        kids.take(i as int),
                        deeper@,
                        kids.len(),
                    ) + outline_of(children@[i as int]@, deeper@, i + 1 == kids.len())));
                }
                i += 1;
            }
            proof {
                assert(kids.take(kids.len() as int) =~= kids);
            }
            let ghost filled = lines_view(out@);
            out.push(
                OutlineLine {
                    kind: LineKind::Close,
                    indent: indent.to_owned(),
                    last: false,
                    name: String::new(),
                    args: String::new(),
                },
            );
            proof {
                assert(lines_view(out@) =~= filled + seq![closing(indent@)]);
                assert(lines_view(out@) =~= start + outline_of(directive@, indent@, last));
            }
        },
    }
}

/// The outline of a configuration: the lines of the trees under its
/// top-level directives.
pub fn outline(config: &Config) -> (r: Vec<OutlineLine>)
    ensures
        lines_view(r@) == outline_top(config@),
{
    let mut out: Vec<OutlineLine> = Vec::new();
    let ghost all = config@;
    let mut i: usize = 0;
    proof {
        assert(all.take(0) =~= Seq::<DirectiveView>::empty());
        assert(lines_view(out@) =~= Seq::<OutlineView>::empty());
    }
    while i < config.directives.len()
        invariant
            i <= config.directives.len(),
            all == config@,
            lines_view(out@) == outline_top(all.take(i as int)),
        decreases config.directives.len() - i,
    {
        proof {
            assert(all.take(i + 1).drop_last() =~= all.take(i as int));
            assert(all.take(i + 1).last() == config.directives@[i as int]@);
        }
        push_outline(&config.directives[i], "", true, &mut out);
        proof {
            reveal_strlit("");
            assert(""@ =~= Seq::<char>::empty());
        }
        i += 1;
    }
    proof {
        assert(all.take(all.len() as int) =~= all);
    }
    out
}

impl OutlineLine {
    /// The line as plain text.
    pub fn to_string(&self) -> (r: String)
        ensures
            r@ == self@.text(),
    {
        let mut out = String::from_str(self.indent.as_str());
        match self.kind {
            LineKind::Close => {
                out.append("  }");
            },
            _ => {
                out.append(if self.last {
                    "\u{2514}\u{2500}"
                } else {
                    "\u{251c}\u{2500}"
                });
                out.append(" ");
                out.append(self.name.as_str());
                if !self.args.as_str().is_empty() {
                    out.append(" ");
                    out.append(self.args.as_str());
                }
                out.append(match self.kind {
                    LineKind::Open => " {",
                    _ => ";",
                });
            },
        }
        assert(out@ =~= self@.text());
        out
    }
}

} // verus!
