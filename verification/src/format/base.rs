//! The rendering interface every syntax-tree node kind implements.

use vstd::prelude::*;

use crate::options::Options;

verus! {

/// A renderable node: `format` produces exactly the text that the node's
/// `text` specification describes for the given options and nesting level.
pub trait Format {
    /// The text this node renders to.
    spec fn text(&self, opt: &Options, level: nat) -> Seq<char>;

    fn format(&self, opt: &Options, indent: usize) -> (r: String)
        ensures
            r@ == self.text(opt, indent as nat),
    ;
}

/// A syntax-tree shape the renderer has no rule for.
#[derive(PartialEq, Eq, Structural, Clone, Copy, Debug)]
pub enum NodeKind {
    StatementKind,
    QueryBody,
    Limit,
    Offset,
    Fetch,
    DistinctForm,
    OrderByForm,
}

/// The description of a node kind without a rendering rule.
pub open spec fn node_kind_text(k: NodeKind) -> Seq<char> {
    match k {
        NodeKind::StatementKind => "unsupported construct: statement kind"@,
        NodeKind::QueryBody => "unsupported construct: query body"@,
        NodeKind::Limit => "unsupported construct: limit clause"@,
        NodeKind::Offset => "unsupported construct: offset clause"@,
        NodeKind::Fetch => "unsupported construct: fetch clause"@,
        NodeKind::DistinctForm => "unsupported construct: distinct form"@,
        NodeKind::OrderByForm => "unsupported construct: order by form"@,
    }
}

/// The explicit failure raised for a construct without a rendering rule;
/// it identifies the node kind and is never degraded to wrong output.
#[derive(PartialEq, Eq, Structural, Clone, Copy, Debug)]
pub struct UnsupportedConstruct {
    pub kind: NodeKind,
}

impl UnsupportedConstruct {
    /// A user-visible description naming the unsupported node kind.
    pub fn message(&self) -> (r: String)
        ensures
            r@ == node_kind_text(self.kind),
    {
        let s = match self.kind {
            NodeKind::StatementKind => "unsupported construct: statement kind",
            NodeKind::QueryBody => "unsupported construct: query body",
            NodeKind::Limit => "unsupported construct: limit clause",
            NodeKind::Offset => "unsupported construct: offset clause",
            NodeKind::Fetch => "unsupported construct: fetch clause",
            NodeKind::DistinctForm => "unsupported construct: distinct form",
            NodeKind::OrderByForm => "unsupported construct: order by form",
        };
        s.to_owned()
    }
}

/// The nesting level one step deeper, held within the machine's bound.
pub open spec fn next_level(level: nat) -> nat {
    if level < usize::MAX as nat {
        level + 1
    } else {
        level
    }
}

pub fn bump_level(level: usize) -> (r: usize)
    ensures
        r as nat == next_level(level as nat),
{
    if level < usize::MAX {
        level + 1
    } else {
        level
    }
}

} // verus!
