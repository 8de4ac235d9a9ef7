//! The formatter context: settings, the parent-node stack, the comment
//! index and the transient argument state.

use vstd::prelude::*;

use crate::comments::ci_wf;
use crate::comments::CommentIndex;
use crate::settings::Settings;

verus! {

/// The kind of a node on the parent stack. Only the kind matters for
/// the layout decisions that consult parents.
#[derive(Clone, Copy, PartialEq, Eq, Structural)]
pub enum NodeKind {
    Program,
    Statement,
    Function,
    MethodBody,
    PropertyHookConcreteBody,
    Try,
    TryCatchClause,
    TryFinallyClause,
    ForBody,
    WhileBody,
    DoWhile,
    If,
    IfStatementBody,
    IfStatementBodyElseClause,
    IfStatementBodyElseIfClause,
    ForeachBody,
    While,
    Return,
    Block,
    ExpressionNode,
    Closure,
    Other,
}

/// The per-file formatter state. The stack holds the kinds of the
/// nodes being descended into, innermost last.
pub struct Formatter {
    pub settings: Settings,
    pub stack: Vec<NodeKind>,
    pub comments: CommentIndex,
    pub expand_first_argument: bool,
}

/// A well-formed formatter: its comment index is well formed.
pub open spec fn fmt_wf(f: Formatter) -> bool {
    ci_wf(f.comments)
}

/// No comment stands in the index. Under this premise the atom texts
/// of every formatter's output are a pure function of the tree and the
/// settings (see the lowering module); with comments, the comment
/// index's own contract pins the comment texts that join them.
pub open spec fn no_comments(f: Formatter) -> bool {
    f.comments.comments@.len() == 0
}

/// What every formatting call leaves unchanged: the settings, the
/// parent stack (pushes and pops are paired), the source, the comment
/// list, and the argument state. Only the printed marks of comments
/// may change.
pub open spec fn same_frame(a: Formatter, b: Formatter) -> bool {
    &&& b.settings == a.settings
    &&& b.stack@ == a.stack@
    &&& b.comments.src@ == a.comments.src@
    &&& b.comments.comments@ == a.comments.comments@
    &&& b.comments.printed@.len() == a.comments.printed@.len()
    &&& b.expand_first_argument == a.expand_first_argument
}

/// The parent of the node currently being formatted, given that the
/// current node itself sits on top of the stack.
pub open spec fn spec_parent(f: Formatter) -> Option<NodeKind> {
    if f.stack@.len() >= 2 {
        Some(f.stack@[f.stack@.len() - 2])
    } else {
        None
    }
}

/// The grandparent of the node currently being formatted.
pub open spec fn spec_grandparent(f: Formatter) -> Option<NodeKind> {
    if f.stack@.len() >= 3 {
        Some(f.stack@[f.stack@.len() - 3])
    } else {
        None
    }
}

impl Formatter {
    /// A fresh context over the given settings and comment index, with
    /// the program as the only stack entry.
    pub fn new(settings: Settings, comments: CommentIndex) -> (r: Formatter)
        requires
            ci_wf(comments),
        ensures
            fmt_wf(r),
            r.settings == settings,
            r.comments == comments,
            r.stack@.len() == 1,
            !r.expand_first_argument,
    {
        let mut stack: Vec<NodeKind> = Vec::new();
        stack.push(NodeKind::Program);
        Formatter { settings, stack, comments, expand_first_argument: false }
    }

    /// Pushes the kind of the node about to be formatted.
    pub fn push_kind(&mut self, k: NodeKind)
        ensures
            final(self).stack@ == old(self).stack@.push(k),
            final(self).settings == old(self).settings,
            final(self).comments == old(self).comments,
            final(self).expand_first_argument == old(self).expand_first_argument,
    {
        self.stack.push(k);
    }

    /// Pops the kind pushed for the node just formatted.
    pub fn pop_kind(&mut self)
        ensures
            final(self).stack@ == if old(self).stack@.len() > 0 {
                old(self).stack@.drop_last()
            } else {
                old(self).stack@
            },
            final(self).settings == old(self).settings,
            final(self).comments == old(self).comments,
            final(self).expand_first_argument == old(self).expand_first_argument,
    {
        if self.stack.len() > 0 {
            let _ = self.stack.pop();
        }
    }

    /// The parent of the current node: the entry below the top of the
    /// stack, the top being the current node itself.
    pub fn parent_node(&self) -> (r: Option<NodeKind>)
        ensures
            r == spec_parent(*self),
    {
        let n = self.stack.len();
        if n >= 2 {
            Some(self.stack[n - 2])
        } else {
            None
        }
    }

    /// The grandparent of the current node.
    pub fn grandparent_node(&self) -> (r: Option<NodeKind>)
        ensures
            r == spec_grandparent(*self),
    {
        let n = self.stack.len();
        if n >= 3 {
            Some(self.stack[n - 3])
        } else {
            None
        }
    }
}

} // verus!
