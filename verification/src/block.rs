//! Formatting of brace-delimited blocks: generic node blocks and
//! statement blocks with their contextual break policy.

use vstd::prelude::*;

use crate::ast::Statement;
use crate::comments::Attachment;
use crate::context::fmt_wf;
use crate::context::no_comments;
use crate::context::same_frame;
use crate::context::spec_grandparent;
use crate::context::spec_parent;
use crate::context::Formatter;
use crate::context::NodeKind;
use crate::document::doc_texts;
use crate::document::doc_wf;
use crate::document::docs_texts;
use crate::document::docs_wf;
use crate::document::lemma_no_nl_from_pointwise;
use crate::document::push_doc;
use crate::document::Document;
use crate::document::LineKind;
use crate::format::format_statement;
use crate::lowering::block_texts;
use crate::lowering::lemma_stmts_texts_push;
use crate::lowering::stmts_texts;
use crate::span::Span;

verus! {

/// Does any statement of the sequence do something (is not a `Noop`)?
pub open spec fn has_non_noop(stmts: Seq<Statement>) -> bool {
    exists|i: int| 0 <= i < stmts.len() && !((#[trigger] stmts[i]) is Noop)
}

/// The contexts in which an empty statement block still breaks: the
/// bodies of function-like nodes and try clauses, and a block that is
/// the statement body of a control structure.
pub open spec fn empty_block_forces_break(parent: Option<NodeKind>, grandparent: Option<NodeKind>) -> bool {
    if parent == Some(NodeKind::Function) || parent == Some(NodeKind::MethodBody) || parent == Some(
        NodeKind::PropertyHookConcreteBody,
    ) || parent == Some(NodeKind::Try) || parent == Some(NodeKind::TryCatchClause) || parent == Some(
        NodeKind::TryFinallyClause,
    ) {
        true
    } else if parent == Some(NodeKind::Statement) {
        grandparent == Some(NodeKind::ForBody) || grandparent == Some(NodeKind::WhileBody) || grandparent == Some(
            NodeKind::DoWhile,
        ) || grandparent == Some(NodeKind::If) || grandparent == Some(NodeKind::IfStatementBody) || grandparent
            == Some(NodeKind::IfStatementBodyElseClause) || grandparent == Some(
            NodeKind::IfStatementBodyElseIfClause,
        ) || grandparent == Some(NodeKind::ForeachBody)
    } else {
        false
    }
}

/// Does any statement do something?
pub fn any_non_noop(stmts: &Vec<Statement>) -> (r: bool)
    ensures
        r == has_non_noop(stmts@),
{
    let n = stmts.len();
    let mut i: usize = 0;
    while i < n
        invariant
            0 <= i <= n,
            n == stmts@.len(),
            forall|j: int| 0 <= j < i ==> (#[trigger] stmts@[j]) is Noop,
        decreases n - i,
    {
        let is_noop = matches!(&stmts[i], Statement::Noop(_));
        if !is_noop {
            assert(!(stmts@[i as int] is Noop));
            return true;
        }
        i += 1;
    }
    false
}

/// Formats the statements of a sequence onto `out`, separated by hard
/// lines; one blank line of the original between two statements is
/// kept as an extra hard line. Each statement's leading comments stand
/// on their own lines above it and its same-line trailing comments
/// follow it after a space, each emitted once and marked printed
/// (a comment both trailing one statement and leading the next prints
/// as trailing, the tie-break the attachment rules fix).
pub fn print_statement_sequence(f: &mut Formatter, stmts: &Vec<Statement>, out: &mut Vec<Document>)
    requires
        fmt_wf(*old(f)),
        docs_wf(old(out)@),
    ensures
        fmt_wf(*final(f)),
        same_frame(*old(f), *final(f)),
        docs_wf(final(out)@),
        old(out)@.is_prefix_of(final(out)@),
        no_comments(*old(f)) ==> docs_texts(final(out)@) == docs_texts(old(out)@) + stmts_texts(
            stmts@,
            old(f).settings,
        ),
    decreases stmts@, 0int,
{
    let n = stmts.len();
    let mut i: usize = 0;
    assert(docs_texts(out@) =~= docs_texts(old(out)@) + stmts_texts(
        stmts@.subrange(0, 0),
        old(f).settings,
    ));
    while i < n
        invariant
            0 <= i <= n,
            n == stmts@.len(),
            fmt_wf(*f),
            same_frame(*old(f), *f),
            docs_wf(out@),
            old(out)@.is_prefix_of(out@),
            no_comments(*old(f)) ==> docs_texts(out@) =~= docs_texts(old(out)@) + stmts_texts(
                stmts@.subrange(0, i as int),
                old(f).settings,
            ),
        decreases n - i,
    {
        assert(decreases_to!(stmts@ => stmts@[i as int]));
        match f.comments.print_attached_comments(stmts[i].span(), Attachment::Leading, false) {
            Some(lead) => {
                assert(!no_comments(*old(f)));
                push_doc(out, lead);
                push_doc(out, Document::Line(LineKind::Hard));
            },
            None => {},
        }
        let d = format_statement(f, &stmts[i]);
        push_doc(out, d);
        match f.comments.print_attached_comments(stmts[i].span(), Attachment::Trailing, false) {
            Some(trail) => {
                assert(!no_comments(*old(f)));
                push_doc(out, Document::space());
                push_doc(out, trail);
            },
            None => {},
        }
        if i + 1 < n {
            push_doc(out, Document::Line(LineKind::Hard));
            if f.comments.is_next_line_empty(stmts[i].span()) {
                push_doc(out, Document::Line(LineKind::Hard));
            }
        }
        proof {
            assert(stmts@.subrange(0, i as int).push(stmts@[i as int]) =~= stmts@.subrange(0, i + 1));
            lemma_stmts_texts_push(stmts@.subrange(0, i as int), stmts@[i as int], old(f).settings);
        }
        i += 1;
    }
    assert(stmts@.subrange(0, n as int) =~= stmts@);
}

/// Formats a statement block. The group always breaks when the block
/// has a statement that does something; an empty block still breaks in
/// the contexts of `empty_block_forces_break`, and stays `{}` inline
/// elsewhere. Dangling comments of the brace span replace the closing
/// soft line.
pub fn print_block(f: &mut Formatter, left_brace: &Span, stmts: &Vec<Statement>, right_brace: &Span) -> (r: Document)
    requires
        fmt_wf(*old(f)),
    ensures
        fmt_wf(*final(f)),
        same_frame(*old(f), *final(f)),
        doc_wf(r),
        no_comments(*old(f)) ==> doc_texts(r) == block_texts(stmts@, old(f).settings),
        r matches Document::Group(parts, sb) && {
            &&& sb == (has_non_noop(stmts@) || empty_block_forces_break(
                spec_parent(*old(f)),
                spec_grandparent(*old(f)),
            ))
            &&& parts@.len() >= 2
            &&& (parts@[0] matches Document::Text(t) && t@ == "{"@)
            &&& (parts@[parts@.len() - 1] matches Document::Text(u) && u@ == "}"@)
            &&& (has_non_noop(stmts@) ==> (parts@[1] matches Document::Indent(inner) && inner@.len() >= 1
                && inner@[0] == Document::Line(LineKind::Hard)))
            &&& (no_comments(*old(f)) ==> parts@.len() == (if has_non_noop(stmts@) {
                4int
            } else {
                3int
            }) && parts@[parts@.len() - 2] == Document::Line(LineKind::Soft))
        },
    decreases stmts@, 1int,
{
    let mut parts: Vec<Document> = Vec::new();
    assert(docs_wf(parts@));
    proof {
        reveal_strlit("{");
        reveal_strlit("}");
        assert(forall|i: int| 0 <= i < ("{"@).len() ==> ("{"@)[i] != '\n');
        lemma_no_nl_from_pointwise("{"@);
        assert(forall|i: int| 0 <= i < ("}"@).len() ==> ("}"@)[i] != '\n');
        lemma_no_nl_from_pointwise("}"@);
    }
    push_doc(&mut parts, Document::text("{"));
    let has_body = any_non_noop(stmts);
    let sb: bool;
    if has_body {
        let mut inner: Vec<Document> = Vec::new();
        assert(docs_wf(inner@));
        assert(docs_texts(inner@) =~= Seq::<Seq<char>>::empty());
        push_doc(&mut inner, Document::Line(LineKind::Hard));
        let ghost pre = inner@;
        print_statement_sequence(f, stmts, &mut inner);
        assert(inner@.len() >= 1 && inner@[0] == Document::Line(LineKind::Hard)) by {
            assert(pre.is_prefix_of(inner@));
            assert(pre[0] == Document::Line(LineKind::Hard));
        }
        let ind = Document::Indent(inner);
        assert(doc_wf(ind));
        assert(no_comments(*old(f)) ==> doc_texts(ind) =~= stmts_texts(stmts@, old(f).settings));
        push_doc(&mut parts, ind);
        sb = true;
    } else {
        let p = f.parent_node();
        let g = f.grandparent_node();
        let forced: bool = match p {
            Some(k) => {
                if matches!(
                    k,
                    NodeKind::Function
                        | NodeKind::MethodBody
                        | NodeKind::PropertyHookConcreteBody
                        | NodeKind::Try
                        | NodeKind::TryCatchClause
                        | NodeKind::TryFinallyClause
                ) {
                    true
                } else if matches!(k, NodeKind::Statement) {
                    match g {
                        Some(gk) => matches!(
                            gk,
                            NodeKind::ForBody
                                | NodeKind::WhileBody
                                | NodeKind::DoWhile
                                | NodeKind::If
                                | NodeKind::IfStatementBody
                                | NodeKind::IfStatementBodyElseClause
                                | NodeKind::IfStatementBodyElseIfClause
                                | NodeKind::ForeachBody
                        ),
                        None => false,
                    }
                } else {
                    false
                }
            },
            None => false,
        };
        assert(forced == empty_block_forces_break(spec_parent(*f), spec_grandparent(*f)));
        sb = forced;
    }
    let joined = left_brace.join(*right_brace);
    match f.comments.print_dangling_comments(joined, true) {
        Some(c) => {
            assert(!no_comments(*old(f)));
            push_doc(&mut parts, c);
        },
        None => {
            push_doc(&mut parts, Document::Line(LineKind::Soft));
        },
    }
    push_doc(&mut parts, Document::text("}"));
    assert(no_comments(*old(f)) ==> docs_texts(parts@) =~= block_texts(stmts@, old(f).settings));
    Document::Group(parts, sb)
}

/// A block of already-formatted homogenous nodes (for instance a class
/// body), each with its span so that blank lines of the original are
/// kept. `inline_empty` lets an empty block close on the same line.
pub struct FormattedNode {
    pub document: Document,
    pub span: Span,
}

/// Every item's document is well formed.
pub open spec fn nodes_wf(items: Seq<FormattedNode>) -> bool {
    forall|i: int| 0 <= i < items.len() ==> doc_wf((#[trigger] items[i]).document)
}

/// The atom texts of the items' documents, in order.
pub open spec fn items_texts(items: Seq<FormattedNode>) -> Seq<Seq<char>>
    decreases items,
{
    if items.len() == 0 {
        Seq::empty()
    } else {
        doc_texts(items[0].document) + items_texts(items.drop_first())
    }
}

/// Appending an item appends its document's texts.
pub proof fn lemma_items_texts_push(items: Seq<FormattedNode>, x: FormattedNode)
    ensures
        items_texts(items.push(x)) == items_texts(items) + doc_texts(x.document),
    decreases items,
{
    reveal_with_fuel(items_texts, 3);
    if items.len() == 0 {
        assert(items.push(x)[0] == x);
        assert(items.push(x).drop_first() =~= Seq::<FormattedNode>::empty());
        assert(doc_texts(x.document) + Seq::<Seq<char>>::empty() =~= doc_texts(x.document));
        assert(Seq::<Seq<char>>::empty() + doc_texts(x.document) =~= doc_texts(x.document));
    } else {
        assert(items.push(x)[0] == items[0]);
        assert(items.push(x).drop_first() =~= items.drop_first().push(x));
        lemma_items_texts_push(items.drop_first(), x);
        assert(doc_texts(items[0].document) + (items_texts(items.drop_first()) + doc_texts(x.document)) =~= (
        doc_texts(items[0].document) + items_texts(items.drop_first())) + doc_texts(x.document));
    }
}

/// Formats a generic block around already-formatted nodes: the nodes
/// are indented behind a hard line and separated by hard lines; the
/// closing brace stands on its own line unless the block is empty and
/// `inline_empty` holds. Dangling comments of the brace span replace
/// the hard line before `}`.
pub fn print_block_of_nodes(
    f: &mut Formatter,
    left_brace: &Span,
    items: Vec<FormattedNode>,
    right_brace: &Span,
    inline_empty: bool,
) -> (r: Document)
    requires
        fmt_wf(*old(f)),
        nodes_wf(items@),
    ensures
        fmt_wf(*final(f)),
        same_frame(*old(f), *final(f)),
        doc_wf(r),
        no_comments(*old(f)) ==> doc_texts(r) == seq!["{"@] + items_texts(items@) + seq!["}"@],
        r matches Document::Group(parts, sb) && {
            &&& sb == false
            &&& parts@.len() >= 2
            &&& (parts@[0] matches Document::Text(t) && t@ == "{"@)
            &&& (parts@[parts@.len() - 1] matches Document::Text(u) && u@ == "}"@)
            &&& (items@.len() > 0 ==> (parts@[1] matches Document::Indent(inner) && inner@.len() >= 1
                && inner@[0] == Document::Line(LineKind::Hard)))
            &&& (no_comments(*old(f)) && items@.len() > 0 ==> parts@.len() == 4 && parts@[2] == Document::Line(
                LineKind::Hard,
            ))
            &&& (no_comments(*old(f)) && items@.len() == 0 && inline_empty ==> parts@.len() == 2)
            &&& (no_comments(*old(f)) && items@.len() == 0 && !inline_empty ==> parts@.len() == 3 && parts@[1]
                == Document::Line(LineKind::Hard))
        },
{
    let ghost items0 = items@;
    let mut items = items;
    let length = items.len();
    let mut parts: Vec<Document> = Vec::new();
    assert(docs_wf(parts@));
    proof {
        reveal_strlit("{");
        reveal_strlit("}");
        assert(forall|i: int| 0 <= i < ("{"@).len() ==> ("{"@)[i] != '\n');
        lemma_no_nl_from_pointwise("{"@);
        assert(forall|i: int| 0 <= i < ("}"@).len() ==> ("}"@)[i] != '\n');
        lemma_no_nl_from_pointwise("}"@);
    }
    push_doc(&mut parts, Document::text("{"));
    if length > 0 {
        let mut inner: Vec<Document> = Vec::new();
        assert(docs_wf(inner@));
        assert(docs_texts(inner@) =~= Seq::<Seq<char>>::empty());
        push_doc(&mut inner, Document::Line(LineKind::Hard));
        assert(docs_texts(inner@) =~= items_texts(items0.subrange(0, 0)));
        let mut i: usize = 0;
        while i < length
            invariant
                0 <= i <= length,
                items@.len() + i == length,
                items@ =~= items0.subrange(i as int, length as int),
                length == items0.len(),
                nodes_wf(items0),
                nodes_wf(items@),
                fmt_wf(*f),
                same_frame(*old(f), *f),
                docs_wf(inner@),
                inner@.len() >= 1 && inner@[0] == Document::Line(LineKind::Hard),
                docs_texts(inner@) =~= items_texts(items0.subrange(0, i as int)),
            decreases length - i,
        {
            assert(doc_wf(items@[0].document));
            assert(items@[0] == items0[i as int]);
            let node = items.remove(0);
            let sp = node.span;
            push_doc(&mut inner, node.document);
            if i + 1 < length {
                push_doc(&mut inner, Document::Line(LineKind::Hard));
                if f.comments.is_next_line_empty(sp) {
                    push_doc(&mut inner, Document::Line(LineKind::Hard));
                }
            }
            proof {
                assert(items0.subrange(0, i as int).push(items0[i as int]) =~= items0.subrange(0, i + 1));
                lemma_items_texts_push(items0.subrange(0, i as int), items0[i as int]);
            }
            i += 1;
        }
        assert(items0.subrange(0, length as int) =~= items0);
        let ind = Document::Indent(inner);
        assert(doc_wf(ind));
        assert(doc_texts(ind) =~= items_texts(items0));
        push_doc(&mut parts, ind);
    }
    let joined = left_brace.join(*right_brace);
    match f.comments.print_dangling_comments(joined, true) {
        Some(c) => {
            assert(!no_comments(*old(f)));
            push_doc(&mut parts, c);
        },
        None => {
            if length > 0 || !inline_empty {
                push_doc(&mut parts, Document::Line(LineKind::Hard));
            }
        },
    }
    push_doc(&mut parts, Document::text("}"));
    assert(no_comments(*old(f)) ==> docs_texts(parts@) =~= seq!["{"@] + items_texts(items0) + seq!["}"@]);
    Document::Group(parts, false)
}

/// The body of a block without its braces: the formatted statements
/// when any does something, nothing otherwise.
pub fn print_block_body(f: &mut Formatter, stmts: &Vec<Statement>) -> (r: Option<Document>)
    requires
        fmt_wf(*old(f)),
    ensures
        fmt_wf(*final(f)),
        same_frame(*old(f), *final(f)),
        (r is Some) == has_non_noop(stmts@),
        r matches Some(d) ==> doc_wf(d) && (no_comments(*old(f)) ==> doc_texts(d) == stmts_texts(
            stmts@,
            old(f).settings,
        )),
    decreases stmts@, 1int,
{
    let has_body = any_non_noop(stmts);
    if has_body {
        let mut out: Vec<Document> = Vec::new();
        assert(docs_wf(out@));
        assert(docs_texts(out@) =~= Seq::<Seq<char>>::empty());
        print_statement_sequence(f, stmts, &mut out);
        let d = Document::Array(out);
        assert(doc_wf(d));
        assert(no_comments(*old(f)) ==> doc_texts(d) =~= stmts_texts(stmts@, old(f).settings));
        Some(d)
    } else {
        None
    }
}

} // verus!
