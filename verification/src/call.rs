//! Method-call chains: collection, parenthesization of the base, and
//! rendering with the configured chain-breaking style.

use vstd::prelude::*;

use crate::ast::ArgumentList;
use crate::ast::CallExpr;
use crate::ast::Expression;
use crate::ast::MethodCall;
use crate::context::fmt_wf;
use crate::context::no_comments;
use crate::context::same_frame;
use crate::context::Formatter;
use crate::document::copy_chars;
use crate::document::doc_texts;
use crate::document::doc_wf;
use crate::document::docs_texts;
use crate::document::docs_wf;
use crate::document::lemma_no_nl_from_pointwise;
use crate::document::push_doc;
use crate::document::sanitized_text;
use crate::document::Document;
use crate::document::LineKind;
use crate::format::format_expression;
use crate::lowering::args_texts;
use crate::lowering::chain_step_texts;
use crate::lowering::chain_texts;
use crate::lowering::expr_texts;
use crate::lowering::exprs_prefix_texts;
use crate::lowering::link_texts;
use crate::settings::MethodChainBreakingStyle;

verus! {

/// The links of the method-call chain hanging off `e`, outermost
/// first: each is the null-safety of its operator and the call itself.
pub open spec fn chain_links(e: Expression) -> Seq<(bool, MethodCall)>
    decreases e,
{
    match e {
        Expression::Call(c) => match *c {
            CallExpr::Method(mc) => seq![(false, mc)] + chain_links(mc.object),
            CallExpr::NullSafeMethod(mc) => seq![(true, mc)] + chain_links(mc.object),
            _ => Seq::empty(),
        },
        _ => Seq::empty(),
    }
}

/// The residual non-method-call expression at the bottom of the chain.
pub open spec fn chain_base(e: Expression) -> Expression
    decreases e,
{
    match e {
        Expression::Call(c) => match *c {
            CallExpr::Method(mc) => chain_base(mc.object),
            CallExpr::NullSafeMethod(mc) => chain_base(mc.object),
            _ => e,
        },
        _ => e,
    }
}

/// Is `e` itself a method or null-safe method call?
pub open spec fn is_chain_expr(e: Expression) -> bool {
    match e {
        Expression::Call(c) => match *c {
            CallExpr::Method(_) => true,
            CallExpr::NullSafeMethod(_) => true,
            _ => false,
        },
        _ => false,
    }
}

/// One collected link: its operator's null-safety and the call.
#[derive(Clone, Copy)]
pub struct ChainLink<'a> {
    pub null_safe: bool,
    pub call: &'a MethodCall,
}

/// A collected chain: the base expression and the links, element 0
/// being the innermost method applied first.
pub struct MethodChain<'a> {
    pub base: &'a Expression,
    pub calls: Vec<ChainLink<'a>>,
}

/// The links a collected vector stands for, outermost first.
pub open spec fn links_of(s: Seq<ChainLink>) -> Seq<(bool, MethodCall)> {
    s.map_values(|l: ChainLink| (l.null_safe, *l.call))
}

/// Walks down the `object` field while the expression is a method or
/// null-safe method call, and returns the chain with its links
/// innermost first, or nothing when `expr` is no method call.
pub fn collect_method_call_chain<'a>(expr: &'a Expression) -> (r: Option<MethodChain<'a>>)
    ensures
        (r is None) == (chain_links(*expr).len() == 0),
        r matches Some(ch) ==> {
            &&& *ch.base == chain_base(*expr)
            &&& ch.calls@.len() == chain_links(*expr).len()
            &&& forall|i: int|
                0 <= i < ch.calls@.len() ==> {
                    &&& (#[trigger] ch.calls@[i]).null_safe == chain_links(*expr)[chain_links(*expr).len() - 1
                        - i].0
                    &&& *ch.calls@[i].call == chain_links(*expr)[chain_links(*expr).len() - 1 - i].1
                }
        },
{
    let mut acc: Vec<ChainLink<'a>> = Vec::new();
    let mut current: &'a Expression = expr;
    loop
        invariant
            chain_links(*expr) =~= links_of(acc@) + chain_links(*current),
            chain_base(*expr) == chain_base(*current),
        ensures
            chain_links(*expr) =~= links_of(acc@),
            chain_base(*expr) == *current,
        decreases *current,
    {
        let step: Option<(bool, &'a MethodCall)> = match current {
            Expression::Call(c) => match &**c {
                CallExpr::Method(mc) => Some((false, mc)),
                CallExpr::NullSafeMethod(mc) => Some((true, mc)),
                _ => None,
            },
            _ => None,
        };
        match step {
            Some((ns, mc)) => {
                let ghost acc0 = acc@;
                acc.push(ChainLink { null_safe: ns, call: mc });
                proof {
                    assert(links_of(acc@) =~= links_of(acc0).push((ns, *mc)));
                    assert(links_of(acc0) + (seq![(ns, *mc)] + chain_links(mc.object)) =~= (links_of(acc0).push(
                        (ns, *mc),
                    )) + chain_links(mc.object));
                }
                current = &mc.object;
            },
            None => {
                proof {
                    assert(chain_links(*current) =~= Seq::<(bool, MethodCall)>::empty());
                    assert(links_of(acc@) + Seq::<(bool, MethodCall)>::empty() =~= links_of(acc@));
                    assert(chain_base(*current) == *current);
                }
                break;
            },
        }
    }
    let n = acc.len();
    if n == 0 {
        return None;
    }
    let mut calls: Vec<ChainLink<'a>> = Vec::new();
    let mut i: usize = 0;
    while i < n
        invariant
            0 <= i <= n,
            n == acc@.len(),
            calls@.len() == i,
            forall|j: int| 0 <= j < i ==> (#[trigger] calls@[j]) == acc@[n - 1 - j],
        decreases n - i,
    {
        calls.push(acc[n - 1 - i]);
        i += 1;
    }
    Some(MethodChain { base: current, calls })
}

/// Must the base of a chain stand in parentheses before `->`? An
/// instantiation always does; so does every operator-built expression
/// that binds looser than the arrow. A parenthesized base defers to
/// what it wraps.
pub open spec fn spec_base_needs_parens(base: Expression) -> bool
    decreases base,
{
    match base {
        Expression::Parenthesized(inner) => spec_base_needs_parens(*inner),
        Expression::Instantiation(_) => true,
        Expression::Binary(_) => true,
        Expression::UnaryPrefix(_) => true,
        Expression::UnaryPostfix(_) => true,
        Expression::Assignment(_) => true,
        Expression::Conditional(_) => true,
        Expression::Closure(_) => true,
        Expression::ArrowFunction(_) => true,
        Expression::Yield(_) => true,
        Expression::CloneOf(_) => true,
        _ => false,
    }
}

/// See `spec_base_needs_parens`.
pub fn base_needs_parens(base: &Expression) -> (r: bool)
    ensures
        r == spec_base_needs_parens(*base),
    decreases *base,
{
    match base {
        Expression::Parenthesized(inner) => base_needs_parens(inner),
        Expression::Instantiation(_) => true,
        Expression::Binary(_) => true,
        Expression::UnaryPrefix(_) => true,
        Expression::UnaryPostfix(_) => true,
        Expression::Assignment(_) => true,
        Expression::Conditional(_) => true,
        Expression::Closure(_) => true,
        Expression::ArrowFunction(_) => true,
        Expression::Yield(_) => true,
        Expression::CloneOf(_) => true,
        _ => false,
    }
}

/// Emits one link's operator, method name and grouped arguments onto
/// `parts`, indented behind a hard line.
fn emit_indented_link(f: &mut Formatter, mc: &MethodCall, null_safe: bool, parts: &mut Vec<Document>)
    requires
        fmt_wf(*old(f)),
        docs_wf(old(parts)@),
    ensures
        fmt_wf(*final(f)),
        same_frame(*old(f), *final(f)),
        docs_wf(final(parts)@),
        no_comments(*old(f)) ==> docs_texts(final(parts)@) == docs_texts(old(parts)@) + link_texts(
            *mc,
            null_safe,
            old(f).settings,
        ),
    decreases *mc, 1int,
{
    let mut inner: Vec<Document> = Vec::new();
    assert(docs_wf(inner@));
    assert(docs_texts(inner@) =~= Seq::<Seq<char>>::empty());
    proof {
        reveal_strlit("->");
        reveal_strlit("?->");
        assert(forall|q: int| 0 <= q < ("->"@).len() ==> ("->"@)[q] != '\n');
        lemma_no_nl_from_pointwise("->"@);
        assert(forall|q: int| 0 <= q < ("?->"@).len() ==> ("?->"@)[q] != '\n');
        lemma_no_nl_from_pointwise("?->"@);
    }
    push_doc(&mut inner, Document::Line(LineKind::Hard));
    if null_safe {
        push_doc(&mut inner, Document::text("?->"));
    } else {
        push_doc(&mut inner, Document::text("->"));
    }
    push_doc(&mut inner, sanitized_text(copy_chars(&mc.method)));
    let args = print_call_arguments(f, &mc.arguments);
    let mut grp: Vec<Document> = Vec::new();
    assert(docs_wf(grp@));
    assert(docs_texts(grp@) =~= Seq::<Seq<char>>::empty());
    push_doc(&mut grp, args);
    let g = Document::Group(grp, false);
    assert(doc_wf(g));
    assert(no_comments(*old(f)) ==> doc_texts(g) =~= args_texts(mc.arguments, old(f).settings));
    push_doc(&mut inner, g);
    let ind = Document::Indent(inner);
    assert(doc_wf(ind));
    assert(no_comments(*old(f)) ==> doc_texts(ind) =~= link_texts(*mc, null_safe, old(f).settings));
    push_doc(parts, ind);
}

/// Walks the chain to its base and emits, on the way back up, the base
/// (parenthesized where `spec_base_needs_parens` asks) and each link.
/// With the `SameLine` style the innermost link stays beside the base;
/// with `NextLine` every link is indented behind a hard line.
fn chain_collect_onto(f: &mut Formatter, e: &Expression, parts: &mut Vec<Document>)
    requires
        fmt_wf(*old(f)),
        is_chain_expr(*e),
        docs_wf(old(parts)@),
    ensures
        fmt_wf(*final(f)),
        same_frame(*old(f), *final(f)),
        docs_wf(final(parts)@),
        no_comments(*old(f)) ==> docs_texts(final(parts)@) == docs_texts(old(parts)@) + chain_texts(
            *e,
            old(f).settings,
        ),
    decreases *e, 0int,
{
    match e {
        Expression::Call(c) => {
            match &**c {
                CallExpr::Method(mc) => chain_step(f, mc, false, parts),
                CallExpr::NullSafeMethod(mc) => chain_step(f, mc, true, parts),
                _ => {
                    proof {
                        assert(false);
                    }
                },
            }
        },
        _ => {
            proof {
                assert(false);
            }
        },
    }
}

/// One step of the walk: recurse while the object is itself a chain
/// link, emit the base and the first link otherwise.
#[verifier::rlimit(80)]
fn chain_step(f: &mut Formatter, mc: &MethodCall, null_safe: bool, parts: &mut Vec<Document>)
    requires
        fmt_wf(*old(f)),
        docs_wf(old(parts)@),
    ensures
        fmt_wf(*final(f)),
        same_frame(*old(f), *final(f)),
        docs_wf(final(parts)@),
        no_comments(*old(f)) ==> docs_texts(final(parts)@) == docs_texts(old(parts)@) + chain_step_texts(
            *mc,
            null_safe,
            old(f).settings,
        ),
    decreases *mc, 2int,
{
    let object_is_link: bool = match &mc.object {
        Expression::Call(c) => match &**c {
            CallExpr::Method(_) => true,
            CallExpr::NullSafeMethod(_) => true,
            _ => false,
        },
        _ => false,
    };
    assert(object_is_link == is_chain_expr(mc.object));
    if object_is_link {
        chain_collect_onto(f, &mc.object, parts);
        emit_indented_link(f, mc, null_safe, parts);
        assert(no_comments(*old(f)) ==> docs_texts(parts@) =~= docs_texts(old(parts)@) + chain_step_texts(
            *mc,
            null_safe,
            old(f).settings,
        ));
    } else {
        proof {
            reveal_strlit("(");
            reveal_strlit(")");
            reveal_strlit("->");
            reveal_strlit("?->");
            assert(forall|q: int| 0 <= q < ("("@).len() ==> ("("@)[q] != '\n');
            lemma_no_nl_from_pointwise("("@);
            assert(forall|q: int| 0 <= q < (")"@).len() ==> (")"@)[q] != '\n');
            lemma_no_nl_from_pointwise(")"@);
            assert(forall|q: int| 0 <= q < ("->"@).len() ==> ("->"@)[q] != '\n');
            lemma_no_nl_from_pointwise("->"@);
            assert(forall|q: int| 0 <= q < ("?->"@).len() ==> ("?->"@)[q] != '\n');
            lemma_no_nl_from_pointwise("?->"@);
        }
        let base_doc = format_expression(f, &mc.object);
        if base_needs_parens(&mc.object) {
            push_doc(parts, Document::text("("));
            push_doc(parts, base_doc);
            push_doc(parts, Document::text(")"));
        } else {
            push_doc(parts, base_doc);
        }
        let next_line = matches!(f.settings.method_chain_breaking_style, MethodChainBreakingStyle::NextLine);
        if next_line {
            emit_indented_link(f, mc, null_safe, parts);
        } else {
            if null_safe {
                push_doc(parts, Document::text("?->"));
            } else {
                push_doc(parts, Document::text("->"));
            }
            push_doc(parts, sanitized_text(copy_chars(&mc.method)));
            let args = print_call_arguments(f, &mc.arguments);
            let mut grp: Vec<Document> = Vec::new();
            assert(docs_wf(grp@));
            assert(docs_texts(grp@) =~= Seq::<Seq<char>>::empty());
            push_doc(&mut grp, args);
            let g = Document::Group(grp, false);
            assert(doc_wf(g));
            assert(no_comments(*old(f)) ==> doc_texts(g) =~= args_texts(mc.arguments, old(f).settings));
            push_doc(parts, g);
        }
        assert(no_comments(*old(f)) ==> docs_texts(parts@) =~= docs_texts(old(parts)@) + chain_step_texts(
            *mc,
            null_safe,
            old(f).settings,
        ));
    }
}

/// Renders a method-call chain: the base with its first link (per the
/// breaking style), every further link indented on its own line, and a
/// `BreakParent` so that the chain's group always breaks.
pub fn print_method_call_chain(f: &mut Formatter, expr: &Expression) -> (r: Document)
    requires
        fmt_wf(*old(f)),
        is_chain_expr(*expr),
    ensures
        fmt_wf(*final(f)),
        same_frame(*old(f), *final(f)),
        doc_wf(r),
        no_comments(*old(f)) ==> doc_texts(r) == chain_texts(*expr, old(f).settings),
        r matches Document::Group(parts, b) && {
            &&& b == false
            &&& parts@.len() >= 1
            &&& parts@[parts@.len() - 1] == Document::BreakParent
        },
    decreases *expr, 1int,
{
    let mut parts: Vec<Document> = Vec::new();
    assert(docs_wf(parts@));
    assert(docs_texts(parts@) =~= Seq::<Seq<char>>::empty());
    chain_collect_onto(f, expr, &mut parts);
    push_doc(&mut parts, Document::BreakParent);
    assert(no_comments(*old(f)) ==> docs_texts(parts@) =~= chain_texts(*expr, old(f).settings));
    Document::Group(parts, false)
}

/// Renders a call's argument list inside its parentheses: the single
/// argument of a one-argument call is hugged; longer lists stand in a
/// group that indents each argument behind a soft line and, when the
/// group breaks with `trailing_comma` set, ends with a trailing comma.
pub fn print_call_arguments(f: &mut Formatter, args: &ArgumentList) -> (r: Document)
    requires
        fmt_wf(*old(f)),
    ensures
        fmt_wf(*final(f)),
        same_frame(*old(f), *final(f)),
        doc_wf(r),
        no_comments(*old(f)) ==> doc_texts(r) == args_texts(*args, old(f).settings),
        args.arguments@.len() == 1 ==> (r matches Document::Array(ps) && {
            &&& ps@.len() == 3
            &&& (ps@[0] matches Document::Text(t) && t@ == "("@)
            &&& (ps@[2] matches Document::Text(u) && u@ == ")"@)
        }),
    decreases *args, 0int,
{
    proof {
        reveal_strlit("(");
        reveal_strlit(")");
        reveal_strlit(",");
        assert(forall|q: int| 0 <= q < ("("@).len() ==> ("("@)[q] != '\n');
        lemma_no_nl_from_pointwise("("@);
        assert(forall|q: int| 0 <= q < (")"@).len() ==> (")"@)[q] != '\n');
        lemma_no_nl_from_pointwise(")"@);
        assert(forall|q: int| 0 <= q < (","@).len() ==> (","@)[q] != '\n');
        lemma_no_nl_from_pointwise(","@);
    }
    let n = args.arguments.len();
    if n == 1 {
        let mut parts: Vec<Document> = Vec::new();
        assert(docs_wf(parts@));
        push_doc(&mut parts, Document::text("("));
        assert(decreases_to!(*args => args.arguments@[0]));
        let d = format_expression(f, &args.arguments[0]);
        push_doc(&mut parts, d);
        push_doc(&mut parts, Document::text(")"));
        assert(no_comments(*old(f)) ==> docs_texts(parts@) =~= args_texts(*args, old(f).settings));
        return Document::Array(parts);
    }
    let mut parts: Vec<Document> = Vec::new();
    assert(docs_wf(parts@));
    push_doc(&mut parts, Document::text("("));
    if n > 0 {
        let mut inner: Vec<Document> = Vec::new();
        assert(docs_wf(inner@));
        push_doc(&mut inner, Document::Line(LineKind::Soft));
        assert(docs_texts(inner@) =~= exprs_prefix_texts(args.arguments@, old(f).settings, 0));
        let mut i: usize = 0;
        while i < n
            invariant
                0 <= i <= n,
                n == args.arguments@.len(),
                fmt_wf(*f),
                same_frame(*old(f), *f),
                docs_wf(inner@),
                no_comments(*old(f)) ==> docs_texts(inner@) =~= exprs_prefix_texts(
                    args.arguments@,
                    old(f).settings,
                    i as int,
                ),
            decreases n - i,
        {
            proof {
                reveal_strlit(",");
                assert(forall|q: int| 0 <= q < (","@).len() ==> (","@)[q] != '\n');
                lemma_no_nl_from_pointwise(","@);
            }
            assert(decreases_to!(*args => args.arguments@[i as int]));
            let d = format_expression(f, &args.arguments[i]);
            push_doc(&mut inner, d);
            if i + 1 < n {
                push_doc(&mut inner, Document::text(","));
                push_doc(&mut inner, Document::Line(LineKind::Default));
            }
            assert(no_comments(*old(f)) ==> docs_texts(inner@) =~= exprs_prefix_texts(
                args.arguments@,
                old(f).settings,
                i + 1,
            ));
            i += 1;
        }
        let ind = Document::Indent(inner);
        assert(doc_wf(ind));
        assert(no_comments(*old(f)) ==> doc_texts(ind) =~= exprs_prefix_texts(
            args.arguments@,
            old(f).settings,
            n as int,
        ));
        push_doc(&mut parts, ind);
        if f.settings.trailing_comma {
            let comma = Document::text(",");
            assert(doc_wf(comma));
            let ghost comma_texts = doc_texts(comma);
            let b1 = Box::new(comma);
            let b2 = Box::new(Document::Empty);
            let ib = Document::IfBreak(b1, b2);
            assert(ib matches Document::IfBreak(t, e) && doc_wf(*t) && doc_wf(*e) && doc_texts(*t)
                == comma_texts && doc_texts(*e) =~= Seq::<Seq<char>>::empty());
            assert(doc_wf(ib));
            assert(doc_texts(ib) =~= comma_texts);
            push_doc(&mut parts, ib);
        }
        push_doc(&mut parts, Document::Line(LineKind::Soft));
    }
    push_doc(&mut parts, Document::text(")"));
    assert(no_comments(*old(f)) ==> docs_texts(parts@) =~= args_texts(*args, old(f).settings));
    Document::Group(parts, false)
}

} // verus!
