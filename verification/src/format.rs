//! Per-node lowering from the syntax tree to a `Document`, and the
//! top-level entry points that render a program or an expression.

use vstd::prelude::*;

use crate::ast::CallExpr;
use crate::ast::Expression;
use crate::ast::Program;
use crate::ast::Statement;
use crate::block::print_block;
use crate::block::print_statement_sequence;
use crate::call::collect_method_call_chain;
use crate::call::print_call_arguments;
use crate::call::print_method_call_chain;
use crate::comments::ci_wf;
use crate::comments::CommentIndex;
use crate::context::fmt_wf;
use crate::context::no_comments;
use crate::context::same_frame;
use crate::context::Formatter;
use crate::context::NodeKind;
use crate::document::copy_chars;
use crate::document::doc_texts;
use crate::document::doc_wf;
use crate::document::docs_texts;
use crate::document::docs_wf;
use crate::document::lemma_no_nl_from_pointwise;
use crate::document::push_doc;
use crate::document::sanitized_text;
use crate::document::Document;
use crate::document::LineKind;
use crate::layout::lemma_render_docs_push;
use crate::layout::nl_indent;
use crate::layout::render_doc;
use crate::layout::render_docs;
use crate::layout::render_to_string;
use crate::layout::rendered;
use crate::layout::trimmed;
use crate::lowering::args_texts;
use crate::lowering::chain_texts;
use crate::lowering::expr_texts;
use crate::lowering::params_list_texts;
use crate::lowering::program_texts;
use crate::lowering::stmt_texts;
use crate::lowering::stmts_texts;
use crate::parameters::print_function_like_parameters;
use crate::settings::Settings;

verus! {

/// Formats one statement. The statement's own kind is pushed while it
/// is being formatted, so blocks below it see their parents. With no
/// comment in the index, the atom texts of the result are exactly
/// `stmt_texts`.
#[verifier::rlimit(60)]
pub fn format_statement(f: &mut Formatter, stmt: &Statement) -> (r: Document)
    requires
        fmt_wf(*old(f)),
    ensures
        fmt_wf(*final(f)),
        same_frame(*old(f), *final(f)),
        doc_wf(r),
        no_comments(*old(f)) ==> doc_texts(r) == stmt_texts(*stmt, old(f).settings),
    decreases *stmt, 3int,
{
    proof {
        reveal_strlit(";");
        reveal_strlit("function ");
        reveal_strlit("while (");
        reveal_strlit(") ");
        reveal_strlit("return");
        reveal_strlit("return ");
        assert(forall|q: int| 0 <= q < (";"@).len() ==> (";"@)[q] != '\n');
        lemma_no_nl_from_pointwise(";"@);
        assert(forall|q: int| 0 <= q < ("function "@).len() ==> ("function "@)[q] != '\n');
        lemma_no_nl_from_pointwise("function "@);
        assert(forall|q: int| 0 <= q < ("while ("@).len() ==> ("while ("@)[q] != '\n');
        lemma_no_nl_from_pointwise("while ("@);
        assert(forall|q: int| 0 <= q < (") "@).len() ==> (") "@)[q] != '\n');
        lemma_no_nl_from_pointwise(") "@);
        assert(forall|q: int| 0 <= q < ("return"@).len() ==> ("return"@)[q] != '\n');
        lemma_no_nl_from_pointwise("return"@);
        assert(forall|q: int| 0 <= q < ("return "@).len() ==> ("return "@)[q] != '\n');
        lemma_no_nl_from_pointwise("return "@);
    }
    f.push_kind(NodeKind::Statement);
    let r: Document = match stmt {
        Statement::Noop(_) => {
            let d = Document::text(";");
            assert(no_comments(*old(f)) ==> doc_texts(d) =~= stmt_texts(*stmt, old(f).settings));
            d
        },
        Statement::Expression(es) => {
            let mut parts: Vec<Document> = Vec::new();
            assert(docs_wf(parts@));
            let d = format_expression(f, &es.expression);
            push_doc(&mut parts, d);
            push_doc(&mut parts, Document::text(";"));
            assert(no_comments(*old(f)) ==> docs_texts(parts@) =~= stmt_texts(*stmt, old(f).settings));
            Document::Array(parts)
        },
        Statement::Function(decl) => {
            f.push_kind(NodeKind::Function);
            let mut parts: Vec<Document> = Vec::new();
            assert(docs_wf(parts@));
            push_doc(&mut parts, Document::text("function "));
            push_doc(&mut parts, sanitized_text(copy_chars(&decl.name)));
            let params = print_function_like_parameters(f, &decl.parameters);
            push_doc(&mut parts, params);
            push_doc(&mut parts, Document::space());
            f.push_kind(NodeKind::Block);
            let body = print_block(f, &decl.left_brace, &decl.body, &decl.right_brace);
            f.pop_kind();
            push_doc(&mut parts, body);
            f.pop_kind();
            assert(no_comments(*old(f)) ==> docs_texts(parts@) =~= stmt_texts(*stmt, old(f).settings));
            Document::Array(parts)
        },
        Statement::While(w) => {
            f.push_kind(NodeKind::While);
            let mut parts: Vec<Document> = Vec::new();
            assert(docs_wf(parts@));
            push_doc(&mut parts, Document::text("while ("));
            let cond = format_expression(f, &w.condition);
            push_doc(&mut parts, cond);
            push_doc(&mut parts, Document::text(") "));
            let body = format_statement(f, &w.body);
            push_doc(&mut parts, body);
            f.pop_kind();
            assert(no_comments(*old(f)) ==> docs_texts(parts@) =~= stmt_texts(*stmt, old(f).settings));
            Document::Array(parts)
        },
        Statement::Return(rs) => {
            f.push_kind(NodeKind::Return);
            let mut parts: Vec<Document> = Vec::new();
            assert(docs_wf(parts@));
            match &rs.value {
                Some(v) => {
                    push_doc(&mut parts, Document::text("return "));
                    let d = format_expression(f, v);
                    push_doc(&mut parts, d);
                },
                None => {
                    push_doc(&mut parts, Document::text("return"));
                },
            }
            push_doc(&mut parts, Document::text(";"));
            f.pop_kind();
            assert(no_comments(*old(f)) ==> docs_texts(parts@) =~= stmt_texts(*stmt, old(f).settings));
            Document::Array(parts)
        },
        Statement::Block(b) => {
            f.push_kind(NodeKind::Block);
            let d = print_block(f, &b.left_brace, &b.statements, &b.right_brace);
            f.pop_kind();
            assert(no_comments(*old(f)) ==> doc_texts(d) =~= stmt_texts(*stmt, old(f).settings));
            d
        },
    };
    f.pop_kind();
    assert(f.stack@ =~= old(f).stack@);
    r
}

/// Formats one expression. With no comment in the index, the atom
/// texts of the result are exactly `expr_texts`.
#[verifier::rlimit(80)]
pub fn format_expression(f: &mut Formatter, expr: &Expression) -> (r: Document)
    requires
        fmt_wf(*old(f)),
    ensures
        fmt_wf(*final(f)),
        same_frame(*old(f), *final(f)),
        doc_wf(r),
        no_comments(*old(f)) ==> doc_texts(r) == expr_texts(*expr, old(f).settings),
    decreases *expr, 3int,
{
    proof {
        reveal_strlit("(");
        reveal_strlit(")");
        reveal_strlit(" ? ");
        reveal_strlit(" ?: ");
        reveal_strlit(" : ");
        reveal_strlit("new ");
        reveal_strlit("clone ");
        reveal_strlit("yield");
        reveal_strlit("yield ");
        reveal_strlit("function ");
        reveal_strlit("fn ");
        reveal_strlit(" => ");
        reveal_strlit("::");
        assert(forall|q: int| 0 <= q < ("("@).len() ==> ("("@)[q] != '\n');
        lemma_no_nl_from_pointwise("("@);
        assert(forall|q: int| 0 <= q < (")"@).len() ==> (")"@)[q] != '\n');
        lemma_no_nl_from_pointwise(")"@);
        assert(forall|q: int| 0 <= q < (" ? "@).len() ==> (" ? "@)[q] != '\n');
        lemma_no_nl_from_pointwise(" ? "@);
        assert(forall|q: int| 0 <= q < (" ?: "@).len() ==> (" ?: "@)[q] != '\n');
        lemma_no_nl_from_pointwise(" ?: "@);
        assert(forall|q: int| 0 <= q < (" : "@).len() ==> (" : "@)[q] != '\n');
        lemma_no_nl_from_pointwise(" : "@);
        assert(forall|q: int| 0 <= q < ("new "@).len() ==> ("new "@)[q] != '\n');
        lemma_no_nl_from_pointwise("new "@);
        assert(forall|q: int| 0 <= q < ("clone "@).len() ==> ("clone "@)[q] != '\n');
        lemma_no_nl_from_pointwise("clone "@);
        assert(forall|q: int| 0 <= q < ("yield"@).len() ==> ("yield"@)[q] != '\n');
        lemma_no_nl_from_pointwise("yield"@);
        assert(forall|q: int| 0 <= q < ("yield "@).len() ==> ("yield "@)[q] != '\n');
        lemma_no_nl_from_pointwise("yield "@);
        assert(forall|q: int| 0 <= q < ("function "@).len() ==> ("function "@)[q] != '\n');
        lemma_no_nl_from_pointwise("function "@);
        assert(forall|q: int| 0 <= q < ("fn "@).len() ==> ("fn "@)[q] != '\n');
        lemma_no_nl_from_pointwise("fn "@);
        assert(forall|q: int| 0 <= q < (" => "@).len() ==> (" => "@)[q] != '\n');
        lemma_no_nl_from_pointwise(" => "@);
        assert(forall|q: int| 0 <= q < ("::"@).len() ==> ("::"@)[q] != '\n');
        lemma_no_nl_from_pointwise("::"@);
    }
    match expr {
        Expression::Variable(v) => {
            let d = sanitized_text(copy_chars(v));
            assert(doc_texts(d) =~= expr_texts(*expr, old(f).settings));
            d
        },
        Expression::Literal(v) => {
            let d = sanitized_text(copy_chars(v));
            assert(doc_texts(d) =~= expr_texts(*expr, old(f).settings));
            d
        },
        Expression::Binary(b) => {
            let mut parts: Vec<Document> = Vec::new();
            assert(docs_wf(parts@));
            let lhs = format_expression(f, &b.lhs);
            push_doc(&mut parts, lhs);
            push_doc(&mut parts, Document::space());
            push_doc(&mut parts, sanitized_text(copy_chars(&b.operator)));
            push_doc(&mut parts, Document::space());
            let rhs = format_expression(f, &b.rhs);
            push_doc(&mut parts, rhs);
            assert(no_comments(*old(f)) ==> docs_texts(parts@) =~= expr_texts(*expr, old(f).settings));
            Document::Array(parts)
        },
        Expression::Assignment(b) => {
            let mut parts: Vec<Document> = Vec::new();
            assert(docs_wf(parts@));
            let lhs = format_expression(f, &b.lhs);
            push_doc(&mut parts, lhs);
            push_doc(&mut parts, Document::space());
            push_doc(&mut parts, sanitized_text(copy_chars(&b.operator)));
            push_doc(&mut parts, Document::space());
            let rhs = format_expression(f, &b.rhs);
            push_doc(&mut parts, rhs);
            assert(no_comments(*old(f)) ==> docs_texts(parts@) =~= expr_texts(*expr, old(f).settings));
            Document::Array(parts)
        },
        Expression::UnaryPrefix(u) => {
            let mut parts: Vec<Document> = Vec::new();
            assert(docs_wf(parts@));
            push_doc(&mut parts, sanitized_text(copy_chars(&u.operator)));
            let d = format_expression(f, &u.operand);
            push_doc(&mut parts, d);
            assert(no_comments(*old(f)) ==> docs_texts(parts@) =~= expr_texts(*expr, old(f).settings));
            Document::Array(parts)
        },
        Expression::UnaryPostfix(u) => {
            let mut parts: Vec<Document> = Vec::new();
            assert(docs_wf(parts@));
            let d = format_expression(f, &u.operand);
            push_doc(&mut parts, d);
            push_doc(&mut parts, sanitized_text(copy_chars(&u.operator)));
            assert(no_comments(*old(f)) ==> docs_texts(parts@) =~= expr_texts(*expr, old(f).settings));
            Document::Array(parts)
        },
        Expression::Conditional(c) => {
            let mut parts: Vec<Document> = Vec::new();
            assert(docs_wf(parts@));
            let cond = format_expression(f, &c.condition);
            push_doc(&mut parts, cond);
            match &c.consequence {
                Some(cons) => {
                    push_doc(&mut parts, Document::text(" ? "));
                    let d = format_expression(f, cons);
                    push_doc(&mut parts, d);
                    push_doc(&mut parts, Document::text(" : "));
                },
                None => {
                    push_doc(&mut parts, Document::text(" ?: "));
                },
            }
            let alt = format_expression(f, &c.alternative);
            push_doc(&mut parts, alt);
            assert(no_comments(*old(f)) ==> docs_texts(parts@) =~= expr_texts(*expr, old(f).settings));
            Document::Array(parts)
        },
        Expression::Parenthesized(inner) => {
            let mut parts: Vec<Document> = Vec::new();
            assert(docs_wf(parts@));
            push_doc(&mut parts, Document::text("("));
            let d = format_expression(f, inner);
            push_doc(&mut parts, d);
            push_doc(&mut parts, Document::text(")"));
            assert(no_comments(*old(f)) ==> docs_texts(parts@) =~= expr_texts(*expr, old(f).settings));
            Document::Array(parts)
        },
        Expression::Instantiation(inst) => {
            let mut parts: Vec<Document> = Vec::new();
            assert(docs_wf(parts@));
            push_doc(&mut parts, Document::text("new "));
            let cls = format_expression(f, &inst.class);
            push_doc(&mut parts, cls);
            match &inst.arguments {
                Some(args) => {
                    let d = print_call_arguments(f, args);
                    push_doc(&mut parts, d);
                },
                None => {},
            }
            assert(no_comments(*old(f)) ==> docs_texts(parts@) =~= expr_texts(*expr, old(f).settings));
            Document::Array(parts)
        },
        Expression::CloneOf(inner) => {
            let mut parts: Vec<Document> = Vec::new();
            assert(docs_wf(parts@));
            push_doc(&mut parts, Document::text("clone "));
            let d = format_expression(f, inner);
            push_doc(&mut parts, d);
            assert(no_comments(*old(f)) ==> docs_texts(parts@) =~= expr_texts(*expr, old(f).settings));
            Document::Array(parts)
        },
        Expression::Yield(y) => {
            let mut parts: Vec<Document> = Vec::new();
            assert(docs_wf(parts@));
            match &y.value {
                Some(v) => {
                    push_doc(&mut parts, Document::text("yield "));
                    let d = format_expression(f, v);
                    push_doc(&mut parts, d);
                },
                None => {
                    push_doc(&mut parts, Document::text("yield"));
                },
            }
            assert(no_comments(*old(f)) ==> docs_texts(parts@) =~= expr_texts(*expr, old(f).settings));
            Document::Array(parts)
        },
        Expression::Closure(c) => {
            f.push_kind(NodeKind::Closure);
            let mut parts: Vec<Document> = Vec::new();
            assert(docs_wf(parts@));
            push_doc(&mut parts, Document::text("function "));
            let params = print_function_like_parameters(f, &c.parameters);
            push_doc(&mut parts, params);
            push_doc(&mut parts, Document::space());
            f.push_kind(NodeKind::Block);
            let body = print_block(f, &c.left_brace, &c.body, &c.right_brace);
            f.pop_kind();
            push_doc(&mut parts, body);
            f.pop_kind();
            assert(f.stack@ =~= old(f).stack@);
            assert(no_comments(*old(f)) ==> docs_texts(parts@) =~= expr_texts(*expr, old(f).settings));
            Document::Array(parts)
        },
        Expression::ArrowFunction(a) => {
            let mut parts: Vec<Document> = Vec::new();
            assert(docs_wf(parts@));
            push_doc(&mut parts, Document::text("fn "));
            let params = print_function_like_parameters(f, &a.parameters);
            push_doc(&mut parts, params);
            push_doc(&mut parts, Document::text(" => "));
            let body = format_expression(f, &a.body);
            push_doc(&mut parts, body);
            assert(no_comments(*old(f)) ==> docs_texts(parts@) =~= expr_texts(*expr, old(f).settings));
            Document::Array(parts)
        },
        Expression::Call(call) => {
            match &**call {
                CallExpr::Method(_) => {
                    let chain = collect_method_call_chain(expr);
                    match chain {
                        Some(_) => {
                            let d = print_method_call_chain(f, expr);
                            assert(no_comments(*old(f)) ==> doc_texts(d) =~= expr_texts(
                                *expr,
                                old(f).settings,
                            ));
                            d
                        },
                        None => {
                            proof {
                                assert(false);
                            }
                            Document::Empty
                        },
                    }
                },
                CallExpr::NullSafeMethod(_) => {
                    let chain = collect_method_call_chain(expr);
                    match chain {
                        Some(_) => {
                            let d = print_method_call_chain(f, expr);
                            assert(no_comments(*old(f)) ==> doc_texts(d) =~= expr_texts(
                                *expr,
                                old(f).settings,
                            ));
                            d
                        },
                        None => {
                            proof {
                                assert(false);
                            }
                            Document::Empty
                        },
                    }
                },
                CallExpr::Function(fc) => {
                    let mut parts: Vec<Document> = Vec::new();
                    assert(docs_wf(parts@));
                    let callee = format_expression(f, &fc.callee);
                    push_doc(&mut parts, callee);
                    let args = print_call_arguments(f, &fc.arguments);
                    push_doc(&mut parts, args);
                    assert(no_comments(*old(f)) ==> docs_texts(parts@) =~= expr_texts(
                        *expr,
                        old(f).settings,
                    ));
                    Document::Array(parts)
                },
                CallExpr::StaticMethod(sc) => {
                    let mut parts: Vec<Document> = Vec::new();
                    assert(docs_wf(parts@));
                    let cls = format_expression(f, &sc.class);
                    push_doc(&mut parts, cls);
                    push_doc(&mut parts, Document::text("::"));
                    push_doc(&mut parts, sanitized_text(copy_chars(&sc.method)));
                    let args = print_call_arguments(f, &sc.arguments);
                    push_doc(&mut parts, args);
                    assert(no_comments(*old(f)) ==> docs_texts(parts@) =~= expr_texts(
                        *expr,
                        old(f).settings,
                    ));
                    Document::Array(parts)
                },
            }
        },
    }
}

/// Formats a whole program with the given settings and comment index.
/// The output ends with a newline; with no comment in the index it is
/// the rendering of a well-formed document whose atom texts are
/// exactly `program_texts`.
pub fn format_program(program: &Program, comments: CommentIndex, settings: Settings) -> (r: String)
    requires
        ci_wf(comments),
    ensures
        r@.len() > 0,
        r@[r@.len() - 1] == '\n',
        comments.comments@.len() == 0 ==> exists|d: Document|
            doc_wf(d) && #[trigger] doc_texts(d) == program_texts(*program, settings) && r@ == rendered(
                d,
                settings,
            ),
{
    let ghost comments0 = comments;
    let mut f = Formatter::new(settings, comments);
    let mut docs: Vec<Document> = Vec::new();
    assert(docs_wf(docs@));
    assert(docs_texts(docs@) =~= Seq::<Seq<char>>::empty());
    print_statement_sequence(&mut f, &program.statements, &mut docs);
    let ghost before = docs@;
    push_doc(&mut docs, Document::Line(LineKind::Hard));
    let doc = Document::Array(docs);
    assert(doc_wf(doc));
    assert(comments0.comments@.len() == 0 ==> doc_texts(doc) =~= program_texts(*program, settings));
    proof {
        lemma_render_docs_push(before, Document::Line(LineKind::Hard), Seq::empty(), false, 0, settings);
        let raw = render_doc(doc, Seq::empty(), false, 0, settings);
        assert(raw =~= render_docs(before, Seq::empty(), false, 0, settings) + nl_indent(Seq::empty()));
        assert(nl_indent(Seq::empty()) =~= seq!['\n']);
        assert(raw.len() > 0 && raw.last() == '\n');
        assert(rendered(doc, settings).last() == '\n');
        assert(rendered(doc, settings).len() > 0);
    }
    let r = render_to_string(&doc, &settings);
    assert(comments0.comments@.len() == 0 ==> doc_wf(doc) && doc_texts(doc) == program_texts(
        *program,
        settings,
    ) && r@ == rendered(doc, settings));
    r
}

/// Formats one expression on a line of its own, with the given
/// settings and comment index. The output ends with a newline; with no
/// comment in the index it is the rendering of a well-formed document
/// whose atom texts are exactly `expr_texts`.
pub fn format_expression_to_string(expr: &Expression, comments: CommentIndex, settings: Settings) -> (r: String)
    requires
        ci_wf(comments),
    ensures
        r@.len() > 0,
        r@[r@.len() - 1] == '\n',
        comments.comments@.len() == 0 ==> exists|d: Document|
            doc_wf(d) && #[trigger] doc_texts(d) == expr_texts(*expr, settings) && r@ == rendered(d, settings),
{
    let ghost comments0 = comments;
    let mut f = Formatter::new(settings, comments);
    let mut docs: Vec<Document> = Vec::new();
    assert(docs_wf(docs@));
    assert(docs_texts(docs@) =~= Seq::<Seq<char>>::empty());
    let d = format_expression(&mut f, expr);
    push_doc(&mut docs, d);
    let ghost before = docs@;
    push_doc(&mut docs, Document::Line(LineKind::Hard));
    let doc = Document::Array(docs);
    assert(doc_wf(doc));
    assert(comments0.comments@.len() == 0 ==> doc_texts(doc) =~= expr_texts(*expr, settings));
    proof {
        lemma_render_docs_push(before, Document::Line(LineKind::Hard), Seq::empty(), false, 0, settings);
        let raw = render_doc(doc, Seq::empty(), false, 0, settings);
        assert(raw =~= render_docs(before, Seq::empty(), false, 0, settings) + nl_indent(Seq::empty()));
        assert(nl_indent(Seq::empty()) =~= seq!['\n']);
        assert(raw.len() > 0 && raw.last() == '\n');
        assert(rendered(doc, settings).last() == '\n');
        assert(rendered(doc, settings).len() > 0);
    }
    let r = render_to_string(&doc, &settings);
    assert(comments0.comments@.len() == 0 ==> doc_wf(doc) && doc_texts(doc) == expr_texts(*expr, settings)
        && r@ == rendered(doc, settings));
    r
}

} // verus!
