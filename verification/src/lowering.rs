//! The atom texts each node formatter produces, as a function of the
//! tree and the settings alone. Line breaks, indents and groups carry
//! no text, so these sequences are what `doc_texts` yields of a
//! formatter's output whenever no comment stands in the index (a
//! comment's text is extra and is pinned by the comment index's own
//! contract).

use vstd::prelude::*;

use crate::ast::ArgumentList;
use crate::ast::CallExpr;
use crate::ast::Expression;
use crate::ast::Parameter;
use crate::ast::ParameterList;
use crate::ast::Program;
use crate::ast::Statement;
use crate::block::has_non_noop;
use crate::call::is_chain_expr;
use crate::call::spec_base_needs_parens;
use crate::document::sanitize;
use crate::settings::Settings;

verus! {

/// Raw tokens each followed by one space atom.
pub open spec fn list_sp_texts(vs: Seq<Vec<char>>) -> Seq<Seq<char>>
    decreases vs,
{
    if vs.len() == 0 {
        Seq::empty()
    } else {
        seq![sanitize(vs[0]@), seq![' ']] + list_sp_texts(vs.drop_first())
    }
}

/// Appending a token appends its text and a space.
pub proof fn lemma_list_sp_texts_push(vs: Seq<Vec<char>>, x: Vec<char>)
    ensures
        list_sp_texts(vs.push(x)) == list_sp_texts(vs) + seq![sanitize(x@), seq![' ']],
    decreases vs,
{
    reveal_with_fuel(list_sp_texts, 3);
    if vs.len() == 0 {
        assert(vs.push(x)[0] == x);
        assert(vs.push(x).drop_first() =~= Seq::<Vec<char>>::empty());
        assert(seq![sanitize(x@), seq![' ']] + Seq::<Seq<char>>::empty() =~= seq![sanitize(x@), seq![' ']]);
        assert(Seq::<Seq<char>>::empty() + seq![sanitize(x@), seq![' ']] =~= seq![sanitize(x@), seq![' ']]);
    } else {
        assert(vs.push(x)[0] == vs[0]);
        assert(vs.push(x).drop_first() =~= vs.drop_first().push(x));
        lemma_list_sp_texts_push(vs.drop_first(), x);
        assert(seq![sanitize(vs[0]@), seq![' ']] + (list_sp_texts(vs.drop_first()) + seq![sanitize(x@), seq![' ']])
            =~= (seq![sanitize(vs[0]@), seq![' ']] + list_sp_texts(vs.drop_first())) + seq![
            sanitize(x@),
            seq![' '],
        ]);
    }
}

/// One parameter's atom texts: attribute lists and modifiers each with
/// a following space, the name, and the hooks text behind a space.
pub open spec fn param_texts(p: Parameter) -> Seq<Seq<char>> {
    list_sp_texts(p.attribute_lists@) + list_sp_texts(p.modifiers@) + seq![sanitize(p.name@)] + (
    match p.hooks {
        Some(h) => seq![seq![' '], sanitize(h@)],
        None => Seq::empty(),
    })
}

/// The hug heuristic on the tree and settings alone: what `hug_spec`
/// gives when no comment exists.
pub open spec fn hug_pure(pl: ParameterList, st: Settings) -> bool {
    &&& pl.parameters@.len() == 1
    &&& pl.parameters@[0].attribute_lists@.len() == 0
    &&& pl.parameters@[0].hooks is None
    &&& !(pl.parameters@[0].modifiers@.len() > 0 && st.break_promoted_properties_list)
}

/// The separator texts between two parameters: the comma, and a space
/// atom when hugging (a conditional line otherwise, which has no text).
pub open spec fn sep_texts(hug: bool) -> Seq<Seq<char>> {
    if hug {
        seq![","@, seq![' ']]
    } else {
        seq![","@]
    }
}

/// The texts of the first `i` parameters with their separators, in the
/// order the formatter emits them.
pub open spec fn params_prefix_texts(ps: Seq<Parameter>, hug: bool, i: int) -> Seq<Seq<char>>
    decreases i,
{
    if i <= 0 {
        Seq::empty()
    } else {
        params_prefix_texts(ps, hug, i - 1) + param_texts(ps[i - 1]) + (if i < ps.len() {
            sep_texts(hug)
        } else {
            Seq::empty()
        })
    }
}

/// All parameters with their separators.
pub open spec fn params_seq_texts(ps: Seq<Parameter>, hug: bool) -> Seq<Seq<char>> {
    params_prefix_texts(ps, hug, ps.len() as int)
}

/// The whole parameter list: parentheses, the parameters, and the
/// conditional trailing comma (present as an atom exactly when the
/// list is non-empty, not hugged, and `trailing_comma` is set).
pub open spec fn params_list_texts(pl: ParameterList, st: Settings) -> Seq<Seq<char>> {
    let hug = hug_pure(pl, st);
    seq!["("@] + params_seq_texts(pl.parameters@, hug) + (if !hug && pl.parameters@.len() > 0
        && st.trailing_comma {
        seq![","@]
    } else {
        Seq::empty()
    }) + seq![")"@]
}

/// The texts of the first `i` arguments with comma separators.
pub open spec fn exprs_prefix_texts(es: Seq<Expression>, st: Settings, i: int) -> Seq<Seq<char>>
    decreases es, 1int, i,
{
    if i <= 0 || i > es.len() {
        Seq::empty()
    } else {
        exprs_prefix_texts(es, st, i - 1) + expr_texts(es[i - 1], st) + (if i < es.len() {
            seq![","@]
        } else {
            Seq::empty()
        })
    }
}

/// A call's argument list: parentheses, the comma-separated arguments,
/// and the conditional trailing comma of a multi-argument list.
pub open spec fn args_texts(al: ArgumentList, st: Settings) -> Seq<Seq<char>>
    decreases al, 2int,
{
    if al.arguments@.len() == 1 {
        seq!["("@] + expr_texts(al.arguments@[0], st) + seq![")"@]
    } else {
        seq!["("@] + exprs_prefix_texts(al.arguments@, st, al.arguments@.len() as int) + (if al.arguments@.len()
            > 0 && st.trailing_comma {
            seq![","@]
        } else {
            Seq::empty()
        }) + seq![")"@]
    }
}

/// A chain base, parenthesized exactly when `spec_base_needs_parens`
/// asks.
pub open spec fn base_texts(b: Expression, st: Settings) -> Seq<Seq<char>>
    decreases b, 4int,
{
    if spec_base_needs_parens(b) {
        seq!["("@] + expr_texts(b, st) + seq![")"@]
    } else {
        expr_texts(b, st)
    }
}

/// One chain link's own texts: the operator, the method name and the
/// argument list.
pub open spec fn link_texts(mc: crate::ast::MethodCall, null_safe: bool, st: Settings) -> Seq<Seq<char>>
    decreases mc, 1int,
{
    (if null_safe {
        seq!["?->"@, sanitize(mc.method@)]
    } else {
        seq!["->"@, sanitize(mc.method@)]
    }) + args_texts(mc.arguments, st)
}

/// One step of the chain walk: what stands below (the chain so far, or
/// the base), then the link itself.
pub open spec fn chain_step_texts(mc: crate::ast::MethodCall, null_safe: bool, st: Settings) -> Seq<Seq<char>>
    decreases mc, 2int,
{
    (if is_chain_expr(mc.object) {
        chain_texts(mc.object, st)
    } else {
        base_texts(mc.object, st)
    }) + link_texts(mc, null_safe, st)
}

/// A method-call chain: the base, then per link (innermost first) the
/// operator, the method name and the argument list.
pub open spec fn chain_texts(e: Expression, st: Settings) -> Seq<Seq<char>>
    decreases e, 0int,
{
    match e {
        Expression::Call(c) => match *c {
            CallExpr::Method(mc) => chain_step_texts(mc, false, st),
            CallExpr::NullSafeMethod(mc) => chain_step_texts(mc, true, st),
            _ => Seq::empty(),
        },
        _ => Seq::empty(),
    }
}

/// One expression's atom texts.
pub open spec fn expr_texts(e: Expression, st: Settings) -> Seq<Seq<char>>
    decreases e, 3int,
{
    match e {
        Expression::Variable(v) => seq![sanitize(v@)],
        Expression::Literal(v) => seq![sanitize(v@)],
        Expression::Binary(b) => expr_texts(b.lhs, st) + seq![seq![' '], sanitize(b.operator@), seq![' ']]
            + expr_texts(b.rhs, st),
        Expression::Assignment(b) => expr_texts(b.lhs, st) + seq![seq![' '], sanitize(b.operator@), seq![' ']]
            + expr_texts(b.rhs, st),
        Expression::UnaryPrefix(u) => seq![sanitize(u.operator@)] + expr_texts(u.operand, st),
        Expression::UnaryPostfix(u) => expr_texts(u.operand, st) + seq![sanitize(u.operator@)],
        Expression::Conditional(c) => expr_texts(c.condition, st) + (match c.consequence {
            Some(x) => seq![" ? "@] + expr_texts(x, st) + seq![" : "@],
            None => seq![" ?: "@],
        }) + expr_texts(c.alternative, st),
        Expression::Parenthesized(i) => seq!["("@] + expr_texts(*i, st) + seq![")"@],
        Expression::Instantiation(i) => seq!["new "@] + expr_texts(i.class, st) + (match i.arguments {
            Some(al) => args_texts(al, st),
            None => Seq::empty(),
        }),
        Expression::CloneOf(i) => seq!["clone "@] + expr_texts(*i, st),
        Expression::Yield(y) => match y.value {
            Some(v) => seq!["yield "@] + expr_texts(v, st),
            None => seq!["yield"@],
        },
        Expression::Closure(c) => seq!["function "@] + params_list_texts(c.parameters, st) + seq![seq![' ']]
            + block_texts(c.body@, st),
        Expression::ArrowFunction(a) => seq!["fn "@] + params_list_texts(a.parameters, st) + seq![" => "@]
            + expr_texts(a.body, st),
        Expression::Call(c) => match *c {
            CallExpr::Function(fc) => expr_texts(fc.callee, st) + args_texts(fc.arguments, st),
            CallExpr::StaticMethod(sc) => expr_texts(sc.class, st) + seq!["::"@, sanitize(sc.method@)]
                + args_texts(sc.arguments, st),
            CallExpr::Method(_) => chain_texts(e, st),
            CallExpr::NullSafeMethod(_) => chain_texts(e, st),
        },
    }
}

/// One statement's atom texts.
pub open spec fn stmt_texts(s: Statement, st: Settings) -> Seq<Seq<char>>
    decreases s, 4int,
{
    match s {
        Statement::Noop(_) => seq![";"@],
        Statement::Expression(es) => expr_texts(es.expression, st) + seq![";"@],
        Statement::Function(d) => seq!["function "@, sanitize(d.name@)] + params_list_texts(d.parameters, st)
            + seq![seq![' ']] + block_texts(d.body@, st),
        Statement::While(w) => seq!["while ("@] + expr_texts(w.condition, st) + seq![") "@] + stmt_texts(
            w.body,
            st,
        ),
        Statement::Return(r) => match r.value {
            Some(v) => seq!["return "@] + expr_texts(v, st) + seq![";"@],
            None => seq!["return"@, ";"@],
        },
        Statement::Block(b) => block_texts(b.statements@, st),
    }
}

/// A sequence of statements: their texts in order (the separating hard
/// lines carry no text).
pub open spec fn stmts_texts(ss: Seq<Statement>, st: Settings) -> Seq<Seq<char>>
    decreases ss, 0int,
{
    if ss.len() == 0 {
        Seq::empty()
    } else {
        stmt_texts(ss[0], st) + stmts_texts(ss.drop_first(), st)
    }
}

/// A statement block with its braces: a block whose statements all do
/// nothing renders empty, so only a block with a working statement
/// prints its statements.
pub open spec fn block_texts(ss: Seq<Statement>, st: Settings) -> Seq<Seq<char>>
    decreases ss, 1int,
{
    seq!["{"@] + (if has_non_noop(ss) {
        stmts_texts(ss, st)
    } else {
        Seq::empty()
    }) + seq!["}"@]
}

/// A whole program's atom texts.
pub open spec fn program_texts(p: Program, st: Settings) -> Seq<Seq<char>> {
    stmts_texts(p.statements@, st)
}

/// Appending a statement appends its texts.
pub proof fn lemma_stmts_texts_push(ss: Seq<Statement>, x: Statement, st: Settings)
    ensures
        stmts_texts(ss.push(x), st) == stmts_texts(ss, st) + stmt_texts(x, st),
    decreases ss,
{
    reveal_with_fuel(stmts_texts, 3);
    if ss.len() == 0 {
        assert(ss.push(x)[0] == x);
        assert(ss.push(x).drop_first() =~= Seq::<Statement>::empty());
        assert(stmt_texts(x, st) + Seq::<Seq<char>>::empty() =~= stmt_texts(x, st));
        assert(Seq::<Seq<char>>::empty() + stmt_texts(x, st) =~= stmt_texts(x, st));
    } else {
        assert(ss.push(x)[0] == ss[0]);
        assert(ss.push(x).drop_first() =~= ss.drop_first().push(x));
        lemma_stmts_texts_push(ss.drop_first(), x, st);
        assert(stmt_texts(ss[0], st) + (stmts_texts(ss.drop_first(), st) + stmt_texts(x, st)) =~= (stmt_texts(
            ss[0],
            st,
        ) + stmts_texts(ss.drop_first(), st)) + stmt_texts(x, st));
    }
}

} // verus!
