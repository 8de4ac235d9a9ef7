//! Function-like parameter lists: the hug-the-only-parameter
//! heuristic, the break-promoted policy, and the rendering with
//! trailing-comma discipline.

use vstd::prelude::*;

use crate::ast::Parameter;
use crate::ast::ParameterList;
use crate::comments::comment_matches;
use crate::comments::sel_dangling;
use crate::comments::CommentFlags;
use crate::context::fmt_wf;
use crate::context::same_frame;
use crate::context::Formatter;
use crate::document::atoms_only;
use crate::document::atoms_only_seq;
use crate::document::copy_chars;
use crate::document::doc_wf;
use crate::document::lemma_atoms_only_push;
use crate::document::docs_wf;
use crate::document::lemma_docs_texts_concat;
use crate::document::lemma_docs_wf_concat;
use crate::document::lemma_no_nl_from_pointwise;
use crate::document::push_doc;
use crate::document::sanitized_text;
use crate::document::Document;
use crate::document::LineKind;
use crate::context::no_comments;
use crate::document::doc_texts;
use crate::document::docs_texts;
use crate::document::sanitize;
use crate::layout::col_after;
use crate::layout::group_broken;
use crate::layout::nl_indent;
use crate::layout::render_doc;
use crate::layout::render_docs;
use crate::settings::Settings;
use crate::lowering::hug_pure;
use crate::lowering::lemma_list_sp_texts_push;
use crate::lowering::list_sp_texts;
use crate::lowering::param_texts;
use crate::lowering::params_list_texts;
use crate::lowering::params_prefix_texts;
use crate::lowering::params_seq_texts;
use crate::lowering::sep_texts;
use crate::span::spec_join;

verus! {

/// Every attachment flag set.
pub open spec fn all_flags() -> CommentFlags {
    CommentFlags { leading: true, trailing: true, dangling: true }
}

/// The hug heuristic: a single parameter with no comment anywhere
/// around it, no attribute lists, no hooks, and no modifiers when
/// promoted-property lists are broken.
pub open spec fn hug_spec(f: Formatter, pl: ParameterList) -> bool {
    &&& pl.parameters@.len() == 1
    &&& !(exists|i: int|
        0 <= i < f.comments.comments@.len() && comment_matches(
            f.comments.src@,
            #[trigger] f.comments.comments@[i],
            pl.parameters@[0].span,
            all_flags(),
        ))
    &&& pl.parameters@[0].attribute_lists@.len() == 0
    &&& pl.parameters@[0].hooks is None
    &&& !(pl.parameters@[0].modifiers@.len() > 0 && f.settings.break_promoted_properties_list)
}

/// Does any parameter declare a promoted property?
pub open spec fn any_promoted(ps: Seq<Parameter>) -> bool {
    exists|i: int| 0 <= i < ps.len() && (#[trigger] ps[i]).modifiers@.len() > 0
}

/// True exactly when the single parameter of the list should be hugged
/// (see `hug_spec`).
pub fn should_hug_the_only_parameter(f: &Formatter, pl: &ParameterList) -> (r: bool)
    requires
        fmt_wf(*f),
    ensures
        r == hug_spec(*f, *pl),
{
    if pl.parameters.len() != 1 {
        return false;
    }
    let p = &pl.parameters[0];
    if f.comments.has_comment(p.span, CommentFlags::all()) {
        return false;
    }
    if p.attribute_lists.len() > 0 || matches!(p.hooks, Some(_)) {
        return false;
    }
    if p.modifiers.len() > 0 && f.settings.break_promoted_properties_list {
        return false;
    }
    true
}

/// Formats one parameter: its attribute lists, modifiers and name,
/// separated by spaces, with its hooks text at the end when present.
pub fn format_parameter(f: &Formatter, p: &Parameter) -> (r: Document)
    ensures
        doc_wf(r),
        doc_texts(r) == param_texts(*p),
        atoms_only(r),
{
    let mut parts: Vec<Document> = Vec::new();
    assert(docs_wf(parts@));
    assert(docs_texts(parts@) =~= Seq::<Seq<char>>::empty());
    assert(atoms_only_seq(parts@));
    let na = p.attribute_lists.len();
    let mut i: usize = 0;
    while i < na
        invariant
            0 <= i <= na,
            docs_wf(parts@),
            atoms_only_seq(parts@),
            na == p.attribute_lists@.len(),
            docs_texts(parts@) =~= list_sp_texts(p.attribute_lists@.subrange(0, i as int)),
        decreases na - i,
    {
        let ghost before1 = parts@;
        push_doc(&mut parts, sanitized_text(copy_chars(&p.attribute_lists[i])));
        let ghost before2 = parts@;
        push_doc(&mut parts, Document::space());
        proof {
            lemma_atoms_only_push(before1, parts@[parts@.len() - 2]);
            lemma_atoms_only_push(before2, parts@[parts@.len() - 1]);
            assert(p.attribute_lists@.subrange(0, i as int).push(p.attribute_lists@[i as int]) =~= p
                .attribute_lists@.subrange(0, i + 1));
            lemma_list_sp_texts_push(p.attribute_lists@.subrange(0, i as int), p.attribute_lists@[i as int]);
            assert(docs_texts(parts@) =~= list_sp_texts(p.attribute_lists@.subrange(0, i + 1)));
        }
        i += 1;
    }
    assert(p.attribute_lists@.subrange(0, na as int) =~= p.attribute_lists@);
    let nm = p.modifiers.len();
    let mut j: usize = 0;
    while j < nm
        invariant
            0 <= j <= nm,
            docs_wf(parts@),
            atoms_only_seq(parts@),
            nm == p.modifiers@.len(),
            docs_texts(parts@) =~= list_sp_texts(p.attribute_lists@) + list_sp_texts(
                p.modifiers@.subrange(0, j as int),
            ),
        decreases nm - j,
    {
        let ghost before1 = parts@;
        push_doc(&mut parts, sanitized_text(copy_chars(&p.modifiers[j])));
        let ghost before2 = parts@;
        push_doc(&mut parts, Document::space());
        proof {
            lemma_atoms_only_push(before1, parts@[parts@.len() - 2]);
            lemma_atoms_only_push(before2, parts@[parts@.len() - 1]);
            assert(p.modifiers@.subrange(0, j as int).push(p.modifiers@[j as int]) =~= p.modifiers@.subrange(
                0,
                j + 1,
            ));
            lemma_list_sp_texts_push(p.modifiers@.subrange(0, j as int), p.modifiers@[j as int]);
            assert(docs_texts(parts@) =~= list_sp_texts(p.attribute_lists@) + list_sp_texts(
                p.modifiers@.subrange(0, j + 1),
            ));
        }
        j += 1;
    }
    assert(p.modifiers@.subrange(0, nm as int) =~= p.modifiers@);
    let ghost beforen = parts@;
    push_doc(&mut parts, sanitized_text(copy_chars(&p.name)));
    proof {
        lemma_atoms_only_push(beforen, parts@[parts@.len() - 1]);
    }
    match &p.hooks {
        Some(h) => {
            let ghost before1 = parts@;
            push_doc(&mut parts, Document::space());
            let ghost before2 = parts@;
            push_doc(&mut parts, sanitized_text(copy_chars(h)));
            proof {
                lemma_atoms_only_push(before1, before2[before2.len() - 1]);
                lemma_atoms_only_push(before2, parts@[parts@.len() - 1]);
            }
        },
        None => {},
    }
    assert(docs_texts(parts@) =~= param_texts(*p));
    assert(atoms_only_seq(parts@));
    Document::Array(parts)
}

/// Renders a parameter list. A hugged single parameter stands bare
/// between its parentheses. Otherwise the parameters are indented
/// behind a soft line, separated by commas and a line each (a blank
/// line of the original forces a break and is kept); with
/// `trailing_comma` a comma follows the last parameter exactly when
/// the group breaks, and never when the list is empty; the group's
/// break flag is forced by a promoted property when
/// `break_promoted_properties_list` is set. Under
/// `expand_first_argument` the parts stand in a bare array for the
/// caller to regroup.
pub fn print_function_like_parameters(f: &mut Formatter, pl: &ParameterList) -> (r: Document)
    requires
        fmt_wf(*old(f)),
    ensures
        fmt_wf(*final(f)),
        same_frame(*old(f), *final(f)),
        doc_wf(r),
        hug_spec(*old(f), *pl) ==> (r matches Document::Array(ps) && {
            &&& ps@.len() == 3
            &&& (ps@[0] matches Document::Text(t) && t@ == "("@)
            &&& (ps@[2] matches Document::Text(u) && u@ == ")"@)
            &&& atoms_only(r)
        }),
        no_comments(*old(f)) ==> doc_texts(r) == params_list_texts(*pl, old(f).settings),
        !hug_spec(*old(f), *pl) && old(f).expand_first_argument ==> r is Array,
        !hug_spec(*old(f), *pl) && !old(f).expand_first_argument ==> (r matches Document::Group(ps, sb) && {
            &&& sb == (old(f).settings.break_promoted_properties_list && any_promoted(pl.parameters@))
            &&& ps@.len() >= 3
            &&& (ps@[0] matches Document::Text(t) && t@ == "("@)
            &&& (ps@[ps@.len() - 1] matches Document::Text(u) && u@ == ")"@)
            &&& (pl.parameters@.len() == 0 ==> ps@.len() == 3)
            &&& (pl.parameters@.len() > 0 ==> ps@[1] is Indent)
            &&& (pl.parameters@.len() > 0 && old(f).settings.trailing_comma ==> (ps@[2] matches Document::IfBreak(
                th,
                el,
            ) && (*th matches Document::Text(c) && c@ == ","@) && *el == Document::Empty))
            &&& (pl.parameters@.len() > 0 && (forall|i: int|
                !sel_dangling(
                    old(f).comments,
                    spec_join(pl.left_parenthesis, pl.right_parenthesis),
                    i,
                )) ==> {
                &&& old(f).settings.trailing_comma ==> ps@.len() == 5 && ps@[3] == Document::Line(LineKind::Soft)
                &&& !old(f).settings.trailing_comma ==> ps@.len() == 4 && ps@[2] == Document::Line(
                    LineKind::Soft,
                )
            })
        }),
{
    proof {
        reveal_strlit("(");
        reveal_strlit(")");
        reveal_strlit(",");
        assert(forall|i: int| 0 <= i < ("("@).len() ==> ("("@)[i] != '\n');
        lemma_no_nl_from_pointwise("("@);
        assert(forall|i: int| 0 <= i < (")"@).len() ==> (")"@)[i] != '\n');
        lemma_no_nl_from_pointwise(")"@);
        assert(forall|i: int| 0 <= i < (","@).len() ==> (","@)[i] != '\n');
        lemma_no_nl_from_pointwise(","@);
    }
    let should_hug = should_hug_the_only_parameter(f, pl);
    let mut promoted = false;
    let np = pl.parameters.len();
    let mut k: usize = 0;
    while k < np
        invariant
            0 <= k <= np,
            np == pl.parameters@.len(),
            promoted == (exists|i: int| 0 <= i < k && (#[trigger] pl.parameters@[i]).modifiers@.len() > 0),
        decreases np - k,
    {
        if pl.parameters[k].is_promoted_property() {
            assert(pl.parameters@[k as int].modifiers@.len() > 0);
            promoted = true;
        }
        k += 1;
    }
    let should_break = !should_hug && f.settings.break_promoted_properties_list && promoted;

    let mut printed: Vec<Document> = Vec::new();
    assert(docs_wf(printed@));
    assert(docs_texts(printed@) =~= params_prefix_texts(pl.parameters@, should_hug, 0));
    let mut i: usize = 0;
    while i < np
        invariant
            0 <= i <= np,
            np == pl.parameters@.len(),
            fmt_wf(*f),
            same_frame(*old(f), *f),
            docs_wf(printed@),
            should_hug ==> atoms_only_seq(printed@),
            np == 1 ==> printed@.len() == i,
            docs_texts(printed@) =~= params_prefix_texts(pl.parameters@, should_hug, i as int),
        decreases np - i,
    {
        proof {
            reveal_strlit(",");
            assert(forall|q: int| 0 <= q < (","@).len() ==> (","@)[q] != '\n');
            lemma_no_nl_from_pointwise(","@);
        }
        let ghost pbefore = printed@;
        let d = format_parameter(f, &pl.parameters[i]);
        push_doc(&mut printed, d);
        proof {
            if should_hug {
                lemma_atoms_only_push(pbefore, printed@[printed@.len() - 1]);
            }
        }
        if i + 1 < np {
            let ghost pb2 = printed@;
            push_doc(&mut printed, Document::text(","));
            proof {
                if should_hug {
                    lemma_atoms_only_push(pb2, printed@[printed@.len() - 1]);
                }
            }
            if should_hug {
                let ghost pb3 = printed@;
                push_doc(&mut printed, Document::space());
                proof {
                    lemma_atoms_only_push(pb3, printed@[printed@.len() - 1]);
                }
            } else {
                push_doc(&mut printed, Document::Line(LineKind::Default));
                if f.comments.is_next_line_empty(pl.parameters[i].span) {
                    push_doc(&mut printed, Document::BreakParent);
                    push_doc(&mut printed, Document::Line(LineKind::Hard));
                }
            }
        }
        assert(docs_texts(printed@) =~= params_prefix_texts(pl.parameters@, should_hug, i + 1));
        i += 1;
    }
    assert(docs_texts(printed@) =~= params_seq_texts(pl.parameters@, should_hug));
    assert(no_comments(*old(f)) ==> should_hug == hug_pure(*pl, old(f).settings));

    if should_hug {
        let mut contents: Vec<Document> = Vec::new();
        assert(docs_wf(contents@));
        push_doc(&mut contents, Document::text("("));
        proof {
            lemma_docs_wf_concat(contents@, printed@);
            lemma_docs_texts_concat(contents@, printed@);
        }
        let mut printed = printed;
        contents.append(&mut printed);
        assert(contents@.len() == 2);
        push_doc(&mut contents, Document::text(")"));
        assert(no_comments(*old(f)) ==> docs_texts(contents@) =~= params_list_texts(*pl, old(f).settings));
        assert(atoms_only_seq(contents@)) by {
            assert(atoms_only(contents@[0]));
            assert(atoms_only(contents@[1]));
            assert(atoms_only(contents@[2]));
            reveal_with_fuel(atoms_only_seq, 5);
            assert(contents@.drop_first()[0] == contents@[1]);
            assert(contents@.drop_first().drop_first()[0] == contents@[2]);
            assert(contents@.drop_first().drop_first().drop_first() =~= Seq::<Document>::empty());
        }
        return Document::Array(contents);
    }

    let mut parts: Vec<Document> = Vec::new();
    assert(docs_wf(parts@));
    push_doc(&mut parts, Document::text("("));
    if np > 0 {
        let mut inner: Vec<Document> = Vec::new();
        assert(docs_wf(inner@));
        push_doc(&mut inner, Document::Line(LineKind::Soft));
        proof {
            lemma_docs_wf_concat(inner@, printed@);
            lemma_docs_texts_concat(inner@, printed@);
        }
        let mut printed = printed;
        inner.append(&mut printed);
        push_doc(&mut parts, Document::Indent(inner));
        if f.settings.trailing_comma {
            let comma = Document::text(",");
            assert(doc_wf(comma));
            let ghost comma_texts = doc_texts(comma);
            let b1 = Box::new(comma);
            assert(doc_wf(*b1));
            let b2 = Box::new(Document::Empty);
            assert(doc_wf(*b2));
            let ib = Document::IfBreak(b1, b2);
            assert(ib matches Document::IfBreak(t, e) && doc_wf(*t) && doc_wf(*e) && doc_texts(*t)
                == comma_texts && doc_texts(*e) =~= Seq::<Seq<char>>::empty());
            assert(doc_wf(ib));
            assert(doc_texts(ib) =~= comma_texts);
            push_doc(&mut parts, ib);
        }
    }
    let joined = pl.left_parenthesis.join(pl.right_parenthesis);
    match f.comments.print_dangling_comments(joined, true) {
        Some(c) => {
            assert(!no_comments(*old(f)));
            push_doc(&mut parts, c);
        },
        None => {
            push_doc(&mut parts, Document::Line(LineKind::Soft));
        },
    }
    push_doc(&mut parts, Document::text(")"));
    assert(no_comments(*old(f)) ==> docs_texts(parts@) =~= params_list_texts(*pl, old(f).settings));
    if f.expand_first_argument {
        Document::Array(parts)
    } else {
        Document::Group(parts, should_break)
    }
}

/// Trailing-comma discipline, at the rendering level. A parameter
/// list of the shape built above when no dangling comment interferes —
/// the conditional comma, then a closing soft line and `)` — renders,
/// when its group breaks, to text that ends with a comma, a newline
/// with the current indentation, and `)`; when the group stays flat,
/// the text simply ends with `)` and the conditional comma vanishes.
pub proof fn lemma_trailing_comma_discipline(
    d: Document,
    ind: Seq<char>,
    broken: bool,
    col: nat,
    st: Settings,
)
    requires
        d matches Document::Group(ps, b) && {
            &&& ps@.len() == 5
            &&& (ps@[2] matches Document::IfBreak(th, el) && (*th matches Document::Text(c) && c@ == ","@)
                && *el == Document::Empty)
            &&& ps@[3] == Document::Line(LineKind::Soft)
            &&& (ps@[4] matches Document::Text(u) && u@ == ")"@)
        },
    ensures
        d matches Document::Group(ps, b) && {
            &&& render_doc(d, ind, broken, col, st) == render_docs(
                ps@,
                ind,
                group_broken(ps@, b, col, st),
                col,
                st,
            )
            &&& (group_broken(ps@, b, col, st) ==> {
                let out = render_docs(ps@, ind, true, col, st);
                &&& out.len() >= 3 + ind.len()
                &&& out.subrange(out.len() - 3 - ind.len(), out.len() as int) == seq![','] + nl_indent(ind)
                    + seq![')']
            })
            &&& (!group_broken(ps@, b, col, st) ==> {
                let out = render_docs(ps@, ind, false, col, st);
                &&& out.len() >= 1
                &&& out.last() == ')'
            })
        },
{
    reveal_strlit(",");
    reveal_strlit(")");
    match d {
        Document::Group(ps, b) => {
            reveal_with_fuel(render_docs, 7);
            let s0 = ps@;
            let s1 = s0.drop_first();
            let s2 = s1.drop_first();
            let s3 = s2.drop_first();
            let s4 = s3.drop_first();
            let s5 = s4.drop_first();
            assert(s1[0] == s0[1] && s2[0] == s0[2] && s3[0] == s0[3] && s4[0] == s0[4]);
            assert(s5.len() == 0);
            let gbs = seq![true, false];
            assert forall|k: int| 0 <= k < 2 implies trailing_tail_shape(s0, ind, gbs[k], col, st) by {
                let gb = gbs[k];
                let r0 = render_doc(s0[0], ind, gb, col, st);
                let c1 = col_after(col, r0);
                let r1 = render_doc(s0[1], ind, gb, c1, st);
                let c2 = col_after(c1, r1);
                let r2 = render_doc(s0[2], ind, gb, c2, st);
                let c3 = col_after(c2, r2);
                let r3 = render_doc(s0[3], ind, gb, c3, st);
                let c4 = col_after(c3, r3);
                let r4 = render_doc(s0[4], ind, gb, c4, st);
                assert(render_docs(s5, ind, gb, col_after(c4, r4), st) =~= Seq::<char>::empty());
                assert(render_docs(s0, ind, gb, col, st) =~= r0 + (r1 + (r2 + (r3 + (r4
                    + Seq::<char>::empty())))));
                if gb {
                    assert(r2 =~= seq![',']);
                    assert(r3 =~= nl_indent(ind));
                    assert(r4 =~= seq![')']);
                    let head = r0 + r1;
                    let tail = seq![','] + nl_indent(ind) + seq![')'];
                    assert(render_docs(s0, ind, gb, col, st) =~= head + tail);
                    assert(tail.len() == 3 + ind.len());
                    let out = render_docs(s0, ind, gb, col, st);
                    assert(out.subrange(out.len() - 3 - ind.len(), out.len() as int) =~= tail);
                } else {
                    assert(r2 =~= Seq::<char>::empty());
                    assert(r3 =~= Seq::<char>::empty());
                    assert(r4 =~= seq![')']);
                    let head = r0 + r1;
                    assert(render_docs(s0, ind, gb, col, st) =~= head + seq![')']);
                    let out = render_docs(s0, ind, gb, col, st);
                    assert(out.last() == ')');
                }
            }
            assert(trailing_tail_shape(s0, ind, true, col, st));
            assert(trailing_tail_shape(s0, ind, false, col, st));
        },
        _ => {},
    }
}

/// The shape `lemma_trailing_comma_discipline` establishes for one
/// rendering mode.
pub open spec fn trailing_tail_shape(
    ps: Seq<Document>,
    ind: Seq<char>,
    gb: bool,
    col: nat,
    st: Settings,
) -> bool {
    let out = render_docs(ps, ind, gb, col, st);
    if gb {
        out.len() >= 3 + ind.len() && out.subrange(out.len() - 3 - ind.len(), out.len() as int) == seq![',']
            + nl_indent(ind) + seq![')']
    } else {
        out.len() >= 1 && out.last() == ')'
    }
}

} // verus!
