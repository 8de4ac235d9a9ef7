//! The layout engine: renders a `Document` to text, choosing flat or
//! broken mode per group so that the output respects the print width.
//!
//! The rendered text is specified exactly by `rendered`: a recursive
//! interpretation of the document followed by removal of trailing
//! whitespace on every line. A group renders flat when its break flag
//! is unset, no break signal (hard line or `BreakParent`) is reachable
//! inside it, and its flat width fits in the space left on the line.

use vstd::prelude::*;

use crate::document::atoms_only;
use crate::document::atoms_only_seq;
use crate::document::copy_chars;
use crate::document::doc_wf;
use crate::document::docs_wf;
use crate::document::lemma_docs_wf_index;
use crate::document::Document;
use crate::document::LineKind;
use crate::settings::Settings;

verus! {

/// The column reached after printing `s` starting at column `c`:
/// characters printed since the last newline, or `c` plus all of them
/// when `s` has no newline. Every character counts as one column.
pub open spec fn col_after(c: nat, s: Seq<char>) -> nat
    decreases s.len(),
{
    if s.len() == 0 {
        c
    } else if s.last() == '\n' {
        0
    } else {
        col_after(c, s.drop_last()) + 1
    }
}

/// One level of indentation: a tab, or `tab_width` spaces.
pub open spec fn one_level(st: Settings) -> Seq<char> {
    if st.use_tabs {
        seq!['\t']
    } else {
        Seq::new(st.tab_width as nat, |i: int| ' ')
    }
}

/// A newline followed by the current indentation.
pub open spec fn nl_indent(ind: Seq<char>) -> Seq<char> {
    seq!['\n'] + ind
}

/// An indentation prefix holds only spaces and tabs.
pub open spec fn indent_wf(ind: Seq<char>) -> bool {
    forall|i: int| 0 <= i < ind.len() ==> ind[i] == ' ' || ind[i] == '\t'
}

/// Does `d` force every enclosing group to break? True for a hard line
/// and for `BreakParent`, and propagated through indents, arrays and
/// nested groups. Content under `IfBreak` is conditional and propagates
/// nothing.
pub open spec fn doc_breaks(d: Document) -> bool
    decreases d,
{
    match d {
        Document::Text(_) => false,
        Document::Line(k) => k == LineKind::Hard,
        Document::Indent(ds) => docs_break(ds@),
        Document::Group(ds, b) => b || docs_break(ds@),
        Document::IfBreak(_, _) => false,
        Document::BreakParent => true,
        Document::Array(ds) => docs_break(ds@),
        Document::Empty => false,
    }
}

/// Some document of the sequence forces a break.
pub open spec fn docs_break(ds: Seq<Document>) -> bool
    decreases ds,
{
    if ds.len() == 0 {
        false
    } else {
        doc_breaks(ds[0]) || docs_break(ds.drop_first())
    }
}

/// Can `d` render flat at all? False as soon as flat rendering would
/// print a hard line, meet a `BreakParent`, or enter a group whose
/// break flag is forced.
pub open spec fn flat_fits(d: Document) -> bool
    decreases d,
{
    match d {
        Document::Text(_) => true,
        Document::Line(k) => k != LineKind::Hard,
        Document::Indent(ds) => flats_fit(ds@),
        Document::Group(ds, b) => !b && flats_fit(ds@),
        Document::IfBreak(_, e) => flat_fits(*e),
        Document::BreakParent => false,
        Document::Array(ds) => flats_fit(ds@),
        Document::Empty => true,
    }
}

/// All documents of the sequence can render flat.
pub open spec fn flats_fit(ds: Seq<Document>) -> bool
    decreases ds,
{
    if ds.len() == 0 {
        true
    } else {
        flat_fits(ds[0]) && flats_fit(ds.drop_first())
    }
}

/// The width `d` takes when rendered flat: a soft line takes nothing,
/// a default line one space, and an `IfBreak` its flat branch.
pub open spec fn flat_width(d: Document) -> nat
    decreases d,
{
    match d {
        Document::Text(s) => s@.len(),
        Document::Line(k) => if k == LineKind::Default {
            1
        } else {
            0
        },
        Document::Indent(ds) => flat_width_seq(ds@),
        Document::Group(ds, _) => flat_width_seq(ds@),
        Document::IfBreak(_, e) => flat_width(*e),
        Document::BreakParent => 0,
        Document::Array(ds) => flat_width_seq(ds@),
        Document::Empty => 0,
    }
}

/// The flat width of a sequence of documents.
pub open spec fn flat_width_seq(ds: Seq<Document>) -> nat
    decreases ds,
{
    if ds.len() == 0 {
        0
    } else {
        flat_width(ds[0]) + flat_width_seq(ds.drop_first())
    }
}

/// The mode a group renders in: broken when its flag is set, when a
/// break signal is reachable inside, or when its content does not fit
/// flat in the width that remains of the line.
pub open spec fn group_broken(ds: Seq<Document>, force: bool, col: nat, st: Settings) -> bool {
    force || docs_break(ds) || !(flats_fit(ds) && col + flat_width_seq(ds) <= st.print_width)
}

/// The text `d` renders to, before trailing whitespace is removed.
/// `ind` is the current indentation, `broken` the mode of the
/// enclosing group, `col` the current column.
pub open spec fn render_doc(d: Document, ind: Seq<char>, broken: bool, col: nat, st: Settings) -> Seq<char>
    decreases d,
{
    match d {
        Document::Text(s) => s@,
        Document::Line(k) => match k {
            LineKind::Hard => nl_indent(ind),
            LineKind::Soft => if broken {
                nl_indent(ind)
            } else {
                Seq::empty()
            },
            LineKind::Default => if broken {
                nl_indent(ind)
            } else {
                seq![' ']
            },
        },
        Document::Indent(ds) => render_docs(ds@, ind + one_level(st), broken, col, st),
        Document::Group(ds, b) => render_docs(ds@, ind, group_broken(ds@, b, col, st), col, st),
        Document::IfBreak(t, e) => if broken {
            render_doc(*t, ind, broken, col, st)
        } else {
            render_doc(*e, ind, broken, col, st)
        },
        Document::BreakParent => Seq::empty(),
        Document::Array(ds) => render_docs(ds@, ind, broken, col, st),
        Document::Empty => Seq::empty(),
    }
}

/// Renders the documents of a sequence one after the other, threading
/// the column through.
pub open spec fn render_docs(ds: Seq<Document>, ind: Seq<char>, broken: bool, col: nat, st: Settings) -> Seq<char>
    decreases ds,
{
    if ds.len() == 0 {
        Seq::empty()
    } else {
        let head = render_doc(ds[0], ind, broken, col, st);
        head + render_docs(ds.drop_first(), ind, broken, col_after(col, head), st)
    }
}

/// Strips the run of spaces and tabs at the end of `s`.
pub open spec fn strip_ws_end(s: Seq<char>) -> Seq<char>
    decreases s.len(),
{
    if s.len() > 0 && (s.last() == ' ' || s.last() == '\t') {
        strip_ws_end(s.drop_last())
    } else {
        s
    }
}

/// Removes the spaces and tabs that stand immediately before each
/// newline, so that no line ends in whitespace.
pub open spec fn trimmed(s: Seq<char>) -> Seq<char>
    decreases s.len(),
{
    if s.len() == 0 {
        Seq::empty()
    } else if s.last() == '\n' {
        strip_ws_end(trimmed(s.drop_last())) + seq!['\n']
    } else {
        trimmed(s.drop_last()) + seq![s.last()]
    }
}

/// The full contract of the layout engine: the rendered document, with
/// trailing whitespace removed from every line. Rendering starts with
/// no indentation, in flat mode, at column zero.
pub open spec fn rendered(d: Document, st: Settings) -> Seq<char> {
    trimmed(render_doc(d, Seq::empty(), false, 0, st))
}

// ---------------------------------------------------------------------
// Lemmas about the specification.
// ---------------------------------------------------------------------

/// Columns compose over concatenation.
pub proof fn lemma_col_after_concat(c: nat, a: Seq<char>, b: Seq<char>)
    ensures
        col_after(c, a + b) == col_after(col_after(c, a), b),
    decreases b.len(),
{
    if b.len() == 0 {
        assert(a + b =~= a);
    } else {
        assert((a + b).drop_last() =~= a + b.drop_last());
        assert((a + b).last() == b.last());
        lemma_col_after_concat(c, a, b.drop_last());
    }
}

/// Printing newline-free text advances the column by its length.
pub proof fn lemma_col_after_no_nl(c: nat, s: Seq<char>)
    requires
        !s.contains('\n'),
    ensures
        col_after(c, s) == c + s.len(),
    decreases s.len(),
{
    if s.len() > 0 {
        assert(!s.drop_last().contains('\n')) by {
            if s.drop_last().contains('\n') {
                let i = choose|i: int| 0 <= i < s.drop_last().len() && s.drop_last()[i] == '\n';
                assert(s[i] == '\n');
            }
        }
        assert(s.last() != '\n');
        lemma_col_after_no_nl(c, s.drop_last());
    }
}

/// The column never exceeds the start column plus the printed length.
pub proof fn lemma_col_after_le(c: nat, s: Seq<char>)
    ensures
        col_after(c, s) <= c + s.len(),
    decreases s.len(),
{
    if s.len() > 0 {
        lemma_col_after_le(c, s.drop_last());
    }
}

/// Whitespace-only indentation contains no newline.
pub proof fn lemma_indent_no_nl(ind: Seq<char>)
    requires
        indent_wf(ind),
    ensures
        !ind.contains('\n'),
{
    if ind.contains('\n') {
        let i = choose|i: int| 0 <= i < ind.len() && ind[i] == '\n';
        assert(ind[i] == ' ' || ind[i] == '\t');
    }
}

/// Appending a document to a sequence appends its break signal.
pub proof fn lemma_docs_break_push(ds: Seq<Document>, x: Document)
    ensures
        docs_break(ds.push(x)) == (docs_break(ds) || doc_breaks(x)),
    decreases ds,
{
    reveal_with_fuel(docs_break, 3);
    if ds.len() == 0 {
        assert(ds.push(x)[0] == x);
        assert(ds.push(x).drop_first() =~= Seq::<Document>::empty());
    } else {
        assert(ds.push(x)[0] == ds[0]);
        assert(ds.push(x).drop_first() =~= ds.drop_first().push(x));
        lemma_docs_break_push(ds.drop_first(), x);
    }
}

/// Appending a document extends flat fitting and flat width.
pub proof fn lemma_flats_push(ds: Seq<Document>, x: Document)
    ensures
        flats_fit(ds.push(x)) == (flats_fit(ds) && flat_fits(x)),
        flat_width_seq(ds.push(x)) == flat_width_seq(ds) + flat_width(x),
    decreases ds,
{
    reveal_with_fuel(flats_fit, 3);
    reveal_with_fuel(flat_width_seq, 3);
    if ds.len() == 0 {
        assert(ds.push(x)[0] == x);
        assert(ds.push(x).drop_first() =~= Seq::<Document>::empty());
    } else {
        assert(ds.push(x)[0] == ds[0]);
        assert(ds.push(x).drop_first() =~= ds.drop_first().push(x));
        lemma_flats_push(ds.drop_first(), x);
    }
}

/// Appending a document to a sequence appends its rendering, at the
/// column reached after the sequence.
pub proof fn lemma_render_docs_push(
    ds: Seq<Document>,
    x: Document,
    ind: Seq<char>,
    broken: bool,
    col: nat,
    st: Settings,
)
    ensures
        render_docs(ds.push(x), ind, broken, col, st) == render_docs(ds, ind, broken, col, st) + render_doc(
            x,
            ind,
            broken,
            col_after(col, render_docs(ds, ind, broken, col, st)),
            st,
        ),
    decreases ds,
{
    reveal_with_fuel(render_docs, 3);
    if ds.len() == 0 {
        assert(ds.push(x)[0] == x);
        assert(ds.push(x).drop_first() =~= Seq::<Document>::empty());
        assert(render_docs(ds, ind, broken, col, st) =~= Seq::<char>::empty());
        assert(Seq::empty() + render_doc(x, ind, broken, col, st) =~= render_doc(x, ind, broken, col, st));
        assert(render_doc(x, ind, broken, col, st) + Seq::<char>::empty() =~= render_doc(x, ind, broken, col, st));
    } else {
        assert(ds.push(x)[0] == ds[0]);
        assert(ds.push(x).drop_first() =~= ds.drop_first().push(x));
        let h = render_doc(ds[0], ind, broken, col, st);
        let c1 = col_after(col, h);
        lemma_render_docs_push(ds.drop_first(), x, ind, broken, c1, st);
        let r1 = render_docs(ds.drop_first(), ind, broken, c1, st);
        lemma_col_after_concat(col, h, r1);
        assert(h + r1 =~= render_docs(ds, ind, broken, col, st));
        let tail = render_doc(x, ind, broken, col_after(c1, r1), st);
        assert(h + (r1 + tail) =~= (h + r1) + tail);
    }
}

/// Break propagation: a group that carries the break flag or contains
/// a reachable break signal renders its children in break mode, for
/// every width, column and indentation.
pub proof fn lemma_break_propagation(
    d: Document,
    ind: Seq<char>,
    broken: bool,
    col: nat,
    st: Settings,
)
    requires
        d matches Document::Group(ds, b) && (b || docs_break(ds@)),
    ensures
        d matches Document::Group(ds, b) ==> render_doc(d, ind, broken, col, st) == render_docs(
            ds@,
            ind,
            true,
            col,
            st,
        ),
{
}

/// Flat rendering is exact: a well-formed document that can render
/// flat and fits in the width that remains prints no newline and takes
/// exactly its flat width; no break signal is reachable in it.
pub proof fn lemma_flat_render_width(d: Document, ind: Seq<char>, col: nat, st: Settings)
    requires
        doc_wf(d),
        flat_fits(d),
        col + flat_width(d) <= st.print_width,
    ensures
        !doc_breaks(d),
        render_doc(d, ind, false, col, st).len() == flat_width(d),
        !render_doc(d, ind, false, col, st).contains('\n'),
    decreases d,
{
    match d {
        Document::Text(_) => {},
        Document::Line(k) => {
            if k == LineKind::Default {
                assert(!seq![' '].contains('\n')) by {
                    if seq![' '].contains('\n') {
                        let i = choose|i: int| 0 <= i < 1 && seq![' '][i] == '\n';
                    }
                }
            } else {
                assert(!Seq::<char>::empty().contains('\n')) by {
                    if Seq::<char>::empty().contains('\n') {
                        let i = choose|i: int| 0 <= i < 0 && Seq::<char>::empty()[i] == '\n';
                    }
                }
            }
        },
        Document::Indent(ds) => {
            lemma_flat_render_width_seq(ds@, ind + one_level(st), col, st);
        },
        Document::Array(ds) => {
            lemma_flat_render_width_seq(ds@, ind, col, st);
        },
        Document::Group(ds, b) => {
            lemma_flat_render_width_seq(ds@, ind, col, st);
            assert(!group_broken(ds@, b, col, st));
        },
        Document::IfBreak(t, e) => {
            lemma_flat_render_width(*e, ind, col, st);
        },
        Document::BreakParent => {
            assert(false);
        },
        Document::Empty => {
            assert(!Seq::<char>::empty().contains('\n')) by {
                if Seq::<char>::empty().contains('\n') {
                    let i = choose|i: int| 0 <= i < 0 && Seq::<char>::empty()[i] == '\n';
                }
            }
        },
    }
}

/// The sequence form of `lemma_flat_render_width`.
pub proof fn lemma_flat_render_width_seq(ds: Seq<Document>, ind: Seq<char>, col: nat, st: Settings)
    requires
        docs_wf(ds),
        flats_fit(ds),
        col + flat_width_seq(ds) <= st.print_width,
    ensures
        !docs_break(ds),
        render_docs(ds, ind, false, col, st).len() == flat_width_seq(ds),
        !render_docs(ds, ind, false, col, st).contains('\n'),
    decreases ds,
{
    if ds.len() == 0 {
        assert(!Seq::<char>::empty().contains('\n')) by {
            if Seq::<char>::empty().contains('\n') {
                let i = choose|i: int| 0 <= i < 0 && Seq::<char>::empty()[i] == '\n';
            }
        }
    } else {
        lemma_flat_render_width(ds[0], ind, col, st);
        let h = render_doc(ds[0], ind, false, col, st);
        lemma_col_after_no_nl(col, h);
        lemma_flat_render_width_seq(ds.drop_first(), ind, col + flat_width(ds[0]), st);
        let r = render_docs(ds.drop_first(), ind, false, col_after(col, h), st);
        assert(!(h + r).contains('\n')) by {
            if (h + r).contains('\n') {
                let i = choose|i: int| 0 <= i < (h + r).len() && (h + r)[i] == '\n';
                if i < h.len() {
                    assert(h[i] == '\n');
                } else {
                    assert(r[i - h.len()] == '\n');
                }
            }
        }
    }
}

/// Width respect: a group whose content can render flat within the
/// space left on the line renders it flat, with no newline, and the
/// line stays within the print width. This per-group guarantee is the
/// one the engine gives: a line made of several atoms with no break
/// point between them (two long atoms side by side in a bare array, a
/// hugged argument) can exceed the width even though no single atom
/// does, so no claim is made of lines that offer the engine no place
/// to break.
pub proof fn lemma_group_width_respect(d: Document, ind: Seq<char>, broken: bool, col: nat, st: Settings)
    requires
        doc_wf(d),
        d matches Document::Group(ds, b) && !b && flats_fit(ds@) && col + flat_width_seq(ds@)
            <= st.print_width,
    ensures
        col + render_doc(d, ind, broken, col, st).len() <= st.print_width,
        !render_doc(d, ind, broken, col, st).contains('\n'),
{
    match d {
        Document::Group(ds, b) => {
            lemma_flat_render_width_seq(ds@, ind, col, st);
            assert(!group_broken(ds@, b, col, st));
        },
        _ => {},
    }
}

/// A well-formed document of atoms alone renders with no newline, in
/// either mode: nothing in it can break a line.
pub proof fn lemma_atoms_only_render(d: Document, ind: Seq<char>, broken: bool, col: nat, st: Settings)
    requires
        doc_wf(d),
        atoms_only(d),
    ensures
        !render_doc(d, ind, broken, col, st).contains('\n'),
    decreases d,
{
    match d {
        Document::Text(_) => {},
        Document::Indent(ds) => {
            lemma_atoms_only_render_seq(ds@, ind + one_level(st), broken, col, st);
        },
        Document::Array(ds) => {
            lemma_atoms_only_render_seq(ds@, ind, broken, col, st);
        },
        Document::Group(ds, b) => {
            lemma_atoms_only_render_seq(ds@, ind, group_broken(ds@, b, col, st), col, st);
        },
        Document::Empty => {
            assert(!Seq::<char>::empty().contains('\n')) by {
                if Seq::<char>::empty().contains('\n') {
                    let i = choose|i: int| 0 <= i < 0 && Seq::<char>::empty()[i] == '\n';
                }
            }
        },
        _ => {
            assert(false);
        },
    }
}

/// The sequence form of `lemma_atoms_only_render`.
pub proof fn lemma_atoms_only_render_seq(ds: Seq<Document>, ind: Seq<char>, broken: bool, col: nat, st: Settings)
    requires
        docs_wf(ds),
        atoms_only_seq(ds),
    ensures
        !render_docs(ds, ind, broken, col, st).contains('\n'),
    decreases ds,
{
    if ds.len() == 0 {
        assert(!Seq::<char>::empty().contains('\n')) by {
            if Seq::<char>::empty().contains('\n') {
                let i = choose|i: int| 0 <= i < 0 && Seq::<char>::empty()[i] == '\n';
            }
        }
    } else {
        lemma_atoms_only_render(ds[0], ind, broken, col, st);
        let h = render_doc(ds[0], ind, broken, col, st);
        lemma_atoms_only_render_seq(ds.drop_first(), ind, broken, col_after(col, h), st);
        let r = render_docs(ds.drop_first(), ind, broken, col_after(col, h), st);
        assert(!(h + r).contains('\n')) by {
            if (h + r).contains('\n') {
                let i = choose|i: int| 0 <= i < (h + r).len() && (h + r)[i] == '\n';
                if i < h.len() {
                    assert(h[i] == '\n');
                } else {
                    assert(r[i - h.len()] == '\n');
                }
            }
        }
    }
}

// ---------------------------------------------------------------------
// Executable engine.
// ---------------------------------------------------------------------

/// Appends the characters of `s` to `out`.
fn push_chars(out: &mut Vec<char>, s: &Vec<char>)
    ensures
        final(out)@ == old(out)@ + s@,
{
    let mut i: usize = 0;
    while i < s.len()
        invariant
            0 <= i <= s.len(),
            out@ =~= old(out)@ + s@.subrange(0, i as int),
        decreases s.len() - i,
    {
        out.push(s[i]);
        assert(s@.subrange(0, i as int).push(s@[i as int]) =~= s@.subrange(0, i + 1));
        i += 1;
    }
    assert(s@.subrange(0, s.len() as int) =~= s@);
}

/// The current indentation extended by one level.
fn extend_indent(ind: &Vec<char>, st: &Settings) -> (r: Vec<char>)
    ensures
        r@ == ind@ + one_level(*st),
{
    let mut r = copy_chars(ind);
    if st.use_tabs {
        r.push('\t');
        assert(r@ =~= ind@ + one_level(*st));
    } else {
        let mut j: u8 = 0;
        while j < st.tab_width
            invariant
                0 <= j <= st.tab_width,
                r@ =~= ind@ + Seq::new(j as nat, |i: int| ' '),
            decreases st.tab_width - j,
        {
            r.push(' ');
            assert(Seq::new(j as nat, |i: int| ' ').push(' ') =~= Seq::new((j + 1) as nat, |i: int| ' '));
            j += 1;
        }
        assert(r@ =~= ind@ + one_level(*st));
    }
    r
}

/// Does `d` force its enclosing groups to break?
fn doc_breaks_exec(d: &Document) -> (r: bool)
    ensures
        r == doc_breaks(*d),
    decreases *d,
{
    match d {
        Document::Text(_) => false,
        Document::Line(k) => *k == LineKind::Hard,
        Document::Indent(ds) => docs_break_exec(ds),
        Document::Group(ds, b) => *b || docs_break_exec(ds),
        Document::IfBreak(_, _) => false,
        Document::BreakParent => true,
        Document::Array(ds) => docs_break_exec(ds),
        Document::Empty => false,
    }
}

/// Does any document of the vector force a break?
fn docs_break_exec(ds: &Vec<Document>) -> (r: bool)
    ensures
        r == docs_break(ds@),
    decreases ds@,
{
    let mut acc = false;
    let mut i: usize = 0;
    while i < ds.len()
        invariant
            0 <= i <= ds.len(),
            acc == docs_break(ds@.subrange(0, i as int)),
        decreases ds@.len() - i,
    {
        assert(decreases_to!(ds@ => ds@[i as int]));
        let b = doc_breaks_exec(&ds[i]);
        proof {
            assert(ds@.subrange(0, i as int).push(ds@[i as int]) =~= ds@.subrange(0, i + 1));
            lemma_docs_break_push(ds@.subrange(0, i as int), ds@[i as int]);
        }
        acc = acc || b;
        i += 1;
    }
    assert(ds@.subrange(0, ds.len() as int) =~= ds@);
    acc
}

/// Measures `d` rendered flat against a budget: the space left when it
/// fits, nothing when it cannot render flat or is too wide.
fn fits_doc(d: &Document, budget: usize) -> (r: Option<usize>)
    ensures
        r matches Some(rem) ==> flat_fits(*d) && flat_width(*d) <= budget && rem == budget - flat_width(*d),
        r is None ==> !(flat_fits(*d) && flat_width(*d) <= budget),
    decreases *d,
{
    match d {
        Document::Text(s) => if s.len() <= budget {
            Some(budget - s.len())
        } else {
            None
        },
        Document::Line(k) => match k {
            LineKind::Hard => None,
            LineKind::Soft => Some(budget),
            LineKind::Default => if budget >= 1 {
                Some(budget - 1)
            } else {
                None
            },
        },
        Document::Indent(ds) => fits_vec(ds, budget),
        Document::Group(ds, b) => if *b {
            None
        } else {
            fits_vec(ds, budget)
        },
        Document::IfBreak(_, e) => fits_doc(e, budget),
        Document::BreakParent => None,
        Document::Array(ds) => fits_vec(ds, budget),
        Document::Empty => Some(budget),
    }
}

/// Measures a sequence of documents rendered flat against a budget.
fn fits_vec(ds: &Vec<Document>, budget: usize) -> (r: Option<usize>)
    ensures
        r matches Some(rem) ==> flats_fit(ds@) && flat_width_seq(ds@) <= budget && rem == budget - flat_width_seq(
            ds@,
        ),
        r is None ==> !(flats_fit(ds@) && flat_width_seq(ds@) <= budget),
    decreases ds@,
{
    let mut acc: Option<usize> = Some(budget);
    let mut i: usize = 0;
    while i < ds.len()
        invariant
            0 <= i <= ds.len(),
            acc matches Some(rem) ==> flats_fit(ds@.subrange(0, i as int)) && flat_width_seq(
                ds@.subrange(0, i as int),
            ) <= budget && rem == budget - flat_width_seq(ds@.subrange(0, i as int)),
            acc is None ==> !(flats_fit(ds@.subrange(0, i as int)) && flat_width_seq(
                ds@.subrange(0, i as int),
            ) <= budget),
        decreases ds@.len() - i,
    {
        proof {
            assert(ds@.subrange(0, i as int).push(ds@[i as int]) =~= ds@.subrange(0, i + 1));
            lemma_flats_push(ds@.subrange(0, i as int), ds@[i as int]);
        }
        match acc {
            Some(rem) => {
                assert(decreases_to!(ds@ => ds@[i as int]));
                acc = fits_doc(&ds[i], rem);
            },
            None => {
                acc = None;
            },
        }
        i += 1;
    }
    assert(ds@.subrange(0, ds.len() as int) =~= ds@);
    acc
}

/// Renders `d` onto `out` and returns the column reached. The exact
/// text appended is `render_doc`.
fn render_doc_onto(
    d: &Document,
    ind: &Vec<char>,
    broken: bool,
    st: &Settings,
    out: &mut Vec<char>,
    col: usize,
) -> (c2: usize)
    requires
        doc_wf(*d),
        indent_wf(ind@),
        col == col_after(0, old(out)@),
    ensures
        final(out)@ == old(out)@ + render_doc(*d, ind@, broken, col as nat, *st),
        c2 == col_after(0, final(out)@),
    decreases *d,
{
    proof {
        lemma_col_after_le(0, old(out)@);
    }
    match d {
        Document::Text(s) => {
            push_chars(out, s);
            let total = out.len();
            proof {
                lemma_col_after_concat(0, old(out)@, s@);
                lemma_col_after_no_nl(col as nat, s@);
                assert(col + s@.len() <= total);
            }
            col + s.len()
        },
        Document::Line(k) => {
            let is_newline = match k {
                LineKind::Hard => true,
                LineKind::Soft => broken,
                LineKind::Default => broken,
            };
            if is_newline {
                out.push('\n');
                let len_before = out.len();
                push_chars(out, ind);
                proof {
                    assert(old(out)@.push('\n') =~= old(out)@ + seq!['\n']);
                    assert((old(out)@ + seq!['\n']) + ind@ =~= old(out)@ + nl_indent(ind@));
                    lemma_col_after_concat(0, old(out)@ + seq!['\n'], ind@);
                    lemma_col_after_concat(0, old(out)@, seq!['\n']);
                    lemma_indent_no_nl(ind@);
                    lemma_col_after_no_nl(0, ind@);
                }
                out.len() - len_before
            } else {
                match k {
                    LineKind::Soft => {
                        assert(out@ =~= old(out)@ + render_doc(*d, ind@, broken, col as nat, *st));
                        col
                    },
                    _ => {
                        out.push(' ');
                        let total = out.len();
                        proof {
                            assert(col + 1 <= total);
                            assert(out@ =~= old(out)@ + seq![' ']);
                            lemma_col_after_concat(0, old(out)@, seq![' ']);
                            assert(!seq![' '].contains('\n')) by {
                                if seq![' '].contains('\n') {
                                    let i = choose|i: int| 0 <= i < 1 && seq![' '][i] == '\n';
                                }
                            }
                            lemma_col_after_no_nl(col as nat, seq![' ']);
                        }
                        col + 1
                    },
                }
            }
        },
        Document::Indent(ds) => {
            let ind2 = extend_indent(ind, st);
            assert(indent_wf(ind2@)) by {
                assert(forall|i: int|
                    0 <= i < one_level(*st).len() ==> one_level(*st)[i] == ' ' || one_level(*st)[i] == '\t');
            }
            render_seq_onto(ds, &ind2, broken, st, out, col)
        },
        Document::Group(ds, b) => {
            let forced = *b || docs_break_exec(ds);
            let width = st.print_width as usize;
            let wb: bool;
            if forced {
                wb = true;
            } else if col > width {
                wb = true;
            } else {
                match fits_vec(ds, width - col) {
                    Some(_) => {
                        wb = false;
                    },
                    None => {
                        wb = true;
                    },
                }
            }
            assert(wb == group_broken(ds@, *b, col as nat, *st));
            render_seq_onto(ds, ind, wb, st, out, col)
        },
        Document::IfBreak(t, e) => {
            if broken {
                render_doc_onto(t, ind, broken, st, out, col)
            } else {
                render_doc_onto(e, ind, broken, st, out, col)
            }
        },
        Document::BreakParent => {
            assert(out@ =~= old(out)@ + render_doc(*d, ind@, broken, col as nat, *st));
            col
        },
        Document::Empty => {
            assert(out@ =~= old(out)@ + render_doc(*d, ind@, broken, col as nat, *st));
            col
        },
        Document::Array(ds) => render_seq_onto(ds, ind, broken, st, out, col),
    }
}

/// Renders each document of `ds` onto `out`, threading the column.
fn render_seq_onto(
    ds: &Vec<Document>,
    ind: &Vec<char>,
    broken: bool,
    st: &Settings,
    out: &mut Vec<char>,
    col: usize,
) -> (c2: usize)
    requires
        docs_wf(ds@),
        indent_wf(ind@),
        col == col_after(0, old(out)@),
    ensures
        final(out)@ == old(out)@ + render_docs(ds@, ind@, broken, col as nat, *st),
        c2 == col_after(0, final(out)@),
    decreases ds@,
{
    let ghost c0 = col as nat;
    let mut c = col;
    let mut i: usize = 0;
    assert(out@ =~= old(out)@ + render_docs(ds@.subrange(0, 0), ind@, broken, c0, *st));
    while i < ds.len()
        invariant
            0 <= i <= ds.len(),
            docs_wf(ds@),
            indent_wf(ind@),
            c0 == col_after(0, old(out)@),
            out@ == old(out)@ + render_docs(ds@.subrange(0, i as int), ind@, broken, c0, *st),
            c == col_after(0, out@),
        decreases ds@.len() - i,
    {
        proof {
            lemma_docs_wf_index(ds@, i as int);
        }
        let ghost pre = render_docs(ds@.subrange(0, i as int), ind@, broken, c0, *st);
        proof {
            lemma_col_after_concat(0, old(out)@, pre);
        }
        assert(decreases_to!(ds@ => ds@[i as int]));
        c = render_doc_onto(&ds[i], ind, broken, st, out, c);
        proof {
            assert(ds@.subrange(0, i as int).push(ds@[i as int]) =~= ds@.subrange(0, i + 1));
            lemma_render_docs_push(ds@.subrange(0, i as int), ds@[i as int], ind@, broken, c0, *st);
            assert((old(out)@ + pre) + render_doc(ds@[i as int], ind@, broken, col_after(c0, pre), *st)
                =~= old(out)@ + render_docs(ds@.subrange(0, i + 1), ind@, broken, c0, *st));
        }
        i += 1;
    }
    assert(ds@.subrange(0, ds.len() as int) =~= ds@);
    c
}

/// Removes trailing whitespace from every line of `raw`.
fn trim_trailing_ws(raw: &Vec<char>) -> (out: Vec<char>)
    ensures
        out@ == trimmed(raw@),
{
    let mut out: Vec<char> = Vec::new();
    let mut i: usize = 0;
    while i < raw.len()
        invariant
            0 <= i <= raw.len(),
            out@ == trimmed(raw@.subrange(0, i as int)),
        decreases raw.len() - i,
    {
        let c = raw[i];
        proof {
            assert(raw@.subrange(0, i + 1).drop_last() =~= raw@.subrange(0, i as int));
            assert(raw@.subrange(0, i + 1).last() == raw@[i as int]);
        }
        if c == '\n' {
            loop
                invariant
                    strip_ws_end(out@) == strip_ws_end(trimmed(raw@.subrange(0, i as int))),
                ensures
                    out@ == strip_ws_end(trimmed(raw@.subrange(0, i as int))),
                decreases out.len(),
            {
                if out.len() == 0 {
                    break;
                }
                let l = out[out.len() - 1];
                if l != ' ' && l != '\t' {
                    break;
                }
                proof {
                    assert(out@.drop_last() =~= out@.subrange(0, out@.len() - 1));
                }
                let _ = out.pop();
            }
            out.push('\n');
            assert(out@ =~= strip_ws_end(trimmed(raw@.subrange(0, i as int))) + seq!['\n']);
        } else {
            out.push(c);
            assert(out@ =~= trimmed(raw@.subrange(0, i as int)) + seq![raw@[i as int]]);
        }
        i += 1;
    }
    assert(raw@.subrange(0, raw.len() as int) =~= raw@);
    out
}

/// Renders `d` with the given settings: the exact result is
/// `rendered(d, st)`.
pub fn render(d: &Document, st: &Settings) -> (out: Vec<char>)
    requires
        doc_wf(*d),
    ensures
        out@ == rendered(*d, *st),
{
    let mut raw: Vec<char> = Vec::new();
    let ind: Vec<char> = Vec::new();
    let _c = render_doc_onto(d, &ind, false, st, &mut raw, 0);
    assert(raw@ =~= render_doc(*d, Seq::empty(), false, 0, *st));
    trim_trailing_ws(&raw)
}

/// Relies on `String`'s `FromIterator` over `char`: collecting
/// characters yields the string of exactly those characters, in order.
#[verifier::external_body]
fn chars_to_string(v: &Vec<char>) -> (r: String)
    ensures
        r@ == v@,
{
    v.iter().collect()
}

/// Renders `d` to a `String`; the characters are `rendered(d, st)`.
pub fn render_to_string(d: &Document, st: &Settings) -> (r: String)
    requires
        doc_wf(*d),
    ensures
        r@ == rendered(*d, *st),
{
    let out = render(d, st);
    chars_to_string(&out)
}

} // verus!
