//! The Document intermediate representation: a value tree of print
//! instructions that the layout engine interprets.

use vstd::prelude::*;

verus! {

/// The kind of a conditional break point.
///
/// `Hard` always renders as a newline and forces the enclosing group to
/// break. `Soft` renders as nothing when its group fits on the line and
/// as a newline otherwise. `Default` renders as a single space when the
/// group fits and as a newline otherwise.
#[derive(Clone, Copy, PartialEq, Eq, Structural)]
pub enum LineKind {
    Soft,
    Hard,
    Default,
}

/// A print instruction. Rendering a `Document` yields text; every
/// newline of the output originates from a `Line`, never from a `Text`
/// atom.
pub enum Document {
    /// A literal atom. Must not contain a newline (see `doc_wf`).
    Text(Vec<char>),
    /// A conditional break point.
    Line(LineKind),
    /// Renders its children with the indentation level increased by one.
    Indent(Vec<Document>),
    /// A flat-or-break boundary: the children render on one line when
    /// they fit, the flag is not set and no break signal is inside;
    /// otherwise every conditional line inside (outside nested groups)
    /// becomes a newline. The flag forces break mode.
    Group(Vec<Document>, bool),
    /// `IfBreak(then, otherwise)`: renders `then` when the enclosing
    /// group broke, `otherwise` when it rendered flat.
    IfBreak(Box<Document>, Box<Document>),
    /// Forces the nearest enclosing group and all its ancestors to break.
    BreakParent,
    /// Plain concatenation with no group semantics.
    Array(Vec<Document>),
    /// Renders as nothing.
    Empty,
}

/// A `Document` is well formed when no `Text` atom in it contains a
/// newline character.
pub open spec fn doc_wf(d: Document) -> bool
    decreases d,
{
    match d {
        Document::Text(s) => !s@.contains('\n'),
        Document::Line(_) => true,
        Document::Indent(ds) => docs_wf(ds@),
        Document::Group(ds, _) => docs_wf(ds@),
        Document::IfBreak(t, e) => doc_wf(*t) && doc_wf(*e),
        Document::BreakParent => true,
        Document::Array(ds) => docs_wf(ds@),
        Document::Empty => true,
    }
}

/// All documents of a sequence are well formed.
pub open spec fn docs_wf(ds: Seq<Document>) -> bool
    decreases ds,
{
    if ds.len() == 0 {
        true
    } else {
        doc_wf(ds[0]) && docs_wf(ds.drop_first())
    }
}

/// Every element of a well-formed sequence is well formed.
pub proof fn lemma_docs_wf_index(ds: Seq<Document>, i: int)
    requires
        docs_wf(ds),
        0 <= i < ds.len(),
    ensures
        doc_wf(ds[i]),
    decreases ds,
{
    if i > 0 {
        lemma_docs_wf_index(ds.drop_first(), i - 1);
    }
}

/// A sequence is well formed when each element is.
pub proof fn lemma_docs_wf_all(ds: Seq<Document>)
    requires
        forall|i: int| 0 <= i < ds.len() ==> doc_wf(#[trigger] ds[i]),
    ensures
        docs_wf(ds),
    decreases ds,
{
    if ds.len() > 0 {
        lemma_docs_wf_all(ds.drop_first());
    }
}

/// Well-formedness of a pushed sequence.
pub proof fn lemma_docs_wf_push(ds: Seq<Document>, d: Document)
    requires
        docs_wf(ds),
        doc_wf(d),
    ensures
        docs_wf(ds.push(d)),
{
    assert forall|i: int| 0 <= i < ds.push(d).len() implies doc_wf(#[trigger] ds.push(d)[i]) by {
        if i < ds.len() {
            lemma_docs_wf_index(ds, i);
        }
    }
    lemma_docs_wf_all(ds.push(d));
}

/// A sequence whose characters are all other than newline does not
/// contain one.
pub proof fn lemma_no_nl_from_pointwise(s: Seq<char>)
    requires
        forall|i: int| 0 <= i < s.len() ==> s[i] != '\n',
    ensures
        !s.contains('\n'),
{
    if s.contains('\n') {
        let i = choose|i: int| 0 <= i < s.len() && s[i] == '\n';
    }
}

/// Concatenation keeps well-formedness.
pub proof fn lemma_docs_wf_concat(a: Seq<Document>, b: Seq<Document>)
    requires
        docs_wf(a),
        docs_wf(b),
    ensures
        docs_wf(a + b),
    decreases a,
{
    if a.len() == 0 {
        assert(a + b =~= b);
    } else {
        assert((a + b)[0] == a[0]);
        assert((a + b).drop_first() =~= a.drop_first() + b);
        lemma_docs_wf_concat(a.drop_first(), b);
    }
}

/// Copies a character vector.
pub fn copy_chars(v: &Vec<char>) -> (r: Vec<char>)
    ensures
        r@ == v@,
{
    let mut r: Vec<char> = Vec::new();
    let mut i: usize = 0;
    while i < v.len()
        invariant
            0 <= i <= v.len(),
            r@ =~= v@.subrange(0, i as int),
        decreases v.len() - i,
    {
        r.push(v[i]);
        assert(v@.subrange(0, i as int).push(v@[i as int]) =~= v@.subrange(0, i + 1));
        i += 1;
    }
    assert(v@.subrange(0, v.len() as int) =~= v@);
    r
}

/// Relies on `str::chars` and `Vec`'s `FromIterator`: collecting the
/// characters of a string yields exactly those characters, in order.
#[verifier::external_body]
fn str_chars(s: &str) -> (r: Vec<char>)
    ensures
        r@ == s@,
{
    s.chars().collect()
}

/// The texts of all `Text` atoms of `d`, in print order. Both branches
/// of an `IfBreak` count, since either may be printed.
pub open spec fn doc_texts(d: Document) -> Seq<Seq<char>>
    decreases d,
{
    match d {
        Document::Text(s) => seq![s@],
        Document::Line(_) => Seq::empty(),
        Document::Indent(ds) => docs_texts(ds@),
        Document::Group(ds, _) => docs_texts(ds@),
        Document::IfBreak(t, e) => doc_texts(*t) + doc_texts(*e),
        Document::BreakParent => Seq::empty(),
        Document::Array(ds) => docs_texts(ds@),
        Document::Empty => Seq::empty(),
    }
}

/// The atom texts of a sequence of documents, in order.
pub open spec fn docs_texts(ds: Seq<Document>) -> Seq<Seq<char>>
    decreases ds,
{
    if ds.len() == 0 {
        Seq::empty()
    } else {
        doc_texts(ds[0]) + docs_texts(ds.drop_first())
    }
}

/// Appending a document appends its atom texts.
pub proof fn lemma_docs_texts_push(ds: Seq<Document>, x: Document)
    ensures
        docs_texts(ds.push(x)) == docs_texts(ds) + doc_texts(x),
    decreases ds,
{
    reveal_with_fuel(docs_texts, 3);
    if ds.len() == 0 {
        assert(ds.push(x)[0] == x);
        assert(ds.push(x).drop_first() =~= Seq::<Document>::empty());
        assert(doc_texts(x) + Seq::<Seq<char>>::empty() =~= doc_texts(x));
        assert(Seq::<Seq<char>>::empty() + doc_texts(x) =~= doc_texts(x));
    } else {
        assert(ds.push(x)[0] == ds[0]);
        assert(ds.push(x).drop_first() =~= ds.drop_first().push(x));
        lemma_docs_texts_push(ds.drop_first(), x);
        assert(doc_texts(ds[0]) + (docs_texts(ds.drop_first()) + doc_texts(x)) =~= (doc_texts(ds[0]) + docs_texts(
            ds.drop_first(),
        )) + doc_texts(x));
    }
}

/// Concatenation of sequences concatenates their atom texts.
pub proof fn lemma_docs_texts_concat(a: Seq<Document>, b: Seq<Document>)
    ensures
        docs_texts(a + b) == docs_texts(a) + docs_texts(b),
    decreases a,
{
    if a.len() == 0 {
        assert(a + b =~= b);
        assert(docs_texts(a) =~= Seq::<Seq<char>>::empty());
        assert(Seq::<Seq<char>>::empty() + docs_texts(b) =~= docs_texts(b));
    } else {
        assert((a + b)[0] == a[0]);
        assert((a + b).drop_first() =~= a.drop_first() + b);
        lemma_docs_texts_concat(a.drop_first(), b);
        assert(doc_texts(a[0]) + (docs_texts(a.drop_first()) + docs_texts(b)) =~= (doc_texts(a[0]) + docs_texts(
            a.drop_first(),
        )) + docs_texts(b));
    }
}

/// A document made of atoms alone: no break point of any kind stands
/// in it, so it renders the same in flat and broken mode, on one line.
pub open spec fn atoms_only(d: Document) -> bool
    decreases d,
{
    match d {
        Document::Text(_) => true,
        Document::Line(_) => false,
        Document::Indent(ds) => atoms_only_seq(ds@),
        Document::Group(ds, b) => !b && atoms_only_seq(ds@),
        Document::IfBreak(_, _) => false,
        Document::BreakParent => false,
        Document::Array(ds) => atoms_only_seq(ds@),
        Document::Empty => true,
    }
}

/// Every document of the sequence is made of atoms alone.
pub open spec fn atoms_only_seq(ds: Seq<Document>) -> bool
    decreases ds,
{
    if ds.len() == 0 {
        true
    } else {
        atoms_only(ds[0]) && atoms_only_seq(ds.drop_first())
    }
}

/// Appending an atoms-only document keeps the sequence atoms-only.
pub proof fn lemma_atoms_only_push(ds: Seq<Document>, x: Document)
    requires
        atoms_only_seq(ds),
        atoms_only(x),
    ensures
        atoms_only_seq(ds.push(x)),
    decreases ds,
{
    reveal_with_fuel(atoms_only_seq, 3);
    if ds.len() == 0 {
        assert(ds.push(x)[0] == x);
        assert(ds.push(x).drop_first() =~= Seq::<Document>::empty());
    } else {
        assert(ds.push(x)[0] == ds[0]);
        assert(ds.push(x).drop_first() =~= ds.drop_first().push(x));
        lemma_atoms_only_push(ds.drop_first(), x);
    }
}

/// Pushes a well-formed document onto a vector of well-formed
/// documents, keeping track of the sequence, its texts and its
/// well-formedness.
pub fn push_doc(v: &mut Vec<Document>, d: Document)
    requires
        docs_wf(old(v)@),
        doc_wf(d),
    ensures
        final(v)@ == old(v)@.push(d),
        docs_wf(final(v)@),
        docs_texts(final(v)@) == docs_texts(old(v)@) + doc_texts(d),
{
    proof {
        lemma_docs_wf_push(v@, d);
        lemma_docs_texts_push(v@, d);
    }
    v.push(d);
}

/// A newline, which has no place inside an atom, replaced by a space;
/// all other characters unchanged.
pub open spec fn sanitize(s: Seq<char>) -> Seq<char> {
    Seq::new(
        s.len(),
        |i: int|
            if s[i] == '\n' {
                ' '
            } else {
                s[i]
            },
    )
}

/// A text atom from arbitrary characters: a newline, which has no
/// place inside an atom, is printed as a space.
pub fn sanitized_text(v: Vec<char>) -> (r: Document)
    ensures
        doc_wf(r),
        !v@.contains('\n') ==> r == Document::Text(v),
        r matches Document::Text(t) && t@ == sanitize(v@),
        doc_texts(r) == seq![sanitize(v@)],
{
    let mut clean = true;
    let mut i: usize = 0;
    while i < v.len()
        invariant
            0 <= i <= v.len(),
            clean == (forall|j: int| 0 <= j < i ==> v@[j] != '\n'),
        decreases v.len() - i,
    {
        if v[i] == '\n' {
            clean = false;
        }
        i += 1;
    }
    if clean {
        assert(!v@.contains('\n')) by {
            if v@.contains('\n') {
                let j = choose|j: int| 0 <= j < v@.len() && v@[j] == '\n';
            }
        }
        assert(v@ =~= sanitize(v@));
        return Document::Text(v);
    }
    let mut w: Vec<char> = Vec::new();
    let mut k: usize = 0;
    while k < v.len()
        invariant
            0 <= k <= v.len(),
            w@.len() == k,
            forall|j: int|
                0 <= j < k ==> w@[j] == (if v@[j] == '\n' {
                    ' '
                } else {
                    v@[j]
                }),
            forall|j: int| 0 <= j < k ==> w@[j] != '\n',
        decreases v.len() - k,
    {
        let c = v[k];
        if c == '\n' {
            w.push(' ');
        } else {
            w.push(c);
        }
        k += 1;
    }
    assert(!w@.contains('\n')) by {
        if w@.contains('\n') {
            let j = choose|j: int| 0 <= j < w@.len() && w@[j] == '\n';
        }
    }
    assert(w@ =~= sanitize(v@));
    Document::Text(w)
}

impl Document {
    /// A break point that always renders as a newline and forces its
    /// group to break.
    pub fn hardline() -> (r: Document)
        ensures
            r == Document::Line(LineKind::Hard),
    {
        Document::Line(LineKind::Hard)
    }

    /// A break point that renders as nothing when the group fits.
    pub fn softline() -> (r: Document)
        ensures
            r == Document::Line(LineKind::Soft),
    {
        Document::Line(LineKind::Soft)
    }

    /// A break point that renders as a single space when the group fits.
    pub fn line() -> (r: Document)
        ensures
            r == Document::Line(LineKind::Default),
    {
        Document::Line(LineKind::Default)
    }

    /// A literal single space.
    pub fn space() -> (r: Document)
        ensures
            r matches Document::Text(s) && s@ =~= seq![' '],
            doc_wf(r),
    {
        let v = vec![' '];
        assert(!v@.contains('\n')) by {
            assert(forall|i: int| 0 <= i < v@.len() ==> v@[i] == ' ');
        }
        Document::Text(v)
    }

    /// The empty document.
    pub fn empty() -> (r: Document)
        ensures
            r == Document::Empty,
    {
        Document::Empty
    }

    /// A group that decides flat or broken mode on its own.
    pub fn group(ds: Vec<Document>) -> (r: Document)
        ensures
            r == Document::Group(ds, false),
    {
        Document::Group(ds, false)
    }

    /// A group with an explicit break flag.
    pub fn group_with_break(ds: Vec<Document>, should_break: bool) -> (r: Document)
        ensures
            r == Document::Group(ds, should_break),
    {
        Document::Group(ds, should_break)
    }

    /// An indented region.
    pub fn indent(ds: Vec<Document>) -> (r: Document)
        ensures
            r == Document::Indent(ds),
    {
        Document::Indent(ds)
    }

    /// A literal atom from a string; a newline, which has no place in
    /// an atom, would be printed as a space.
    pub fn text(s: &str) -> (r: Document)
        ensures
            doc_wf(r),
            r is Text,
            !s@.contains('\n') ==> (r matches Document::Text(t) && t@ == s@ && doc_texts(r) == seq![s@]),
    {
        sanitized_text(str_chars(s))
    }

    /// A literal atom from newline-free characters.
    pub fn from_chars(v: Vec<char>) -> (r: Document)
        requires
            !v@.contains('\n'),
        ensures
            r == Document::Text(v),
            doc_wf(r),
            doc_texts(r) == seq![v@],
    {
        Document::Text(v)
    }

    /// Conditional content rendered only when the enclosing group broke.
    pub fn if_break(then: Document) -> (r: Document)
        ensures
            r == Document::IfBreak(Box::new(then), Box::new(Document::Empty)),
    {
        Document::IfBreak(Box::new(then), Box::new(Document::Empty))
    }
}

} // verus!
