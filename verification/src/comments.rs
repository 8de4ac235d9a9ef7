//! The comment index: associates the comments of a source file with
//! spans, classifies them as leading, trailing or dangling, and hands
//! out each comment at most once.

use vstd::prelude::*;

use crate::document::copy_chars;
use crate::document::doc_texts;
use crate::document::doc_wf;
use crate::document::docs_texts;
use crate::document::docs_wf;
use crate::document::push_doc;
use crate::document::Document;
use crate::document::LineKind;
use crate::span::Span;

verus! {

/// The lexical kind of a comment.
#[derive(Clone, Copy, PartialEq, Eq, Structural)]
pub enum CommentKind {
    Line,
    Block,
    DocBlock,
}

/// One comment of the original source. A comment that spans several
/// lines is recorded line by line, so that its text is newline-free.
pub struct Comment {
    pub span: Span,
    pub kind: CommentKind,
    pub text: Vec<char>,
}

/// Which attachments `has_comment` looks for.
#[derive(Clone, Copy, PartialEq, Eq, Structural)]
pub struct CommentFlags {
    pub leading: bool,
    pub trailing: bool,
    pub dangling: bool,
}

impl CommentFlags {
    /// Looks for every attachment.
    pub fn all() -> (r: CommentFlags)
        ensures
            r.leading && r.trailing && r.dangling,
    {
        CommentFlags { leading: true, trailing: true, dangling: true }
    }
}

/// A whitespace byte other than a newline: space, tab or carriage
/// return.
pub open spec fn is_ws(b: u8) -> bool {
    b == 32 || b == 9 || b == 13
}

/// `c` precedes `s` with only whitespace (newlines allowed) between.
pub open spec fn leading_to(src: Seq<u8>, c: Span, s: Span) -> bool {
    c.end <= s.start && s.start <= src.len() && forall|i: int|
        c.end <= i < s.start ==> is_ws(#[trigger] src[i]) || src[i] == 10
}

/// `c` follows `s` on the same line, with only whitespace between.
pub open spec fn trailing_to(src: Seq<u8>, c: Span, s: Span) -> bool {
    s.end <= c.start && forall|i: int| s.end <= i < c.start ==> is_ws(#[trigger] src[i])
}

/// `c` lies inside `s`.
pub open spec fn dangling_in(c: Span, s: Span) -> bool {
    s.start <= c.start && c.end <= s.end
}

/// Does comment `c` attach to `s` under `flags`?
pub open spec fn comment_matches(src: Seq<u8>, c: Comment, s: Span, flags: CommentFlags) -> bool {
    (flags.leading && leading_to(src, c.span, s)) || (flags.trailing && trailing_to(src, c.span, s)) || (
    flags.dangling && dangling_in(c.span, s))
}

/// The index built once per file: the source bytes, its comments in
/// source order, and which of them were already printed.
pub struct CommentIndex {
    pub src: Vec<u8>,
    pub comments: Vec<Comment>,
    pub printed: Vec<bool>,
}

/// Well-formedness of the index: one printed mark per comment, every
/// comment span within the source, and every comment text newline-free.
pub open spec fn ci_wf(ci: CommentIndex) -> bool {
    &&& ci.printed@.len() == ci.comments@.len()
    &&& forall|i: int|
        0 <= i < ci.comments@.len() ==> {
            &&& !(#[trigger] ci.comments@[i]).text@.contains('\n')
            &&& ci.comments@[i].span.start <= ci.comments@[i].span.end
            &&& ci.comments@[i].span.end <= ci.src@.len()
        }
}

/// Is the line after the line that holds `p` blank? True when the rest
/// of the line from `p` is followed by a line of whitespace only,
/// closed by its own newline.
pub open spec fn next_line_empty_from(src: Seq<u8>, p: int) -> bool
    decreases src.len() - p,
{
    if p < 0 || p >= src.len() {
        false
    } else if src[p] == 10 {
        line_empty_from(src, p + 1)
    } else {
        next_line_empty_from(src, p + 1)
    }
}

/// Does the line starting at `p` hold only whitespace before its
/// newline?
pub open spec fn line_empty_from(src: Seq<u8>, p: int) -> bool
    decreases src.len() - p,
{
    if p < 0 || p >= src.len() {
        false
    } else if src[p] == 10 {
        true
    } else if is_ws(src[p]) {
        line_empty_from(src, p + 1)
    } else {
        false
    }
}

/// One way a comment attaches to a span.
#[derive(Clone, Copy, PartialEq, Eq, Structural)]
pub enum Attachment {
    Leading,
    Trailing,
    Dangling,
}

/// Does comment `c` attach to `s` in the given way?
pub open spec fn attaches(src: Seq<u8>, c: Comment, s: Span, a: Attachment) -> bool {
    match a {
        Attachment::Leading => leading_to(src, c.span, s),
        Attachment::Trailing => trailing_to(src, c.span, s),
        Attachment::Dangling => dangling_in(c.span, s),
    }
}

/// Is comment `i` attached to `s` in the given way and not printed
/// yet?
pub open spec fn sel_attached(ci: CommentIndex, s: Span, a: Attachment, i: int) -> bool {
    0 <= i < ci.comments@.len() && !ci.printed@[i] && attaches(ci.src@, ci.comments@[i], s, a)
}

/// The texts of the unprinted comments among the first `n` that
/// attach to `s` in the given way, in source order.
pub open spec fn sel_att_texts(ci: CommentIndex, s: Span, a: Attachment, n: int) -> Seq<Seq<char>>
    decreases n,
{
    if n <= 0 {
        Seq::empty()
    } else if sel_attached(ci, s, a, n - 1) {
        sel_att_texts(ci, s, a, n - 1).push(ci.comments@[n - 1].text@)
    } else {
        sel_att_texts(ci, s, a, n - 1)
    }
}

/// Is comment `i` dangling to `s` and not printed yet?
pub open spec fn sel_dangling(ci: CommentIndex, s: Span, i: int) -> bool {
    sel_attached(ci, s, Attachment::Dangling, i)
}

/// The texts of the dangling, unprinted comments of `s` among the
/// first `n`, in source order.
pub open spec fn sel_texts(ci: CommentIndex, s: Span, n: int) -> Seq<Seq<char>>
    decreases n,
{
    if n <= 0 {
        Seq::empty()
    } else if sel_dangling(ci, s, n - 1) {
        sel_texts(ci, s, n - 1).push(ci.comments@[n - 1].text@)
    } else {
        sel_texts(ci, s, n - 1)
    }
}

/// The two selections agree for the dangling way.
pub proof fn lemma_sel_texts_dangling(ci: CommentIndex, s: Span, n: int)
    ensures
        sel_texts(ci, s, n) == sel_att_texts(ci, s, Attachment::Dangling, n),
    decreases n,
{
    if n > 0 {
        lemma_sel_texts_dangling(ci, s, n - 1);
    }
}

impl CommentIndex {
    /// An index over `src` with the given comments, none printed yet.
    pub fn new(src: Vec<u8>, comments: Vec<Comment>) -> (r: CommentIndex)
        requires
            forall|i: int|
                0 <= i < comments@.len() ==> {
                    &&& !(#[trigger] comments@[i]).text@.contains('\n')
                    &&& comments@[i].span.start <= comments@[i].span.end
                    &&& comments@[i].span.end <= src@.len()
                },
        ensures
            ci_wf(r),
            r.src@ == src@,
            r.comments@ == comments@,
            forall|i: int| 0 <= i < r.printed@.len() ==> !r.printed@[i],
    {
        let n = comments.len();
        let mut printed: Vec<bool> = Vec::new();
        let mut i: usize = 0;
        while i < n
            invariant
                printed@.len() == i,
                0 <= i <= n,
                forall|j: int| 0 <= j < i ==> !printed@[j],
            decreases n - i,
        {
            printed.push(false);
            i += 1;
        }
        CommentIndex { src, comments, printed }
    }

    /// Is every byte of `[from, to)` whitespace (`allow_nl` also admits
    /// newlines)?
    fn ws_range(&self, from: usize, to: usize, allow_nl: bool) -> (r: bool)
        requires
            to <= self.src@.len(),
        ensures
            r == forall|i: int|
                from <= i < to ==> is_ws(#[trigger] self.src@[i]) || (allow_nl && self.src@[i] == 10),
    {
        let mut i = from;
        if from >= to {
            return true;
        }
        while i < to
            invariant
                from <= i,
                i <= to <= self.src@.len(),
                forall|j: int| from <= j < i ==> is_ws(#[trigger] self.src@[j]) || (allow_nl && self.src@[j] == 10),
            decreases to - i,
        {
            let b = self.src[i];
            if !(b == 32 || b == 9 || b == 13 || (allow_nl && b == 10)) {
                assert(!(is_ws(self.src@[i as int]) || (allow_nl && self.src@[i as int] == 10)));
                return false;
            }
            i += 1;
        }
        true
    }

    /// Any comment attached to `s` under `flags`?
    pub fn has_comment(&self, s: Span, flags: CommentFlags) -> (r: bool)
        requires
            ci_wf(*self),
        ensures
            r == exists|i: int|
                0 <= i < self.comments@.len() && comment_matches(self.src@, #[trigger] self.comments@[i], s, flags),
    {
        let n = self.comments.len();
        let mut i: usize = 0;
        while i < n
            invariant
                0 <= i <= n,
                n == self.comments@.len(),
                ci_wf(*self),
                forall|j: int| 0 <= j < i ==> !comment_matches(self.src@, #[trigger] self.comments@[j], s, flags),
            decreases n - i,
        {
            let c = &self.comments[i];
            let lead = flags.leading && c.span.end <= s.start && s.start <= self.src.len() && self.ws_range(
                c.span.end,
                s.start,
                true,
            );
            let trail = flags.trailing && s.end <= c.span.start && self.ws_range(s.end, c.span.start, false);
            let dang = flags.dangling && s.start <= c.span.start && c.span.end <= s.end;
            if lead || trail || dang {
                assert(comment_matches(self.src@, self.comments@[i as int], s, flags));
                return true;
            }
            assert(!comment_matches(self.src@, self.comments@[i as int], s, flags));
            i += 1;
        }
        false
    }

    /// Does a blank line follow the line on which `s` ends? Used to
    /// keep one intentional blank line between statements or
    /// parameters.
    pub fn is_next_line_empty(&self, s: Span) -> (r: bool)
        ensures
            r == next_line_empty_from(self.src@, s.end as int),
    {
        let n = self.src.len();
        if s.end >= n {
            return false;
        }
        let mut p = s.end;
        while p < n && self.src[p] != 10
            invariant
                s.end <= p <= n,
                n == self.src@.len(),
                next_line_empty_from(self.src@, s.end as int) == next_line_empty_from(self.src@, p as int),
            decreases n - p,
        {
            p += 1;
        }
        if p >= n {
            return false;
        }
        p += 1;
        let ghost q0 = p as int;
        while p < n && self.src[p] != 10
            invariant
                q0 <= p <= n,
                n == self.src@.len(),
                next_line_empty_from(self.src@, s.end as int) == line_empty_from(self.src@, q0),
                line_empty_from(self.src@, q0) == line_empty_from(self.src@, p as int),
            decreases n - p,
        {
            let b = self.src[p];
            if !(b == 32 || b == 9 || b == 13) {
                return false;
            }
            p += 1;
        }
        if p >= n {
            return false;
        }
        true
    }

    /// Prints the comments of `s` with the given attachment that were
    /// not printed yet, in source order, each followed by a hard line
    /// unless it is the last; marks them printed. With `indent` the
    /// comments stand in an indented block opened by a hard line and
    /// followed by one. The atom texts of the returned document are
    /// exactly the texts of those comments, each once.
    pub fn print_attached_comments(&mut self, s: Span, a: Attachment, indent: bool) -> (r: Option<Document>)
        requires
            ci_wf(*old(self)),
        ensures
            ci_wf(*final(self)),
            final(self).src@ == old(self).src@,
            final(self).comments@ == old(self).comments@,
            final(self).printed@.len() == old(self).printed@.len(),
            forall|i: int| #![trigger final(self).printed@[i]]
                0 <= i < final(self).printed@.len() ==> final(self).printed@[i] == (old(self).printed@[i]
                    || sel_attached(*old(self), s, a, i)),
            (r is None) == (forall|i: int| !sel_attached(*old(self), s, a, i)),
            r matches Some(d) ==> doc_wf(d) && doc_texts(d) == sel_att_texts(
                *old(self),
                s,
                a,
                old(self).comments@.len() as int,
            ),
    {
        let n = self.comments.len();
        let mut parts: Vec<Document> = Vec::new();
        let mut any = false;
        assert(docs_wf(parts@));
        assert(docs_texts(parts@) =~= Seq::<Seq<char>>::empty());
        if indent {
            push_doc(&mut parts, Document::Line(LineKind::Hard));
            assert(docs_texts(parts@) =~= Seq::<Seq<char>>::empty());
        }
        let mut i: usize = 0;
        while i < n
            invariant
                0 <= i <= n,
                n == self.comments@.len(),
                ci_wf(*self),
                self.src@ == old(self).src@,
                self.comments@ == old(self).comments@,
                self.printed@.len() == old(self).printed@.len(),
                forall|j: int| #![trigger self.printed@[j]]
                    0 <= j < i ==> self.printed@[j] == (old(self).printed@[j] || sel_attached(*old(self), s, a, j)),
                forall|j: int| #![trigger self.printed@[j]]
                    i <= j < self.printed@.len() ==> self.printed@[j] == old(self).printed@[j],
                docs_wf(parts@),
                docs_texts(parts@) =~= sel_att_texts(*old(self), s, a, i as int),
                any == (sel_att_texts(*old(self), s, a, i as int).len() > 0),
            decreases n - i,
        {
            let c_hits: bool = {
                let c = &self.comments[i];
                match a {
                    Attachment::Leading => c.span.end <= s.start && s.start <= self.src.len()
                        && self.ws_range(c.span.end, s.start, true),
                    Attachment::Trailing => s.end <= c.span.start && self.ws_range(
                        s.end,
                        c.span.start,
                        false,
                    ),
                    Attachment::Dangling => s.start <= c.span.start && c.span.end <= s.end,
                }
            };
            assert(c_hits == attaches(self.src@, self.comments@[i as int], s, a));
            let already = self.printed[i];
            if c_hits && !already {
                assert(sel_attached(*old(self), s, a, i as int));
                let ghost p0 = docs_texts(parts@);
                if any {
                    push_doc(&mut parts, Document::Line(LineKind::Hard));
                    assert(docs_texts(parts@) =~= p0);
                }
                let text = copy_chars(&self.comments[i].text);
                push_doc(&mut parts, Document::Text(text));
                self.printed.set(i, true);
                any = true;
                assert(docs_texts(parts@) =~= p0.push(self.comments@[i as int].text@));
                assert(sel_att_texts(*old(self), s, a, i + 1) =~= sel_att_texts(*old(self), s, a, i as int).push(
                    self.comments@[i as int].text@,
                ));
            } else {
                assert(!sel_attached(*old(self), s, a, i as int));
                assert(sel_att_texts(*old(self), s, a, i + 1) =~= sel_att_texts(*old(self), s, a, i as int));
            }
            i += 1;
        }
        if !any {
            proof {
                lemma_sel_att_texts_empty(*old(self), s, a, n as int);
            }
            return None;
        }
        proof {
            lemma_sel_att_texts_nonempty(*old(self), s, a, n as int);
        }
        let d: Document;
        if indent {
            let mut outer: Vec<Document> = Vec::new();
            assert(docs_wf(outer@));
            assert(docs_texts(outer@) =~= Seq::<Seq<char>>::empty());
            let ghost inner_texts = docs_texts(parts@);
            push_doc(&mut outer, Document::Indent(parts));
            push_doc(&mut outer, Document::Line(LineKind::Hard));
            assert(docs_texts(outer@) =~= inner_texts);
            d = Document::Array(outer);
        } else {
            d = Document::Array(parts);
        }
        Some(d)
    }

    /// Prints the dangling comments of `s` that were not printed yet,
    /// in source order, each followed by a hard line unless it is the
    /// last; marks them printed. With `indent` the comments stand in an
    /// indented block opened by a hard line and followed by one. The
    /// atom texts of the returned document are exactly the texts of
    /// those comments, each once.
    pub fn print_dangling_comments(&mut self, s: Span, indent: bool) -> (r: Option<Document>)
        requires
            ci_wf(*old(self)),
        ensures
            ci_wf(*final(self)),
            final(self).src@ == old(self).src@,
            final(self).comments@ == old(self).comments@,
            final(self).printed@.len() == old(self).printed@.len(),
            forall|i: int| #![trigger final(self).printed@[i]]
                0 <= i < final(self).printed@.len() ==> final(self).printed@[i] == (old(self).printed@[i]
                    || sel_dangling(*old(self), s, i)),
            (r is None) == (forall|i: int| !sel_dangling(*old(self), s, i)),
            r matches Some(d) ==> doc_wf(d) && doc_texts(d) == sel_texts(
                *old(self),
                s,
                old(self).comments@.len() as int,
            ),
    {
        proof {
            lemma_sel_texts_dangling(*self, s, self.comments@.len() as int);
        }
        let r = self.print_attached_comments(s, Attachment::Dangling, indent);
        proof {
            if r is None {
                assert forall|i: int| !sel_dangling(*old(self), s, i) by {
                    assert(!sel_attached(*old(self), s, Attachment::Dangling, i));
                }
            } else {
                assert(!(forall|i: int| !sel_attached(*old(self), s, Attachment::Dangling, i)));
                let w = choose|i: int| sel_attached(*old(self), s, Attachment::Dangling, i);
                assert(sel_dangling(*old(self), s, w));
            }
        }
        r
    }
}

/// An empty selection selects nothing.
proof fn lemma_sel_att_texts_empty(ci: CommentIndex, s: Span, a: Attachment, n: int)
    requires
        sel_att_texts(ci, s, a, n).len() == 0,
    ensures
        forall|j: int| 0 <= j < n ==> !sel_attached(ci, s, a, j),
    decreases n,
{
    if n > 0 {
        assert(!sel_attached(ci, s, a, n - 1));
        lemma_sel_att_texts_empty(ci, s, a, n - 1);
    }
}

/// A nonempty selection has a selected index.
proof fn lemma_sel_att_texts_nonempty(ci: CommentIndex, s: Span, a: Attachment, n: int)
    requires
        sel_att_texts(ci, s, a, n).len() > 0,
    ensures
        exists|j: int| sel_attached(ci, s, a, j),
    decreases n,
{
    if n > 0 {
        if sel_attached(ci, s, a, n - 1) {
        } else {
            lemma_sel_att_texts_nonempty(ci, s, a, n - 1);
        }
    }
}

} // verus!
