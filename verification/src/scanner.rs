//! The scanner: finds the candidate directive lines of a test file.
//!
//! Only the leading comment block is looked at: blank lines and comment
//! lines are passed over, and the first line that is neither ends the scan.
//! What looks like a directive further down is not yielded.

use crate::text::{
    lemma_run_end, lemma_views_push, run_end, scan_run, views, ByteClass, AT_SIGN, NEWLINE, SLASH,
};
use vstd::prelude::*;
use vstd::slice::{slice_subrange, slice_to_vec};

verus! {

/// What a line of the leading block is.
#[derive(Debug, Copy, Clone, PartialEq, Eq, Structural)]
pub enum LineKind {
    /// Nothing but blanks.
    Blank,
    /// A comment that starts with the directive marker.
    Directive,
    /// Any other comment.
    Comment,
    /// Anything else; the leading block ends here.
    Code,
}

/// Whether the directive marker, two slashes and an at sign, stands at `i`.
pub open spec fn marker_at(line: Seq<u8>, i: int) -> bool {
    0 <= i && i + 3 <= line.len() && line[i] == SLASH && line[i + 1] == SLASH && line[i + 2]
        == AT_SIGN
}

/// Whether a comment, two slashes, starts at `i`.
pub open spec fn comment_at(line: Seq<u8>, i: int) -> bool {
    0 <= i && i + 2 <= line.len() && line[i] == SLASH && line[i + 1] == SLASH
}

/// What `line` is, judged by what follows its leading blanks.
pub open spec fn classify(line: Seq<u8>) -> LineKind {
    let start = run_end(line, 0, ByteClass::Space);
    if start >= line.len() {
        LineKind::Blank
    } else if marker_at(line, start) {
        LineKind::Directive
    } else if comment_at(line, start) {
        LineKind::Comment
    } else {
        LineKind::Code
    }
}

/// Computes [`marker_at`].
pub fn has_marker_at(line: &[u8], i: usize) -> (b: bool)
    ensures
        b == marker_at(line@, i as int),
{
    let n: usize = line.len();
    n >= 3 && i <= n - 3 && line[i] == SLASH && line[i + 1] == SLASH && line[i + 2] == AT_SIGN
}

/// Computes [`classify`].
pub fn classify_line(line: &[u8]) -> (kind: LineKind)
    ensures
        kind == classify(line@),
{
    let n: usize = line.len();
    let start: usize = scan_run(line, 0, ByteClass::Space);
    if start >= n {
        LineKind::Blank
    } else if has_marker_at(line, start) {
        LineKind::Directive
    } else if n >= 2 && start <= n - 2 && line[start] == SLASH && line[start + 1] == SLASH {
        LineKind::Comment
    } else {
        LineKind::Code
    }
}

/// A line that may hold a directive, with its number in the file.
#[derive(Debug, Clone, PartialEq, Eq)]
pub struct CandidateLine {
    /// The number of the line, counting from one.
    pub line: usize,
    /// The line without its line break.
    pub text: Vec<u8>,
}

/// The mathematical value of a [`CandidateLine`].
pub ghost struct CandidateView {
    pub line: nat,
    pub text: Seq<u8>,
}

impl View for CandidateLine {
    type V = CandidateView;

    open spec fn view(&self) -> CandidateView {
        CandidateView { line: self.line as nat, text: self.text@ }
    }
}

/// The candidate lines of `text` from position `pos` on, where `pos` is the
/// start of the line with number `line` and lies in the leading block.
pub open spec fn candidates_from(text: Seq<u8>, pos: int, line: nat) -> Seq<CandidateView>
    decreases text.len() - pos,
    via candidates_from_decreases
{
    if 0 <= pos < text.len() {
        let end = run_end(text, pos, ByteClass::Other(NEWLINE));
        let content = text.subrange(pos, end);
        let rest = if end < text.len() {
            candidates_from(text, end + 1, line + 1)
        } else {
            Seq::empty()
        };
        match classify(content) {
            LineKind::Code => Seq::empty(),
            LineKind::Directive => seq![CandidateView { line, text: content }] + rest,
            _ => rest,
        }
    } else {
        Seq::empty()
    }
}

#[via_fn]
proof fn candidates_from_decreases(text: Seq<u8>, pos: int, line: nat) {
    if 0 <= pos < text.len() {
        lemma_run_end(text, pos, ByteClass::Other(NEWLINE));
    }
}

/// The candidate lines of a file: the directive lines of its leading
/// comment block, in order, each with its line number.
pub open spec fn candidates(text: Seq<u8>) -> Seq<CandidateView> {
    candidates_from(text, 0, 1)
}

/// Every candidate line is a directive line of the text, and their line
/// numbers grow.
pub proof fn candidates_are_directive_lines(text: Seq<u8>, pos: int, line: nat)
    ensures
        forall|k: int|
            0 <= k < candidates_from(text, pos, line).len() ==> classify(
                (#[trigger] candidates_from(text, pos, line)[k]).text,
            ) == LineKind::Directive && candidates_from(text, pos, line)[k].line >= line + k,
    decreases text.len() - pos,
{
    if 0 <= pos < text.len() {
        lemma_run_end(text, pos, ByteClass::Other(NEWLINE));
        let end = run_end(text, pos, ByteClass::Other(NEWLINE));
        if end < text.len() {
            candidates_are_directive_lines(text, end + 1, line + 1);
        }
    }
}

/// Walks over the candidate lines of a text, one at a time.
pub struct Scanner<'a> {
    text: &'a [u8],
    pos: usize,
    line: usize,
}

impl<'a> Scanner<'a> {
    #[verifier::type_invariant]
    spec fn well_formed(self) -> bool {
        &&& self.pos <= self.text@.len()
        &&& self.pos < self.text@.len() ==> self.line <= self.pos + 1
    }

    /// The text that is scanned.
    pub closed spec fn source(&self) -> Seq<u8> {
        self.text@
    }

    /// The candidate lines that are still to come.
    pub closed spec fn remaining(&self) -> Seq<CandidateView> {
        candidates_from(self.text@, self.pos as int, self.line as nat)
    }

    /// A scanner at the start of `text`.
    pub fn new(text: &'a [u8]) -> (s: Scanner<'a>)
        ensures
            s.source() == text@,
            s.remaining() == candidates(text@),
    {
        Scanner { text, pos: 0, line: 1 }
    }

    /// Goes back to the start of the text.
    pub fn restart(&mut self)
        ensures
            final(self).source() == old(self).source(),
            final(self).remaining() == candidates(old(self).source()),
    {
        *self = Scanner { text: self.text, pos: 0, line: 1 };
    }

    /// The next candidate line, or `None` once the leading block is over.
    pub fn next_line(&mut self) -> (r: Option<CandidateLine>)
        ensures
            final(self).source() == old(self).source(),
            match r {
                Some(c) => old(self).remaining().len() > 0 && c@ == old(self).remaining()[0]
                    && final(self).remaining() == old(self).remaining().skip(1),
                None => old(self).remaining().len() == 0 && final(self).remaining().len() == 0,
            },
    {
        proof {
            use_type_invariant(&*self);
        }
        let text: &'a [u8] = self.text;
        let n: usize = text.len();
        let mut pos: usize = self.pos;
        let mut line: usize = self.line;
        while pos < n
            invariant
                n == text@.len(),
                text@ == old(self).source(),
                pos <= n,
                pos < n ==> line <= pos + 1,
                candidates_from(text@, pos as int, line as nat) == old(self).remaining(),
                *self == *old(self),
            decreases n - pos,
        {
            let end: usize = scan_run(text, pos, ByteClass::Other(NEWLINE));
            let content = slice_subrange(text, pos, end);
            let kind = classify_line(content);
            let next: usize = if end < n {
                end + 1
            } else {
                n
            };
            let ghost rest = candidates_from(text@, next as int, (line + 1) as nat);
            match kind {
                LineKind::Code => {
                    *self = Scanner { text, pos: n, line };
                    return None;
                },
                LineKind::Directive => {
                    let found = CandidateLine { line, text: slice_to_vec(content) };
                    let after: usize = if next < n {
                        line + 1
                    } else {
                        line
                    };
                    *self = Scanner { text, pos: next, line: after };
                    assert(old(self).remaining().skip(1) =~= rest);
                    return Some(found);
                },
                _ => {
                    if next < n {
                        line = line + 1;
                    }
                    pos = next;
                },
            }
        }
        *self = Scanner { text, pos, line };
        None
    }
}

/// Computes [`candidates`].
pub fn scan(text: &[u8]) -> (out: Vec<CandidateLine>)
    ensures
        views(out@) == candidates(text@),
{
    let mut scanner = Scanner::new(text);
    let mut out: Vec<CandidateLine> = Vec::new();
    assert(views(out@) =~= Seq::<CandidateView>::empty());
    loop
        invariant
            scanner.source() == text@,
            candidates(text@) == views(out@) + scanner.remaining(),
        ensures
            views(out@) == candidates(text@),
        decreases scanner.remaining().len(),
    {
        let ghost before = scanner.remaining();
        match scanner.next_line() {
            Some(c) => {
                proof {
                    lemma_views_push(out@, c);
                    assert(before =~= seq![c@] + before.skip(1));
                    assert(views(out@).push(c@) + before.skip(1) =~= views(out@) + before);
                }
                out.push(c);
            },
            None => {
                assert(views(out@) + before =~= views(out@));
                break ;
            },
        }
    }
    out
}

} // verus!
