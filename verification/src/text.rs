//! Byte-level text helpers shared by the scanner, the parser and the validator.
//!
//! All text is handled as bytes.  Positions are byte offsets, and every
//! splitting function is specified by a recursive function over `Seq<u8>`.

use vstd::prelude::*;
use vstd::slice::{slice_subrange, slice_to_vec};
use vstd::string::StringSliceAdditionalSpecFns;

verus! {

pub const SPACE: u8 = 32;

pub const TAB: u8 = 9;

pub const CARRIAGE_RETURN: u8 = 13;

pub const NEWLINE: u8 = 10;

pub const COLON: u8 = 58;

pub const COMMA: u8 = 44;

pub const EQUALS: u8 = 61;

pub const SLASH: u8 = 47;

pub const AT_SIGN: u8 = 64;

pub const OPEN_BRACKET: u8 = 91;

pub const CLOSE_BRACKET: u8 = 93;

/// The views of the elements of a sequence, in order.
pub open spec fn views<T: View>(s: Seq<T>) -> Seq<T::V> {
    Seq::new(s.len(), |i: int| s[i]@)
}

/// The view of an optional byte string.
pub open spec fn option_view(o: Option<Vec<u8>>) -> Option<Seq<u8>> {
    match o {
        Some(v) => Some(v@),
        None => None,
    }
}

/// The bytes that a string literal stands for.
pub open spec fn lit(s: &str) -> Seq<u8> {
    s.spec_bytes()
}

/// The bytes of `s` as an owned buffer.
pub fn literal(s: &str) -> (v: Vec<u8>)
    ensures
        v@ == lit(s),
{
    slice_to_vec(s.as_bytes())
}

/// Pushing an element onto a list pushes its view onto the list's views.
pub proof fn lemma_views_push<T: View>(rows: Seq<T>, row: T)
    ensures
        views(rows.push(row)) == views(rows).push(row@),
{
    assert(views(rows.push(row)) =~= views(rows).push(row@));
}

/// A list of byte strings without any row.
pub fn no_rows() -> (v: Vec<Vec<u8>>)
    ensures
        views(v@) == Seq::<Seq<u8>>::empty(),
{
    let v: Vec<Vec<u8>> = Vec::new();
    assert(views(v@) =~= Seq::<Seq<u8>>::empty());
    v
}

/// Appends the bytes of `s` as a new row.
pub fn push_literal(v: &mut Vec<Vec<u8>>, s: &str)
    ensures
        views(final(v)@) == views(old(v)@).push(lit(s)),
{
    let row = literal(s);
    proof {
        lemma_views_push(v@, row);
    }
    v.push(row);
}

/// Blank bytes inside a line: space, tab and carriage return.
pub open spec fn is_space(b: u8) -> bool {
    b == SPACE || b == TAB || b == CARRIAGE_RETURN
}

/// A class of bytes; a run is a maximal stretch of bytes of one class.
#[derive(Clone, Copy, Debug)]
pub enum ByteClass {
    /// Blank bytes.
    Space,
    /// Bytes of a blank-separated word.
    Word,
    /// Bytes of a directive name: neither blank nor a colon.
    Name,
    /// Every byte but the given one.
    Other(u8),
}

impl ByteClass {
    /// Whether `b` belongs to the class.
    pub open spec fn holds(self, b: u8) -> bool {
        match self {
            ByteClass::Space => is_space(b),
            ByteClass::Word => !is_space(b),
            ByteClass::Name => !is_space(b) && b != COLON,
            ByteClass::Other(x) => b != x,
        }
    }

    /// Whether `b` belongs to the class.
    pub fn contains(self, b: u8) -> (r: bool)
        ensures
            r == self.holds(b),
    {
        let blank = b == SPACE || b == TAB || b == CARRIAGE_RETURN;
        match self {
            ByteClass::Space => blank,
            ByteClass::Word => !blank,
            ByteClass::Name => !blank && b != COLON,
            ByteClass::Other(x) => b != x,
        }
    }
}

/// The end of the run of class `c` that starts at `i`: the first position at
/// or after `i` whose byte is outside the class, or the length of `s`.
pub open spec fn run_end(s: Seq<u8>, i: int, c: ByteClass) -> int
    decreases s.len() - i,
{
    if 0 <= i < s.len() && c.holds(s[i]) {
        run_end(s, i + 1, c)
    } else {
        i
    }
}

/// Where a run ends: inside the text, after bytes of the class only, and at a
/// byte outside the class unless the text ends there.
pub proof fn lemma_run_end(s: Seq<u8>, i: int, c: ByteClass)
    requires
        0 <= i <= s.len(),
    ensures
        i <= run_end(s, i, c) <= s.len(),
        forall|k: int| i <= k < run_end(s, i, c) ==> c.holds(#[trigger] s[k]),
        run_end(s, i, c) < s.len() ==> !c.holds(s[run_end(s, i, c)]),
        i < s.len() && c.holds(s[i]) ==> run_end(s, i, c) > i,
    decreases s.len() - i,
{
    if i < s.len() && c.holds(s[i]) {
        lemma_run_end(s, i + 1, c);
    }
}

/// Computes [`run_end`].  A start beyond the text is returned unchanged.
pub fn scan_run(s: &[u8], i: usize, c: ByteClass) -> (j: usize)
    ensures
        j == run_end(s@, i as int, c),
        i <= s@.len() ==> i <= j <= s@.len(),
{
    let n: usize = s.len();
    let mut j: usize = i;
    while j < n && c.contains(s[j])
        invariant
            n == s@.len(),
            i <= j,
            i <= n ==> j <= n,
            run_end(s@, i as int, c) == run_end(s@, j as int, c),
        decreases n - j,
    {
        j = j + 1;
    }
    j
}

/// The start of the blank run that ends at `hi`, never before `lo`.
pub open spec fn blank_start(s: Seq<u8>, lo: int, hi: int) -> int
    decreases hi - lo,
{
    if 0 <= lo < hi <= s.len() && is_space(s[hi - 1]) {
        blank_start(s, lo, hi - 1)
    } else {
        hi
    }
}

/// Computes [`blank_start`].  Bounds outside the text are returned unchanged.
pub fn scan_blank_back(s: &[u8], lo: usize, hi: usize) -> (j: usize)
    ensures
        j == blank_start(s@, lo as int, hi as int),
        lo <= hi <= s@.len() ==> lo <= j <= hi,
{
    if hi > s.len() {
        return hi;
    }
    let mut j: usize = hi;
    while lo < j && s[j - 1] == SPACE || lo < j && s[j - 1] == TAB || lo < j && s[j - 1]
        == CARRIAGE_RETURN
        invariant
            j <= hi <= s@.len(),
            lo <= hi ==> lo <= j,
            blank_start(s@, lo as int, hi as int) == blank_start(s@, lo as int, j as int),
        decreases j,
    {
        j = j - 1;
    }
    j
}

/// The text without its leading and trailing blanks.
pub open spec fn trimmed(s: Seq<u8>) -> Seq<u8> {
    let a = run_end(s, 0, ByteClass::Space);
    let b = blank_start(s, a, s.len() as int);
    s.subrange(a, b)
}

/// Computes [`trimmed`].
pub fn trim(s: &[u8]) -> (v: Vec<u8>)
    ensures
        v@ == trimmed(s@),
{
    let a: usize = scan_run(s, 0, ByteClass::Space);
    let b: usize = scan_blank_back(s, a, s.len());
    slice_to_vec(slice_subrange(s, a, b))
}

/// Whether two byte strings are equal.
pub fn same_bytes(a: &[u8], b: &[u8]) -> (r: bool)
    ensures
        r == (a@ == b@),
{
    if a.len() != b.len() {
        return false;
    }
    let n: usize = a.len();
    let mut i: usize = 0;
    while i < n
        invariant
            n == a@.len(),
            n == b@.len(),
            i <= n,
            forall|k: int| 0 <= k < i ==> a@[k] == b@[k],
        decreases n - i,
    {
        if a[i] != b[i] {
            return false;
        }
        i = i + 1;
    }
    assert(a@ =~= b@);
    true
}

/// Whether `pat` stands in `s` at position `i`.
pub open spec fn occurs_at(s: Seq<u8>, i: int, pat: Seq<u8>) -> bool {
    0 <= i && i + pat.len() <= s.len() && s.subrange(i, i + pat.len()) == pat
}

/// Computes [`occurs_at`].
pub fn matches_at(s: &[u8], i: usize, pat: &[u8]) -> (r: bool)
    ensures
        r == occurs_at(s@, i as int, pat@),
{
    let m: usize = pat.len();
    if i > s.len() || m > s.len() - i {
        return false;
    }
    let n: usize = s.len();
    let mut k: usize = 0;
    while k < m
        invariant
            m == pat@.len(),
            n == s@.len(),
            i + m <= n,
            k <= m,
            forall|t: int| 0 <= t < k ==> s@[i + t] == pat@[t],
        decreases m - k,
    {
        if s[i + k] != pat[k] {
            assert(s@.subrange(i as int, i + m)[k as int] == s@[i + k]);
            return false;
        }
        k = k + 1;
    }
    assert(s@.subrange(i as int, i + m) =~= pat@);
    true
}

/// The first position of `x` among the rows, if it is one of them.
pub open spec fn first_index(rows: Seq<Seq<u8>>, x: Seq<u8>) -> Option<int>
    decreases rows.len(),
{
    if rows.len() == 0 {
        None
    } else {
        match first_index(rows.drop_last(), x) {
            Some(i) => Some(i),
            None => if rows.last() == x {
                Some(rows.len() - 1)
            } else {
                None
            },
        }
    }
}

/// [`first_index`] finds `x` exactly when it is among the rows, and then at
/// its first occurrence.
pub proof fn lemma_first_index(rows: Seq<Seq<u8>>, x: Seq<u8>)
    ensures
        first_index(rows, x) is Some <==> rows.contains(x),
        first_index(rows, x) matches Some(i) ==> 0 <= i < rows.len() && rows[i] == x && forall|
            k: int,
        | 0 <= k < i ==> rows[k] != x,
    decreases rows.len(),
{
    if rows.len() > 0 {
        let front = rows.drop_last();
        lemma_first_index(front, x);
        if first_index(front, x) is None {
            if rows.last() == x {
                assert(rows[rows.len() - 1] == x);
                assert forall|k: int| 0 <= k < rows.len() - 1 implies rows[k] != x by {
                    if rows[k] == x {
                        assert(front[k] == x);
                    }
                }
            } else {
                if rows.contains(x) {
                    let k = choose|k: int| 0 <= k < rows.len() && rows[k] == x;
                    assert(front[k] == x);
                }
            }
        } else {
            let i = first_index(front, x).unwrap();
            assert(rows[i] == front[i]);
            assert forall|k: int| 0 <= k < i implies rows[k] != x by {
                assert(rows[k] == front[k]);
            }
        }
    }
}

/// Computes [`first_index`] over the rows' views.
pub fn find_row(rows: &Vec<Vec<u8>>, x: &[u8]) -> (r: Option<usize>)
    ensures
        match r {
            Some(i) => first_index(views(rows@), x@) == Some(i as int),
            None => first_index(views(rows@), x@) is None,
        },
{
    let n: usize = rows.len();
    let mut i: usize = 0;
    while i < n
        invariant
            n == rows@.len(),
            i <= n,
            first_index(views(rows@).take(i as int), x@) is None,
        decreases n - i,
    {
        proof {
            let next = views(rows@).take(i + 1);
            assert(next.drop_last() =~= views(rows@).take(i as int));
            assert(next.last() == rows@[i as int]@);
        }
        if same_bytes(rows[i].as_slice(), x) {
            proof {
                lemma_first_index_prefix(views(rows@), x@, i + 1);
            }
            return Some(i);
        }
        i = i + 1;
    }
    assert(views(rows@).take(n as int) =~= views(rows@));
    None
}

/// A hit in a prefix of the rows is the hit in all of them.
pub proof fn lemma_first_index_prefix(rows: Seq<Seq<u8>>, x: Seq<u8>, n: int)
    requires
        0 <= n <= rows.len(),
        first_index(rows.take(n), x) is Some,
    ensures
        first_index(rows, x) == first_index(rows.take(n), x),
    decreases rows.len() - n,
{
    if n < rows.len() {
        let next = rows.take(n + 1);
        assert(next.drop_last() =~= rows.take(n));
        lemma_first_index_prefix(rows, x, n + 1);
    } else {
        assert(rows.take(n) =~= rows);
    }
}

/// Whether `x` is one of the rows.
pub fn has_row(rows: &Vec<Vec<u8>>, x: &[u8]) -> (r: bool)
    ensures
        r == views(rows@).contains(x@),
{
    proof {
        lemma_first_index(views(rows@), x@);
    }
    find_row(rows, x).is_some()
}

/// The blank-separated words of `s` from position `i` on.
pub open spec fn words_from(s: Seq<u8>, i: int) -> Seq<Seq<u8>>
    decreases s.len() - i,
    via words_from_decreases
{
    let a = run_end(s, i, ByteClass::Space);
    if 0 <= i <= a < s.len() {
        let b = run_end(s, a, ByteClass::Word);
        seq![s.subrange(a, b)] + words_from(s, b)
    } else {
        Seq::empty()
    }
}

#[via_fn]
proof fn words_from_decreases(s: Seq<u8>, i: int) {
    let a = run_end(s, i, ByteClass::Space);
    if 0 <= i <= a < s.len() {
        lemma_run_end(s, i, ByteClass::Space);
        lemma_run_end(s, a, ByteClass::Word);
    }
}

/// The blank-separated words of `s`.
pub open spec fn words(s: Seq<u8>) -> Seq<Seq<u8>> {
    words_from(s, 0)
}

/// Computes [`words`].
pub fn split_words(s: &[u8]) -> (out: Vec<Vec<u8>>)
    ensures
        views(out@) == words(s@),
{
    let n: usize = s.len();
    let mut out: Vec<Vec<u8>> = Vec::new();
    let mut pos: usize = 0;
    assert(views(out@) =~= Seq::<Seq<u8>>::empty());
    loop
        invariant
            n == s@.len(),
            pos <= n,
            words(s@) == views(out@) + words_from(s@, pos as int),
        ensures
            views(out@) == words(s@),
        decreases n - pos,
    {
        let a: usize = scan_run(s, pos, ByteClass::Space);
        if a >= n {
            assert(words_from(s@, pos as int) =~= Seq::<Seq<u8>>::empty());
            assert(views(out@) + Seq::<Seq<u8>>::empty() =~= views(out@));
            break ;
        }
        let b: usize = scan_run(s, a, ByteClass::Word);
        proof {
            lemma_run_end(s@, a as int, ByteClass::Word);
            lemma_run_end(s@, pos as int, ByteClass::Space);
        }
        let word = slice_to_vec(slice_subrange(s, a, b));
        let ghost before = views(out@);
        out.push(word);
        proof {
            assert(views(out@) =~= before + seq![s@.subrange(a as int, b as int)]);
            assert(words(s@) =~= views(out@) + words_from(s@, b as int));
        }
        pos = b;
    }
    out
}

/// The pieces of `s` from position `i` on, cut at each `sep`; every piece is
/// trimmed.  The text after the last `sep` is a piece too, even if empty.
pub open spec fn pieces_from(s: Seq<u8>, i: int, sep: u8) -> Seq<Seq<u8>>
    decreases s.len() - i,
    via pieces_from_decreases
{
    if 0 <= i <= s.len() {
        let e = run_end(s, i, ByteClass::Other(sep));
        if e < s.len() {
            seq![trimmed(s.subrange(i, e))] + pieces_from(s, e + 1, sep)
        } else {
            seq![trimmed(s.subrange(i, e))]
        }
    } else {
        Seq::empty()
    }
}

#[via_fn]
proof fn pieces_from_decreases(s: Seq<u8>, i: int, sep: u8) {
    if 0 <= i <= s.len() {
        lemma_run_end(s, i, ByteClass::Other(sep));
    }
}

/// The trimmed pieces of `s` between occurrences of `sep`; a text that is
/// blank throughout has no pieces.
pub open spec fn pieces(s: Seq<u8>, sep: u8) -> Seq<Seq<u8>> {
    if trimmed(s).len() == 0 {
        Seq::empty()
    } else {
        pieces_from(s, 0, sep)
    }
}

/// Computes [`pieces`].
pub fn split_pieces(s: &[u8], sep: u8) -> (out: Vec<Vec<u8>>)
    ensures
        views(out@) == pieces(s@, sep),
{
    let n: usize = s.len();
    let mut out: Vec<Vec<u8>> = Vec::new();
    assert(views(out@) =~= Seq::<Seq<u8>>::empty());
    let whole = trim(s);
    if whole.len() == 0 {
        return out;
    }
    let mut pos: usize = 0;
    loop
        invariant_except_break
            pieces(s@, sep) == views(out@) + pieces_from(s@, pos as int, sep),
        invariant
            n == s@.len(),
            pos <= n,
        ensures
            views(out@) == pieces(s@, sep),
        decreases n - pos,
    {
        let e: usize = scan_run(s, pos, ByteClass::Other(sep));
        let piece = trim(slice_subrange(s, pos, e));
        let ghost before = views(out@);
        out.push(piece);
        proof {
            assert(views(out@) =~= before + seq![trimmed(s@.subrange(pos as int, e as int))]);
        }
        if e >= n {
            assert(pieces(s@, sep) =~= views(out@));
            break ;
        }
        proof {
            assert(pieces(s@, sep) =~= views(out@) + pieces_from(s@, e + 1, sep));
        }
        pos = e + 1;
    }
    out
}

} // verus!
