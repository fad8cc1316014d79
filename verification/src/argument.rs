//! Arguments: the typed value of a directive's argument text, and the
//! findings about a text that does not fit the directive's grammar or names
//! a platform that the catalog does not list.

use crate::catalog::{Catalog, CatalogView, ValueKind};
use crate::diagnostic::{
    finding, make_phrase, make_phrase2, phrase, phrase2, Diagnostic, DiagnosticKind,
    DiagnosticView,
};
use crate::directive::{RawDirective, RawDirectiveView};
use crate::distance::suggested;
use crate::registry::{ArgGrammar, GrammarView, KeySpec, KeySpecView};
use crate::text::{
    first_index, is_space, lemma_first_index_prefix, lemma_views_push, matches_at, occurs_at,
    pieces, run_end, same_bytes, scan_run, split_pieces, split_words, trim, trimmed, views, words,
    ByteClass, COMMA, EQUALS,
};
use vstd::prelude::*;
use vstd::slice::slice_subrange;

verus! {

/// A key with its value.
#[derive(Debug, Clone, PartialEq, Eq)]
pub struct Pair {
    pub key: Vec<u8>,
    pub value: Vec<u8>,
}

/// The mathematical value of a [`Pair`].
pub ghost struct PairView {
    pub key: Seq<u8>,
    pub value: Seq<u8>,
}

impl View for Pair {
    type V = PairView;

    open spec fn view(&self) -> PairView {
        PairView { key: self.key@, value: self.value@ }
    }
}

/// The typed value of an argument.
#[derive(Debug, Clone, PartialEq, Eq)]
pub enum ArgValue {
    Flag,
    Text(Vec<u8>),
    List(Vec<Vec<u8>>),
    Pairs(Vec<Pair>),
}

/// The mathematical value of an [`ArgValue`].
pub ghost enum ValueView {
    Flag,
    Text(Seq<u8>),
    List(Seq<Seq<u8>>),
    Pairs(Seq<PairView>),
}

impl View for ArgValue {
    type V = ValueView;

    open spec fn view(&self) -> ValueView {
        match self {
            ArgValue::Flag => ValueView::Flag,
            ArgValue::Text(text) => ValueView::Text(text@),
            ArgValue::List(items) => ValueView::List(views(items@)),
            ArgValue::Pairs(pairs) => ValueView::Pairs(views(pairs@)),
        }
    }
}

/// The values of the pairs, in order.
pub open spec fn pair_values(pairs: Seq<PairView>) -> Seq<Seq<u8>> {
    Seq::new(pairs.len(), |i: int| pairs[i].value)
}

impl ValueView {
    /// The value as a list of strings: a flag stands for the name of its
    /// directive, a text for itself, a list for its items and pairs for
    /// their values.
    pub open spec fn strings(self, name: Seq<u8>) -> Seq<Seq<u8>> {
        match self {
            ValueView::Flag => seq![name],
            ValueView::Text(text) => seq![text],
            ValueView::List(items) => items,
            ValueView::Pairs(pairs) => pair_values(pairs),
        }
    }

    /// The value as a list of pairs; only pairs have any.
    pub open spec fn pairs(self) -> Seq<PairView> {
        match self {
            ValueView::Pairs(pairs) => pairs,
            _ => Seq::empty(),
        }
    }
}

/// A copy of the rows.
pub fn copy_rows(rows: &Vec<Vec<u8>>) -> (out: Vec<Vec<u8>>)
    ensures
        views(out@) == views(rows@),
{
    let n: usize = rows.len();
    let mut out: Vec<Vec<u8>> = Vec::new();
    let mut i: usize = 0;
    assert(views(out@) =~= views(rows@).take(0));
    while i < n
        invariant
            n == rows@.len(),
            i <= n,
            views(out@) == views(rows@).take(i as int),
        decreases n - i,
    {
        let row = rows[i].clone();
        proof {
            lemma_views_push(out@, row);
            assert(views(rows@).take(i + 1) =~= views(rows@).take(i as int).push(row@));
        }
        out.push(row);
        i = i + 1;
    }
    assert(views(rows@).take(n as int) =~= views(rows@));
    out
}

/// A copy of the pairs.
pub fn copy_pairs(pairs: &Vec<Pair>) -> (out: Vec<Pair>)
    ensures
        views(out@) == views(pairs@),
{
    let n: usize = pairs.len();
    let mut out: Vec<Pair> = Vec::new();
    let mut i: usize = 0;
    assert(views(out@) =~= views(pairs@).take(0));
    while i < n
        invariant
            n == pairs@.len(),
            i <= n,
            views(out@) == views(pairs@).take(i as int),
        decreases n - i,
    {
        let pair = Pair { key: pairs[i].key.clone(), value: pairs[i].value.clone() };
        proof {
            lemma_views_push(out@, pair);
            assert(views(pairs@).take(i + 1) =~= views(pairs@).take(i as int).push(pair@));
        }
        out.push(pair);
        i = i + 1;
    }
    assert(views(pairs@).take(n as int) =~= views(pairs@));
    out
}

impl ArgValue {
    /// Computes [`ValueView::strings`].
    pub fn strings(&self, name: &[u8]) -> (out: Vec<Vec<u8>>)
        ensures
            views(out@) == self@.strings(name@),
    {
        match self {
            ArgValue::Flag => {
                let mut out: Vec<Vec<u8>> = Vec::new();
                out.push(vstd::slice::slice_to_vec(name));
                assert(views(out@) =~= seq![name@]);
                out
            },
            ArgValue::Text(text) => {
                let mut out: Vec<Vec<u8>> = Vec::new();
                out.push(text.clone());
                assert(views(out@) =~= seq![text@]);
                out
            },
            ArgValue::List(items) => copy_rows(items),
            ArgValue::Pairs(pairs) => {
                let n: usize = pairs.len();
                let mut out: Vec<Vec<u8>> = Vec::new();
                let mut i: usize = 0;
                assert(views(out@) =~= pair_values(views(pairs@)).take(0));
                while i < n
                    invariant
                        n == pairs@.len(),
                        i <= n,
                        views(out@) == pair_values(views(pairs@)).take(i as int),
                    decreases n - i,
                {
                    let value = pairs[i].value.clone();
                    proof {
                        lemma_views_push(out@, value);
                        assert(pair_values(views(pairs@)).take(i + 1) =~= pair_values(
                            views(pairs@),
                        ).take(i as int).push(value@));
                    }
                    out.push(value);
                    i = i + 1;
                }
                assert(pair_values(views(pairs@)).take(n as int) =~= pair_values(views(pairs@)));
                out
            },
        }
    }

    /// Computes [`ValueView::pairs`].
    pub fn pairs(&self) -> (out: Vec<Pair>)
        ensures
            views(out@) == self@.pairs(),
    {
        match self {
            ArgValue::Pairs(pairs) => copy_pairs(pairs),
            _ => {
                let out: Vec<Pair> = Vec::new();
                assert(views(out@) =~= Seq::<PairView>::empty());
                out
            },
        }
    }
}

/// Whether `flag` stands in `args` at `k` as a flag of its own: it starts
/// the text or follows a blank, and it ends the text or is followed by a
/// blank or an equals sign.
pub open spec fn carried_at(args: Seq<u8>, flag: Seq<u8>, k: int) -> bool {
    &&& occurs_at(args, k, flag)
    &&& k == 0 || is_space(args[k - 1])
    &&& k + flag.len() == args.len() || is_space(args[k + flag.len()]) || args[k + flag.len()]
        == EQUALS
}

/// Whether the argument text carries `flag`.  The empty flag is carried by
/// every text.
pub open spec fn carries(args: Seq<u8>, flag: Seq<u8>) -> bool {
    flag.len() == 0 || exists|k: int| 0 <= k <= args.len() && #[trigger] carried_at(args, flag, k)
}

/// Computes [`carried_at`].
fn is_carried_at(args: &[u8], flag: &[u8], k: usize) -> (b: bool)
    requires
        k <= args@.len(),
    ensures
        b == carried_at(args@, flag@, k as int),
{
    if !matches_at(args, k, flag) {
        return false;
    }
    let n: usize = args.len();
    assert(k + flag@.len() <= n);
    let end: usize = k + flag.len();
    let starts = k == 0 || ByteClass::Space.contains(args[k - 1]);
    let ends = end == n || ByteClass::Space.contains(args[end]) || args[end] == EQUALS;
    starts && ends
}

/// Computes [`carries`].
pub fn carries_flag(args: &[u8], flag: &[u8]) -> (b: bool)
    ensures
        b == carries(args@, flag@),
{
    if flag.len() == 0 {
        return true;
    }
    let n: usize = args.len();
    let mut k: usize = 0;
    while k < n
        invariant
            n == args@.len(),
            k <= n,
            forall|t: int| 0 <= t < k ==> !carried_at(args@, flag@, t),
        decreases n - k,
    {
        if is_carried_at(args, flag, k) {
            return true;
        }
        k = k + 1;
    }
    assert(!carried_at(args@, flag@, n as int));
    false
}

/// The pair that a piece of the form `key = value` stands for: the key is
/// what precedes the first equals sign and must not be blank.
pub open spec fn pair_of(piece: Seq<u8>) -> Option<PairView> {
    let at = run_end(piece, 0, ByteClass::Other(EQUALS));
    if at >= piece.len() || trimmed(piece.subrange(0, at)).len() == 0 {
        None
    } else {
        Some(
            PairView {
                key: trimmed(piece.subrange(0, at)),
                value: trimmed(piece.subrange(at + 1, piece.len() as int)),
            },
        )
    }
}

/// Computes [`pair_of`].
pub fn split_pair(piece: &[u8]) -> (r: Option<Pair>)
    ensures
        match r {
            Some(p) => pair_of(piece@) == Some(p@),
            None => pair_of(piece@) is None,
        },
{
    let n: usize = piece.len();
    let at: usize = scan_run(piece, 0, ByteClass::Other(EQUALS));
    if at >= n {
        return None;
    }
    let key = trim(slice_subrange(piece, 0, at));
    if key.len() == 0 {
        return None;
    }
    let value = trim(slice_subrange(piece, at + 1, n));
    Some(Pair { key, value })
}

/// The names of the keys, in order.
pub open spec fn key_names(keys: Seq<KeySpecView>) -> Seq<Seq<u8>> {
    Seq::new(keys.len(), |i: int| keys[i].key)
}

/// The kind of value that `key` takes: that of the first listed key of this
/// name; free text for a key that an open grammar does not list; none for a
/// key that a closed grammar does not list.
pub open spec fn kind_of_key(keys: Seq<KeySpecView>, open: bool, key: Seq<u8>) -> Option<
    ValueKind,
> {
    match first_index(key_names(keys), key) {
        Some(i) => Some(keys[i].kind),
        None => if open {
            Some(ValueKind::Plain)
        } else {
            None
        },
    }
}

/// Computes [`kind_of_key`].
pub fn find_kind(keys: &Vec<KeySpec>, open: bool, key: &[u8]) -> (r: Option<ValueKind>)
    ensures
        r == kind_of_key(views(keys@), open, key@),
{
    let n: usize = keys.len();
    let ghost names = key_names(views(keys@));
    let mut i: usize = 0;
    while i < n
        invariant
            n == keys@.len(),
            names == key_names(views(keys@)),
            i <= n,
            first_index(names.take(i as int), key@) is None,
        decreases n - i,
    {
        proof {
            let next = names.take(i + 1);
            assert(next.drop_last() =~= names.take(i as int));
            assert(next.last() == keys@[i as int].key@);
        }
        if same_bytes(keys[i].key.as_slice(), key) {
            proof {
                lemma_first_index_prefix(names, key@, i + 1);
            }
            return Some(keys[i].kind);
        }
        i = i + 1;
    }
    assert(names.take(n as int) =~= names);
    if open {
        Some(ValueKind::Plain)
    } else {
        None
    }
}

/// The message about a value that the catalog does not list.
pub open spec fn platform_message(kind: ValueKind, value: Seq<u8>) -> Seq<u8> {
    match kind {
        ValueKind::Plain => phrase("unknown value `", value, "`"),
        ValueKind::Target => phrase("unknown target `", value, "`"),
        ValueKind::Architecture => phrase("unknown architecture `", value, "`"),
        ValueKind::OperatingSystem => phrase("unknown operating system `", value, "`"),
        ValueKind::Vendor => phrase("unknown vendor `", value, "`"),
    }
}

/// The findings about one value of the given kind: none if the catalog
/// accepts it, else one that suggests the nearest listed value.
pub open spec fn value_findings(
    d: RawDirectiveView,
    kind: ValueKind,
    value: Seq<u8>,
    catalog: CatalogView,
) -> Seq<DiagnosticView> {
    if catalog.accepts(kind, value) {
        Seq::empty()
    } else {
        seq![
            finding(
                DiagnosticKind::UnknownPlatform,
                d.location,
                platform_message(kind, value),
                suggested(value, catalog.listed(kind)),
            ),
        ]
    }
}

/// Appends [`value_findings`].
fn check_value(
    out: &mut Vec<Diagnostic>,
    d: &RawDirective,
    kind: ValueKind,
    value: &[u8],
    catalog: &Catalog,
)
    ensures
        views(final(out)@) == views(old(out)@) + value_findings(d@, kind, value@, catalog@),
{
    if catalog.accepts(kind, value) {
        assert(views(out@) + Seq::<DiagnosticView>::empty() =~= views(out@));
        return ;
    }
    let message = match kind {
        ValueKind::Plain => make_phrase("unknown value `", value, "`"),
        ValueKind::Target => make_phrase("unknown target `", value, "`"),
        ValueKind::Architecture => make_phrase("unknown architecture `", value, "`"),
        ValueKind::OperatingSystem => make_phrase("unknown operating system `", value, "`"),
        ValueKind::Vendor => make_phrase("unknown vendor `", value, "`"),
    };
    let found = Diagnostic::new(
        DiagnosticKind::UnknownPlatform,
        d.location,
        message,
        catalog.nearest(kind, value),
    );
    proof {
        lemma_views_push(out@, found);
        assert(views(out@).push(found@) =~= views(out@) + seq![found@]);
    }
    out.push(found);
}

/// The findings about the first `n` of the values of a list.
pub open spec fn list_findings(
    d: RawDirectiveView,
    kind: ValueKind,
    items: Seq<Seq<u8>>,
    catalog: CatalogView,
    n: nat,
) -> Seq<DiagnosticView>
    decreases n,
{
    if n == 0 {
        Seq::empty()
    } else {
        list_findings(d, kind, items, catalog, (n - 1) as nat) + value_findings(
            d,
            kind,
            items[n - 1],
            catalog,
        )
    }
}

/// The findings about one piece of a key/value argument: that it is no
/// pair, that its key is not known, or that its value is not listed.
pub open spec fn piece_findings(
    d: RawDirectiveView,
    keys: Seq<KeySpecView>,
    open: bool,
    piece: Seq<u8>,
    catalog: CatalogView,
) -> Seq<DiagnosticView> {
    match pair_of(piece) {
        None => seq![
            finding(
                DiagnosticKind::MalformedPair,
                d.location,
                phrase("`", piece, "` is not of the form key = value"),
                None,
            ),
        ],
        Some(pair) => match kind_of_key(keys, open, pair.key) {
            None => seq![
                finding(
                    DiagnosticKind::UnknownKey,
                    d.location,
                    phrase2("directive `", d.name, "` has no key `", pair.key, "`"),
                    suggested(pair.key, key_names(keys)),
                ),
            ],
            Some(kind) => value_findings(d, kind, pair.value, catalog),
        },
    }
}

/// The findings about the first `n` pieces of a key/value argument.
pub open spec fn pieces_findings(
    d: RawDirectiveView,
    keys: Seq<KeySpecView>,
    open: bool,
    all: Seq<Seq<u8>>,
    catalog: CatalogView,
    n: nat,
) -> Seq<DiagnosticView>
    decreases n,
{
    if n == 0 {
        Seq::empty()
    } else {
        pieces_findings(d, keys, open, all, catalog, (n - 1) as nat) + piece_findings(
            d,
            keys,
            open,
            all[n - 1],
            catalog,
        )
    }
}

/// The pairs among the first `n` pieces, in order.
pub open spec fn pairs_among(all: Seq<Seq<u8>>, n: nat) -> Seq<PairView>
    decreases n,
{
    if n == 0 {
        Seq::empty()
    } else {
        match pair_of(all[n - 1]) {
            Some(pair) => pairs_among(all, (n - 1) as nat).push(pair),
            None => pairs_among(all, (n - 1) as nat),
        }
    }
}

/// The findings about a directive's argument, read by the given grammar.
pub open spec fn argument_findings(
    d: RawDirectiveView,
    grammar: GrammarView,
    catalog: CatalogView,
) -> Seq<DiagnosticView> {
    match grammar {
        GrammarView::Flag => if d.raw_args.len() == 0 {
            Seq::empty()
        } else {
            seq![
                finding(
                    DiagnosticKind::UnexpectedArgument,
                    d.location,
                    phrase("directive `", d.name, "` takes no argument"),
                    None,
                ),
            ]
        },
        GrammarView::Text(kind) => if d.raw_args.len() == 0 {
            seq![
                finding(
                    DiagnosticKind::MissingArgument,
                    d.location,
                    phrase("directive `", d.name, "` needs an argument"),
                    None,
                ),
            ]
        } else {
            value_findings(d, kind, d.raw_args, catalog)
        },
        GrammarView::List(kind) => list_findings(
            d,
            kind,
            words(d.raw_args),
            catalog,
            words(d.raw_args).len(),
        ),
        GrammarView::KeyValue { keys, open } => pieces_findings(
            d,
            keys,
            open,
            pieces(d.raw_args, COMMA),
            catalog,
            pieces(d.raw_args, COMMA).len(),
        ),
    }
}

/// The typed value of a directive's argument, read by the given grammar.
/// Pieces of a key/value argument that are no pairs are left out.
pub open spec fn argument_value(d: RawDirectiveView, grammar: GrammarView) -> ValueView {
    match grammar {
        GrammarView::Flag => ValueView::Flag,
        GrammarView::Text(_) => ValueView::Text(d.raw_args),
        GrammarView::List(_) => ValueView::List(words(d.raw_args)),
        GrammarView::KeyValue { .. } => ValueView::Pairs(
            pairs_among(pieces(d.raw_args, COMMA), pieces(d.raw_args, COMMA).len()),
        ),
    }
}

/// Reads the argument of `d` by `grammar`.  Returns the typed value and the
/// findings about the argument.
pub fn read_argument(d: &RawDirective, grammar: &ArgGrammar, catalog: &Catalog) -> (r: (
    ArgValue,
    Vec<Diagnostic>,
))
    ensures
        r.0@ == argument_value(d@, grammar@),
        views(r.1@) == argument_findings(d@, grammar@, catalog@),
{
    let mut out: Vec<Diagnostic> = Vec::new();
    assert(views(out@) =~= Seq::<DiagnosticView>::empty());
    match grammar {
        ArgGrammar::Flag => {
            if d.raw_args.len() != 0 {
                let found = Diagnostic::new(
                    DiagnosticKind::UnexpectedArgument,
                    d.location,
                    make_phrase("directive `", d.name.as_slice(), "` takes no argument"),
                    None,
                );
                proof {
                    lemma_views_push(out@, found);
                    assert(views(out@).push(found@) =~= seq![found@]);
                }
                out.push(found);
            }
            (ArgValue::Flag, out)
        },
        ArgGrammar::Text(kind) => {
            if d.raw_args.len() == 0 {
                let found = Diagnostic::new(
                    DiagnosticKind::MissingArgument,
                    d.location,
                    make_phrase("directive `", d.name.as_slice(), "` needs an argument"),
                    None,
                );
                proof {
                    lemma_views_push(out@, found);
                    assert(views(out@).push(found@) =~= seq![found@]);
                }
                out.push(found);
            } else {
                check_value(&mut out, d, *kind, d.raw_args.as_slice(), catalog);
                assert(Seq::<DiagnosticView>::empty() + value_findings(
                    d@,
                    *kind,
                    d.raw_args@,
                    catalog@,
                ) =~= value_findings(d@, *kind, d.raw_args@, catalog@));
            }
            (ArgValue::Text(d.raw_args.clone()), out)
        },
        ArgGrammar::List(kind) => {
            let items = split_words(d.raw_args.as_slice());
            let n: usize = items.len();
            let mut i: usize = 0;
            while i < n
                invariant
                    n == items@.len(),
                    i <= n,
                    views(items@) == words(d@.raw_args),
                    views(out@) == list_findings(d@, *kind, views(items@), catalog@, i as nat),
                decreases n - i,
            {
                check_value(&mut out, d, *kind, items[i].as_slice(), catalog);
                i = i + 1;
            }
            (ArgValue::List(items), out)
        },
        ArgGrammar::KeyValue { keys, open } => {
            let all = split_pieces(d.raw_args.as_slice(), COMMA);
            let n: usize = all.len();
            let mut pairs: Vec<Pair> = Vec::new();
            assert(views(pairs@) =~= Seq::<PairView>::empty());
            let mut i: usize = 0;
            while i < n
                invariant
                    n == all@.len(),
                    i <= n,
                    views(all@) == pieces(d@.raw_args, COMMA),
                    views(pairs@) == pairs_among(views(all@), i as nat),
                    views(out@) == pieces_findings(
                        d@,
                        views(keys@),
                        *open,
                        views(all@),
                        catalog@,
                        i as nat,
                    ),
                decreases n - i,
            {
                let piece: &[u8] = all[i].as_slice();
                match split_pair(piece) {
                    None => {
                        let found = Diagnostic::new(
                            DiagnosticKind::MalformedPair,
                            d.location,
                            make_phrase("`", piece, "` is not of the form key = value"),
                            None,
                        );
                        proof {
                            lemma_views_push(out@, found);
                            assert(views(out@).push(found@) =~= views(out@) + seq![found@]);
                        }
                        out.push(found);
                    },
                    Some(pair) => {
                        match find_kind(keys, *open, pair.key.as_slice()) {
                            None => {
                                let names = key_name_rows(keys);
                                let found = Diagnostic::new(
                                    DiagnosticKind::UnknownKey,
                                    d.location,
                                    make_phrase2(
                                        "directive `",
                                        d.name.as_slice(),
                                        "` has no key `",
                                        pair.key.as_slice(),
                                        "`",
                                    ),
                                    crate::distance::suggest(pair.key.as_slice(), &names),
                                );
                                proof {
                                    lemma_views_push(out@, found);
                                    assert(views(out@).push(found@) =~= views(out@) + seq![
                                        found@,
                                    ]);
                                }
                                out.push(found);
                            },
                            Some(kind) => {
                                check_value(&mut out, d, kind, pair.value.as_slice(), catalog);
                            },
                        }
                        proof {
                            lemma_views_push(pairs@, pair);
                        }
                        pairs.push(pair);
                    },
                }
                i = i + 1;
            }
            (ArgValue::Pairs(pairs), out)
        },
    }
}

/// The names of the keys, as rows.
fn key_name_rows(keys: &Vec<KeySpec>) -> (out: Vec<Vec<u8>>)
    ensures
        views(out@) == key_names(views(keys@)),
{
    let n: usize = keys.len();
    let mut out: Vec<Vec<u8>> = Vec::new();
    let mut i: usize = 0;
    assert(views(out@) =~= key_names(views(keys@)).take(0));
    while i < n
        invariant
            n == keys@.len(),
            i <= n,
            views(out@) == key_names(views(keys@)).take(i as int),
        decreases n - i,
    {
        let name = keys[i].key.clone();
        proof {
            lemma_views_push(out@, name);
            assert(key_names(views(keys@)).take(i + 1) =~= key_names(views(keys@)).take(
                i as int,
            ).push(name@));
        }
        out.push(name);
        i = i + 1;
    }
    assert(key_names(views(keys@)).take(n as int) =~= key_names(views(keys@)));
    out
}

} // verus!
