//! The catalog of platforms: the targets, architectures, operating systems
//! and vendors that a directive may name, and the names that the language
//! reserves for its built-in configuration predicates.

use crate::distance::{suggest, suggested};
use crate::text::{has_row, lemma_views_push, lit, no_rows, option_view, push_literal, views};
use vstd::prelude::*;

verus! {

/// What kind of value an argument holds, and so which list of the catalog
/// it is checked against.
#[derive(Debug, Copy, Clone, PartialEq, Eq, Structural)]
pub enum ValueKind {
    /// Free text; the catalog has no say.
    Plain,
    /// A target identifier.
    Target,
    /// An architecture.
    Architecture,
    /// An operating system.
    OperatingSystem,
    /// A vendor.
    Vendor,
}

/// The catalog's lists.
#[derive(Debug, Clone, PartialEq, Eq)]
pub struct Catalog {
    targets: Vec<Vec<u8>>,
    architectures: Vec<Vec<u8>>,
    operating_systems: Vec<Vec<u8>>,
    vendors: Vec<Vec<u8>>,
    reserved_names: Vec<Vec<u8>>,
}

/// The mathematical value of a [`Catalog`].
pub ghost struct CatalogView {
    pub targets: Seq<Seq<u8>>,
    pub architectures: Seq<Seq<u8>>,
    pub operating_systems: Seq<Seq<u8>>,
    pub vendors: Seq<Seq<u8>>,
    pub reserved_names: Seq<Seq<u8>>,
}

impl CatalogView {
    /// The catalog without any entry.
    pub open spec fn empty() -> CatalogView {
        CatalogView {
            targets: Seq::empty(),
            architectures: Seq::empty(),
            operating_systems: Seq::empty(),
            vendors: Seq::empty(),
            reserved_names: Seq::empty(),
        }
    }

    /// The values of the given kind that the catalog lists.
    pub open spec fn listed(self, kind: ValueKind) -> Seq<Seq<u8>> {
        match kind {
            ValueKind::Plain => Seq::empty(),
            ValueKind::Target => self.targets,
            ValueKind::Architecture => self.architectures,
            ValueKind::OperatingSystem => self.operating_systems,
            ValueKind::Vendor => self.vendors,
        }
    }

    /// Whether `value` is acceptable as a value of the given kind: free text
    /// always is, anything else only if the catalog lists it.
    pub open spec fn accepts(self, kind: ValueKind, value: Seq<u8>) -> bool {
        kind == ValueKind::Plain || self.listed(kind).contains(value)
    }

    /// Whether `name` is the name of a built-in configuration predicate.
    pub open spec fn is_reserved(self, name: Seq<u8>) -> bool {
        self.reserved_names.contains(name)
    }

    /// The catalog with `value` added to the list of the given kind.
    pub open spec fn with_value(self, kind: ValueKind, value: Seq<u8>) -> CatalogView {
        match kind {
            ValueKind::Plain => self,
            ValueKind::Target => CatalogView { targets: self.targets.push(value), ..self },
            ValueKind::Architecture => CatalogView {
                architectures: self.architectures.push(value),
                ..self
            },
            ValueKind::OperatingSystem => CatalogView {
                operating_systems: self.operating_systems.push(value),
                ..self
            },
            ValueKind::Vendor => CatalogView { vendors: self.vendors.push(value), ..self },
        }
    }

    /// The catalog with `name` added to the reserved names.
    pub open spec fn with_reserved(self, name: Seq<u8>) -> CatalogView {
        CatalogView { reserved_names: self.reserved_names.push(name), ..self }
    }

    /// The catalog that the library starts from.
    pub open spec fn standard() -> CatalogView {
        CatalogView {
            targets: seq![
                lit("x86_64-unknown-linux-gnu"),
                lit("x86_64-pc-windows-msvc"),
                lit("x86_64-apple-darwin"),
                lit("aarch64-unknown-linux-gnu"),
                lit("aarch64-apple-darwin"),
                lit("i686-unknown-linux-gnu"),
                lit("riscv64gc-unknown-linux-gnu"),
                lit("wasm32-unknown-unknown"),
                lit("thumbv8m.main-none-eabi"),
            ],
            architectures: seq![
                lit("x86"),
                lit("x86_64"),
                lit("arm"),
                lit("aarch64"),
                lit("riscv64"),
                lit("wasm32"),
            ],
            operating_systems: seq![
                lit("linux"),
                lit("windows"),
                lit("macos"),
                lit("android"),
                lit("freebsd"),
                lit("none"),
            ],
            vendors: seq![lit("unknown"), lit("pc"), lit("apple")],
            reserved_names: seq![
                lit("true"),
                lit("false"),
                lit("unix"),
                lit("windows"),
                lit("test"),
                lit("debug_assertions"),
                lit("target_os"),
                lit("target_arch"),
                lit("target_vendor"),
                lit("target_env"),
                lit("target_family"),
                lit("target_endian"),
                lit("target_pointer_width"),
                lit("panic"),
                lit("miri"),
            ],
        }
    }
}

impl View for Catalog {
    type V = CatalogView;

    closed spec fn view(&self) -> CatalogView {
        CatalogView {
            targets: views(self.targets@),
            architectures: views(self.architectures@),
            operating_systems: views(self.operating_systems@),
            vendors: views(self.vendors@),
            reserved_names: views(self.reserved_names@),
        }
    }
}

impl Catalog {
    /// A catalog without any entry.
    pub fn new() -> (c: Catalog)
        ensures
            c@ == CatalogView::empty(),
    {
        let c = Catalog {
            targets: Vec::new(),
            architectures: Vec::new(),
            operating_systems: Vec::new(),
            vendors: Vec::new(),
            reserved_names: Vec::new(),
        };
        assert(views(c.targets@) =~= Seq::<Seq<u8>>::empty());
        assert(views(c.architectures@) =~= Seq::<Seq<u8>>::empty());
        assert(views(c.operating_systems@) =~= Seq::<Seq<u8>>::empty());
        assert(views(c.vendors@) =~= Seq::<Seq<u8>>::empty());
        assert(views(c.reserved_names@) =~= Seq::<Seq<u8>>::empty());
        c
    }

    /// Lists `value` as a value of the given kind.  Free text is not listed.
    pub fn add(&mut self, kind: ValueKind, value: Vec<u8>)
        ensures
            final(self)@ == old(self)@.with_value(kind, value@),
    {
        proof {
            lemma_views_push(self.targets@, value);
            lemma_views_push(self.architectures@, value);
            lemma_views_push(self.operating_systems@, value);
            lemma_views_push(self.vendors@, value);
        }
        match kind {
            ValueKind::Plain => {},
            ValueKind::Target => self.targets.push(value),
            ValueKind::Architecture => self.architectures.push(value),
            ValueKind::OperatingSystem => self.operating_systems.push(value),
            ValueKind::Vendor => self.vendors.push(value),
        }
    }

    /// Reserves `name`, so that no revision may have it.
    pub fn reserve(&mut self, name: Vec<u8>)
        ensures
            final(self)@ == old(self)@.with_reserved(name@),
    {
        proof {
            lemma_views_push(self.reserved_names@, name);
        }
        self.reserved_names.push(name);
    }

    /// Whether `value` is acceptable as a value of the given kind.
    pub fn accepts(&self, kind: ValueKind, value: &[u8]) -> (b: bool)
        ensures
            b == self@.accepts(kind, value@),
    {
        match kind {
            ValueKind::Plain => true,
            ValueKind::Target => has_row(&self.targets, value),
            ValueKind::Architecture => has_row(&self.architectures, value),
            ValueKind::OperatingSystem => has_row(&self.operating_systems, value),
            ValueKind::Vendor => has_row(&self.vendors, value),
        }
    }

    /// Whether `name` is a known target identifier.
    pub fn is_valid_target(&self, name: &[u8]) -> (b: bool)
        ensures
            b == self@.targets.contains(name@),
    {
        has_row(&self.targets, name)
    }

    /// Whether `name` is a known architecture.
    pub fn is_valid_arch(&self, name: &[u8]) -> (b: bool)
        ensures
            b == self@.architectures.contains(name@),
    {
        has_row(&self.architectures, name)
    }

    /// Whether `name` is a known operating system.
    pub fn is_valid_os(&self, name: &[u8]) -> (b: bool)
        ensures
            b == self@.operating_systems.contains(name@),
    {
        has_row(&self.operating_systems, name)
    }

    /// Whether `name` is a known vendor.
    pub fn is_valid_vendor(&self, name: &[u8]) -> (b: bool)
        ensures
            b == self@.vendors.contains(name@),
    {
        has_row(&self.vendors, name)
    }

    /// Whether `name` is reserved for a built-in configuration predicate.
    pub fn is_reserved_revision_name(&self, name: &[u8]) -> (b: bool)
        ensures
            b == self@.is_reserved(name@),
    {
        has_row(&self.reserved_names, name)
    }

    /// The listed value of the given kind that is nearest to `value`, if one
    /// is near enough to be worth suggesting.
    pub fn nearest(&self, kind: ValueKind, value: &[u8]) -> (r: Option<Vec<u8>>)
        ensures
            option_view(r) == suggested(value@, self@.listed(kind)),
    {
        match kind {
            ValueKind::Plain => {
                let none: Vec<Vec<u8>> = Vec::new();
                assert(views(none@) =~= Seq::<Seq<u8>>::empty());
                suggest(value, &none)
            },
            ValueKind::Target => suggest(value, &self.targets),
            ValueKind::Architecture => suggest(value, &self.architectures),
            ValueKind::OperatingSystem => suggest(value, &self.operating_systems),
            ValueKind::Vendor => suggest(value, &self.vendors),
        }
    }

    /// The catalog that the library starts from.
    pub fn standard() -> (c: Catalog)
        ensures
            c@ == CatalogView::standard(),
    {
        Catalog {
            targets: standard_targets(),
            architectures: standard_architectures(),
            operating_systems: standard_operating_systems(),
            vendors: standard_vendors(),
            reserved_names: standard_reserved_names(),
        }
    }
}

fn standard_targets() -> (v: Vec<Vec<u8>>)
    ensures
        views(v@) == CatalogView::standard().targets,
{
    let mut v = no_rows();
    push_literal(&mut v, "x86_64-unknown-linux-gnu");
    push_literal(&mut v, "x86_64-pc-windows-msvc");
    push_literal(&mut v, "x86_64-apple-darwin");
    push_literal(&mut v, "aarch64-unknown-linux-gnu");
    push_literal(&mut v, "aarch64-apple-darwin");
    push_literal(&mut v, "i686-unknown-linux-gnu");
    push_literal(&mut v, "riscv64gc-unknown-linux-gnu");
    push_literal(&mut v, "wasm32-unknown-unknown");
    push_literal(&mut v, "thumbv8m.main-none-eabi");
    v
}

fn standard_architectures() -> (v: Vec<Vec<u8>>)
    ensures
        views(v@) == CatalogView::standard().architectures,
{
    let mut v = no_rows();
    push_literal(&mut v, "x86");
    push_literal(&mut v, "x86_64");
    push_literal(&mut v, "arm");
    push_literal(&mut v, "aarch64");
    push_literal(&mut v, "riscv64");
    push_literal(&mut v, "wasm32");
    v
}

fn standard_operating_systems() -> (v: Vec<Vec<u8>>)
    ensures
        views(v@) == CatalogView::standard().operating_systems,
{
    let mut v = no_rows();
    push_literal(&mut v, "linux");
    push_literal(&mut v, "windows");
    push_literal(&mut v, "macos");
    push_literal(&mut v, "android");
    push_literal(&mut v, "freebsd");
    push_literal(&mut v, "none");
    v
}

fn standard_vendors() -> (v: Vec<Vec<u8>>)
    ensures
        views(v@) == CatalogView::standard().vendors,
{
    let mut v = no_rows();
    push_literal(&mut v, "unknown");
    push_literal(&mut v, "pc");
    push_literal(&mut v, "apple");
    v
}

fn standard_reserved_names() -> (v: Vec<Vec<u8>>)
    ensures
        views(v@) == CatalogView::standard().reserved_names,
{
    let mut v = no_rows();
    push_literal(&mut v, "true");
    push_literal(&mut v, "false");
    push_literal(&mut v, "unix");
    push_literal(&mut v, "windows");
    push_literal(&mut v, "test");
    push_literal(&mut v, "debug_assertions");
    push_literal(&mut v, "target_os");
    push_literal(&mut v, "target_arch");
    push_literal(&mut v, "target_vendor");
    push_literal(&mut v, "target_env");
    push_literal(&mut v, "target_family");
    push_literal(&mut v, "target_endian");
    push_literal(&mut v, "target_pointer_width");
    push_literal(&mut v, "panic");
    push_literal(&mut v, "miri");
    v
}

} // verus!
