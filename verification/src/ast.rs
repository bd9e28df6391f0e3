//! The data model of a parsed source file: items, variants, declarative
//! annotations, and the mathematical model (`...V` types) that all contracts
//! speak of.
use vstd::prelude::*;

verus! {

/// One `key = value` entry inside an annotation group. `value` holds the
/// string literal when the entry carries one, and `None` when the entry is
/// missing a value or its value has some other shape; both read as "not
/// found" during extraction.
pub struct AttrEntry {
    pub key: String,
    pub value: Option<String>,
}

/// One declarative annotation attached to a declaration: a group name (for
/// example the serialization group) and its ordered `key = value` entries.
pub struct Attr {
    pub group: String,
    pub entries: Vec<AttrEntry>,
}

/// The payload shape of one variant of a variant set. Only `Unit` variants
/// are eligible for display synthesis.
#[derive(Clone, Copy)]
pub enum Payload {
    Unit,
    Tuple,
    Fields,
}

/// One named alternative of a variant set.
pub struct Variant {
    pub name: String,
    pub attrs: Vec<Attr>,
    pub payload: Payload,
}

/// One item of a syntax tree. Only modules nest further items; nesting
/// inside a type never extends the qualified path.
pub enum Item {
    Module { name: String, items: Vec<Item> },
    Record { public: bool, name: String, attrs: Vec<Attr>, lifetimes: usize },
    VariantSet {
        public: bool,
        name: String,
        attrs: Vec<Attr>,
        lifetimes: usize,
        variants: Vec<Variant>,
    },
    Union { public: bool, name: String, attrs: Vec<Attr>, lifetimes: usize },
    TypeAlias { public: bool, name: String, attrs: Vec<Attr>, lifetimes: usize },
    Other,
}

/// A parsed source file: its logical module name (`None` for the crate root
/// file, which contributes an empty path) and its top-level items.
pub struct SourceFile {
    pub module: Option<String>,
    pub items: Vec<Item>,
}

// ----- the mathematical model -----

pub struct AttrEntryV {
    pub key: Seq<char>,
    pub value: Option<Seq<char>>,
}

pub struct AttrV {
    pub group: Seq<char>,
    pub entries: Seq<AttrEntryV>,
}

pub struct VariantV {
    pub name: Seq<char>,
    pub attrs: Seq<AttrV>,
    pub payload: Payload,
}

pub enum ItemV {
    Module { name: Seq<char>, items: Seq<ItemV> },
    Record { public: bool, name: Seq<char>, attrs: Seq<AttrV>, lifetimes: nat },
    VariantSet {
        public: bool,
        name: Seq<char>,
        attrs: Seq<AttrV>,
        lifetimes: nat,
        variants: Seq<VariantV>,
    },
    Union { public: bool, name: Seq<char>, attrs: Seq<AttrV>, lifetimes: nat },
    TypeAlias { public: bool, name: Seq<char>, attrs: Seq<AttrV>, lifetimes: nat },
    Other,
}

pub struct SourceFileV {
    pub module: Option<Seq<char>>,
    pub items: Seq<ItemV>,
}

impl AttrEntry {
    pub open spec fn model(self) -> AttrEntryV {
        AttrEntryV { key: self.key@, value: self.value.deep_view() }
    }
}

pub open spec fn entries_model(s: Seq<AttrEntry>) -> Seq<AttrEntryV> {
    Seq::new(s.len(), |i: int| s[i].model())
}

impl Attr {
    pub open spec fn model(self) -> AttrV {
        AttrV { group: self.group@, entries: entries_model(self.entries@) }
    }
}

pub open spec fn attrs_model(s: Seq<Attr>) -> Seq<AttrV> {
    Seq::new(s.len(), |i: int| s[i].model())
}

impl Variant {
    pub open spec fn model(self) -> VariantV {
        VariantV { name: self.name@, attrs: attrs_model(self.attrs@), payload: self.payload }
    }
}

pub open spec fn variants_model(s: Seq<Variant>) -> Seq<VariantV> {
    Seq::new(s.len(), |i: int| s[i].model())
}

impl Item {
    pub open spec fn model(self) -> ItemV
        decreases self, 1int,
    {
        match self {
            Item::Module { name, items } => ItemV::Module {
                name: name@,
                items: items_model_upto(items@, items@.len() as int),
            },
            Item::Record { public, name, attrs, lifetimes } => ItemV::Record {
                public,
                name: name@,
                attrs: attrs_model(attrs@),
                lifetimes: lifetimes as nat,
            },
            Item::VariantSet { public, name, attrs, lifetimes, variants } => ItemV::VariantSet {
                public,
                name: name@,
                attrs: attrs_model(attrs@),
                lifetimes: lifetimes as nat,
                variants: variants_model(variants@),
            },
            Item::Union { public, name, attrs, lifetimes } => ItemV::Union {
                public,
                name: name@,
                attrs: attrs_model(attrs@),
                lifetimes: lifetimes as nat,
            },
            Item::TypeAlias { public, name, attrs, lifetimes } => ItemV::TypeAlias {
                public,
                name: name@,
                attrs: attrs_model(attrs@),
                lifetimes: lifetimes as nat,
            },
            Item::Other => ItemV::Other,
        }
    }
}

pub open spec fn items_model(s: Seq<Item>) -> Seq<ItemV> {
    items_model_upto(s, s.len() as int)
}

pub open spec fn items_model_upto(s: Seq<Item>, n: int) -> Seq<ItemV>
    decreases s, n,
{
    if n <= 0 || n > s.len() {
        Seq::empty()
    } else {
        items_model_upto(s, n - 1).push(s[n - 1].model())
    }
}

pub proof fn lemma_items_model_upto_props(s: Seq<Item>, n: int)
    requires
        0 <= n <= s.len(),
    ensures
        items_model_upto(s, n).len() == n,
        forall|i: int| 0 <= i < n ==> items_model_upto(s, n)[i] == s[i].model(),
    decreases n,
{
    if n > 0 {
        lemma_items_model_upto_props(s, n - 1);
    }
}

pub proof fn lemma_items_model_props(s: Seq<Item>)
    ensures
        items_model(s).len() == s.len(),
        forall|i: int| 0 <= i < s.len() ==> items_model(s)[i] == s[i].model(),
{
    lemma_items_model_upto_props(s, s.len() as int);
}

impl SourceFile {
    pub open spec fn model(self) -> SourceFileV {
        SourceFileV { module: self.module.deep_view(), items: items_model(self.items@) }
    }
}

pub open spec fn files_model(s: Seq<SourceFile>) -> Seq<SourceFileV> {
    Seq::new(s.len(), |i: int| s[i].model())
}

/// The qualified path that a file's own items carry: empty for the root
/// file, one segment (the file's module name) otherwise.
pub open spec fn initial_path(f: SourceFileV) -> Seq<Seq<char>> {
    match f.module {
        Option::None => Seq::empty(),
        Option::Some(m) => seq![m],
    }
}

} // verus!
