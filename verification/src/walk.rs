//! The scoped tree walker: enumerates every non-module item of a tree in
//! pre-order, threading the qualified path, which grows by one segment for
//! each enclosing module and is restored on exit. All synthesis passes
//! consume the same enumeration.
use vstd::prelude::*;
use crate::ast::{
    Attr, AttrEntry, Item, ItemV, SourceFileV, Variant, attrs_model, entries_model, initial_path,
    items_model, lemma_items_model_props, variants_model,
};

verus! {

/// One visited declaration together with the qualified path in effect where
/// it stood.
pub struct Visit {
    pub path: Vec<String>,
    pub item: Item,
}

pub struct VisitV {
    pub path: Seq<Seq<char>>,
    pub item: ItemV,
}

impl Visit {
    pub open spec fn model(self) -> VisitV {
        VisitV { path: self.path.deep_view(), item: self.item.model() }
    }
}

pub open spec fn visits_model(s: Seq<Visit>) -> Seq<VisitV> {
    Seq::new(s.len(), |i: int| s[i].model())
}

/// Pre-order visits of one item. A module item is not visited itself; it
/// extends the path for its children. Every other item is visited exactly
/// once, with the path in effect.
pub open spec fn visits_of_item(item: ItemV, path: Seq<Seq<char>>) -> Seq<VisitV>
    decreases item, 1int,
{
    match item {
        ItemV::Module { name, items } => visits_upto(items, path.push(name), items.len() as int),
        _ => seq![VisitV { path, item }],
    }
}

/// The visits of the first `n` items of `items`, in order.
pub open spec fn visits_upto(items: Seq<ItemV>, path: Seq<Seq<char>>, n: int) -> Seq<VisitV>
    decreases items, n,
{
    if n <= 0 || n > items.len() {
        Seq::empty()
    } else {
        visits_upto(items, path, n - 1) + visits_of_item(items[n - 1], path)
    }
}

pub open spec fn visits_of_items(items: Seq<ItemV>, path: Seq<Seq<char>>) -> Seq<VisitV> {
    visits_upto(items, path, items.len() as int)
}

/// All visits of one file, starting from the file's own path.
pub open spec fn file_visits(f: SourceFileV) -> Seq<VisitV> {
    visits_of_items(f.items, initial_path(f))
}

/// Copies a path, segment by segment.
pub fn clone_path(p: &Vec<String>) -> (r: Vec<String>)
    ensures
        r.deep_view() == p.deep_view(),
{
    let mut r: Vec<String> = Vec::new();
    let mut i: usize = 0;
    while i < p.len()
        invariant
            i <= p@.len(),
            r@.len() == i,
            forall|j: int| 0 <= j < i ==> r.deep_view()[j] == p.deep_view()[j],
        decreases p@.len() - i,
    {
        r.push(p[i].clone());
        i = i + 1;
    }
    proof {
        assert(r.deep_view() =~= p.deep_view());
    }
    r
}

fn clone_entry(e: &AttrEntry) -> (r: AttrEntry)
    ensures
        r.model() == e.model(),
{
    AttrEntry {
        key: e.key.clone(),
        value: match &e.value {
            Option::Some(s) => Option::Some(s.clone()),
            Option::None => Option::None,
        },
    }
}

fn clone_entries(v: &Vec<AttrEntry>) -> (r: Vec<AttrEntry>)
    ensures
        entries_model(r@) == entries_model(v@),
{
    let mut r: Vec<AttrEntry> = Vec::new();
    let mut i: usize = 0;
    while i < v.len()
        invariant
            i <= v@.len(),
            r@.len() == i,
            forall|j: int| 0 <= j < i ==> r@[j].model() == v@[j].model(),
        decreases v@.len() - i,
    {
        r.push(clone_entry(&v[i]));
        i = i + 1;
    }
    proof {
        assert(entries_model(r@) =~= entries_model(v@));
    }
    r
}

fn clone_attr(a: &Attr) -> (r: Attr)
    ensures
        r.model() == a.model(),
{
    Attr { group: a.group.clone(), entries: clone_entries(&a.entries) }
}

fn clone_attrs(v: &Vec<Attr>) -> (r: Vec<Attr>)
    ensures
        attrs_model(r@) == attrs_model(v@),
{
    let mut r: Vec<Attr> = Vec::new();
    let mut i: usize = 0;
    while i < v.len()
        invariant
            i <= v@.len(),
            r@.len() == i,
            forall|j: int| 0 <= j < i ==> r@[j].model() == v@[j].model(),
        decreases v@.len() - i,
    {
        r.push(clone_attr(&v[i]));
        i = i + 1;
    }
    proof {
        assert(attrs_model(r@) =~= attrs_model(v@));
    }
    r
}

fn clone_variants(v: &Vec<Variant>) -> (r: Vec<Variant>)
    ensures
        variants_model(r@) == variants_model(v@),
{
    let mut r: Vec<Variant> = Vec::new();
    let mut i: usize = 0;
    while i < v.len()
        invariant
            i <= v@.len(),
            r@.len() == i,
            forall|j: int| 0 <= j < i ==> r@[j].model() == v@[j].model(),
        decreases v@.len() - i,
    {
        let x = &v[i];
        r.push(Variant { name: x.name.clone(), attrs: clone_attrs(&x.attrs), payload: x.payload });
        i = i + 1;
    }
    proof {
        assert(variants_model(r@) =~= variants_model(v@));
    }
    r
}

/// Copies a non-module item.
fn clone_decl(item: &Item) -> (r: Item)
    requires
        !(item is Module),
    ensures
        r.model() == item.model(),
{
    match item {
        Item::Module { .. } => Item::Other,
        Item::Record { public, name, attrs, lifetimes } => Item::Record {
            public: *public,
            name: name.clone(),
            attrs: clone_attrs(attrs),
            lifetimes: *lifetimes,
        },
        Item::VariantSet { public, name, attrs, lifetimes, variants } => Item::VariantSet {
            public: *public,
            name: name.clone(),
            attrs: clone_attrs(attrs),
            lifetimes: *lifetimes,
            variants: clone_variants(variants),
        },
        Item::Union { public, name, attrs, lifetimes } => Item::Union {
            public: *public,
            name: name.clone(),
            attrs: clone_attrs(attrs),
            lifetimes: *lifetimes,
        },
        Item::TypeAlias { public, name, attrs, lifetimes } => Item::TypeAlias {
            public: *public,
            name: name.clone(),
            attrs: clone_attrs(attrs),
            lifetimes: *lifetimes,
        },
        Item::Other => Item::Other,
    }
}

/// Walks `items` in pre-order under `path`, appending one visit per
/// non-module item to `out`; module items extend the path for their
/// children and are popped on return.
pub fn walk_items(items: &Vec<Item>, path: &Vec<String>, out: &mut Vec<Visit>)
    ensures
        visits_model(final(out)@) == visits_model(old(out)@) + visits_of_items(
            items_model(items@),
            path.deep_view(),
        ),
    decreases items@,
{
    let ghost m = items_model(items@);
    let ghost pv = path.deep_view();
    proof {
        lemma_items_model_props(items@);
    }
    let mut i: usize = 0;
    while i < items.len()
        invariant
            m == items_model(items@),
            pv == path.deep_view(),
            m.len() == items@.len(),
            i <= items@.len(),
            forall|k: int| 0 <= k < items@.len() ==> m[k] == items@[k].model(),
            visits_model(out@) == visits_model(old(out)@) + visits_upto(m, pv, i as int),
        decreases items@.len() - i,
    {
        let ghost out_pre = out@;
        match &items[i] {
            Item::Module { name, items: children } => {
                proof {
                    assert(decreases_to!(items@ => items@[i as int]));
                    assert(decreases_to!(items@[i as int] => items@[i as int]->Module_items));
                    assert(decreases_to!(items@[i as int]->Module_items =>
                        items@[i as int]->Module_items@));
                    assert(items@[i as int]->Module_items@ == children@);
                }
                let mut p2 = clone_path(path);
                p2.push(name.clone());
                proof {
                    assert(p2.deep_view() =~= pv.push(name@));
                }
                walk_items(children, &p2, out);
                proof {
                    assert(m[i as int] == ItemV::Module {
                        name: name@,
                        items: items_model(children@),
                    });
                    assert(visits_of_item(m[i as int], pv) == visits_of_items(
                        items_model(children@),
                        pv.push(name@),
                    ));
                    assert(visits_model(out@) =~= visits_model(old(out)@) + visits_upto(
                        m,
                        pv,
                        (i + 1) as int,
                    ));
                }
            },
            _ => {
                let v = Visit { path: clone_path(path), item: clone_decl(&items[i]) };
                proof {
                    assert(v.model() == VisitV { path: pv, item: m[i as int] });
                    assert(!(m[i as int] is Module));
                    assert(visits_of_item(m[i as int], pv) == seq![v.model()]);
                }
                out.push(v);
                proof {
                    assert(visits_model(out@) =~= visits_model(out_pre).push(v.model()));
                    assert(visits_model(out@) =~= visits_model(old(out)@) + visits_upto(
                        m,
                        pv,
                        (i + 1) as int,
                    ));
                }
            },
        }
        i = i + 1;
    }
    proof {
        assert(visits_upto(m, pv, m.len() as int) == visits_of_items(m, pv));
    }
}

proof fn lemma_contains_concat_left(a: Seq<VisitV>, b: Seq<VisitV>, x: VisitV)
    requires
        a.contains(x),
    ensures
        (a + b).contains(x),
{
    let w = choose|w: int| 0 <= w < a.len() && #[trigger] a[w] == x;
    assert((a + b)[w] == x);
}

proof fn lemma_contains_concat_right(a: Seq<VisitV>, b: Seq<VisitV>, x: VisitV)
    requires
        b.contains(x),
    ensures
        (a + b).contains(x),
{
    let w = choose|w: int| 0 <= w < b.len() && #[trigger] b[w] == x;
    assert((a + b)[a.len() + w] == x);
}

proof fn lemma_visits_upto_sub(items: Seq<ItemV>, path: Seq<Seq<char>>, n: int, i: int, x: VisitV)
    requires
        0 <= i < n <= items.len(),
        visits_of_item(items[i], path).contains(x),
    ensures
        visits_upto(items, path, n).contains(x),
    decreases n,
{
    if i == n - 1 {
        lemma_contains_concat_right(
            visits_upto(items, path, n - 1),
            visits_of_item(items[n - 1], path),
            x,
        );
    } else {
        lemma_visits_upto_sub(items, path, n - 1, i, x);
        lemma_contains_concat_left(
            visits_upto(items, path, n - 1),
            visits_of_item(items[n - 1], path),
            x,
        );
    }
}

/// A declaration standing directly in a module file is visited with the
/// one-segment path holding just the file's module name.
pub proof fn lemma_file_item_path(f: SourceFileV, m: Seq<char>, i: int)
    requires
        f.module == Option::Some(m),
        0 <= i < f.items.len(),
        !(f.items[i] is Module),
    ensures
        file_visits(f).contains((VisitV { path: seq![m], item: f.items[i] })),
{
    let x = VisitV { path: seq![m], item: f.items[i] };
    assert(initial_path(f) == seq![m]);
    assert(visits_of_item(f.items[i], seq![m]) == seq![x]);
    assert(seq![x].contains(x)) by {
        assert(seq![x][0] == x);
    }
    lemma_visits_upto_sub(f.items, seq![m], f.items.len() as int, i, x);
}

/// A declaration inside a nested module of a module file is visited with
/// the two-segment path `[file-module, nested-module]`; type nesting never
/// extends the path, only module nesting does.
pub proof fn lemma_nested_item_path(
    f: SourceFileV,
    m: Seq<char>,
    i: int,
    inner: Seq<char>,
    ms: Seq<ItemV>,
    j: int,
)
    requires
        f.module == Option::Some(m),
        0 <= i < f.items.len(),
        f.items[i] == (ItemV::Module { name: inner, items: ms }),
        0 <= j < ms.len(),
        !(ms[j] is Module),
    ensures
        file_visits(f).contains((VisitV { path: seq![m, inner], item: ms[j] })),
{
    let x = VisitV { path: seq![m, inner], item: ms[j] };
    assert(seq![m].push(inner) =~= seq![m, inner]);
    assert(visits_of_item(f.items[i], seq![m]) == visits_of_items(ms, seq![m, inner]));
    assert(visits_of_item(ms[j], seq![m, inner]) == seq![x]);
    assert(seq![x].contains(x)) by {
        assert(seq![x][0] == x);
    }
    lemma_visits_upto_sub(ms, seq![m, inner], ms.len() as int, j, x);
    assert(initial_path(f) == seq![m]);
    lemma_visits_upto_sub(f.items, seq![m], f.items.len() as int, i, x);
}

/// Walks one parsed file from its initial path and returns its visits.
pub fn walk_file(file: &crate::ast::SourceFile) -> (out: Vec<Visit>)
    ensures
        visits_model(out@) == file_visits(file.model()),
{
    let mut path: Vec<String> = Vec::new();
    match &file.module {
        Option::Some(m) => {
            path.push(m.clone());
        },
        Option::None => {},
    }
    proof {
        assert(path.deep_view() =~= initial_path(file.model()));
    }
    let mut out: Vec<Visit> = Vec::new();
    proof {
        assert(visits_model(out@) =~= Seq::<VisitV>::empty());
    }
    walk_items(&file.items, &path, &mut out);
    proof {
        assert(Seq::<VisitV>::empty() + visits_of_items(
            items_model(file.items@),
            path.deep_view(),
        ) =~= file_visits(file.model()));
    }
    out
}

} // verus!
