//! The conformance assertion synthesizer: for every publicly-visible type
//! declaration it emits three compile-time assertions that the type can be
//! transferred across threads, shared across threads, and is free to move,
//! substituting an erased lifetime for each generic lifetime parameter.
use vstd::prelude::*;
use crate::ast::{Item, ItemV, SourceFile, SourceFileV, files_model};
use crate::from_str_gen::item_name;
use crate::header_text;
use crate::text::{concat_texts, concat_upto, push_qual, qual_text, str_eq};
use crate::walk::{VisitV, file_visits, visits_model, walk_file};

verus! {

/// Whether a visited item receives the assertions: any publicly-visible
/// record, variant set, union or type alias, at any module depth.
pub open spec fn assert_eligible(item: ItemV) -> bool {
    match item {
        ItemV::Record { public, .. } => public,
        ItemV::VariantSet { public, .. } => public,
        ItemV::Union { public, .. } => public,
        ItemV::TypeAlias { public, .. } => public,
        _ => false,
    }
}

/// The number of generic lifetime parameters of a declaration.
pub open spec fn item_lifetimes(item: ItemV) -> nat {
    match item {
        ItemV::Record { lifetimes, .. } => lifetimes,
        ItemV::VariantSet { lifetimes, .. } => lifetimes,
        ItemV::Union { lifetimes, .. } => lifetimes,
        ItemV::TypeAlias { lifetimes, .. } => lifetimes,
        _ => 0,
    }
}

/// `n` erased-lifetime placeholders, comma-separated.
pub open spec fn lt_params(n: nat) -> Seq<char>
    decreases n,
{
    if n == 0 {
        Seq::empty()
    } else if n == 1 {
        "'_"@
    } else {
        lt_params((n - 1) as nat) + ", '_"@
    }
}

/// The generic argument list: empty when the declaration has no lifetime
/// parameters, else every parameter erased at once.
pub open spec fn lt_text(n: nat) -> Seq<char> {
    if n == 0 {
        Seq::empty()
    } else {
        "<"@ + lt_params(n) + ">"@
    }
}

/// The concrete instantiation the assertions mention.
pub open spec fn target_text(path: Seq<Seq<char>>, name: Seq<char>, n: nat) -> Seq<char> {
    qual_text(path) + name + lt_text(n)
}

/// The three assertion lines emitted for one declaration.
pub open spec fn assert_fragment(path: Seq<Seq<char>>, name: Seq<char>, n: nat) -> Seq<char> {
    "    assert_send::<"@ + target_text(path, name, n) + ">();\n"@ + "    assert_sync::<"@
        + target_text(path, name, n) + ">();\n"@ + "    assert_unpin::<"@ + target_text(
        path,
        name,
        n,
    ) + ">();\n"@
}

pub open spec fn assert_visit_text(v: VisitV) -> Seq<char> {
    if assert_eligible(v.item) {
        assert_fragment(v.path, item_name(v.item), item_lifetimes(v.item))
    } else {
        Seq::empty()
    }
}

pub open spec fn assert_file_text(f: SourceFileV) -> Seq<char> {
    concat_texts(file_visits(f).map_values(|v: VisitV| assert_visit_text(v)))
}

/// The fixed text that precedes the fragments, after the header.
pub open spec fn assert_preamble() -> Seq<char> {
    "use crate::*;\nconst _: fn() = || {\n    fn assert_send<T: ?Sized + Send>() {}\n    fn assert_sync<T: ?Sized + Sync>() {}\n    fn assert_unpin<T: ?Sized + Unpin>() {}\n"@
}

/// The full text of the generated file.
pub open spec fn assert_output(files: Seq<SourceFileV>, tool: Seq<char>) -> Seq<char> {
    header_text(tool) + assert_preamble() + concat_texts(
        files.map_values(|f: SourceFileV| assert_file_text(f)),
    ) + "};\n"@
}

/// A declaration with no generic lifetime parameters gets exactly three
/// assertion lines, each mentioning the bare qualified name.
pub proof fn lemma_assert_bare_type(path: Seq<Seq<char>>, name: Seq<char>)
    ensures
        assert_fragment(path, name, 0) == "    assert_send::<"@ + (qual_text(path) + name)
            + ">();\n    assert_sync::<"@ + (qual_text(path) + name)
            + ">();\n    assert_unpin::<"@ + (qual_text(path) + name) + ">();\n"@,
{
    assert(target_text(path, name, 0) =~= qual_text(path) + name);
    reveal_strlit(">();\n");
    reveal_strlit("    assert_sync::<");
    reveal_strlit("    assert_unpin::<");
    reveal_strlit(">();\n    assert_sync::<");
    reveal_strlit(">();\n    assert_unpin::<");
    assert(">();\n"@ + "    assert_sync::<"@ =~= ">();\n    assert_sync::<"@);
    assert(">();\n"@ + "    assert_unpin::<"@ =~= ">();\n    assert_unpin::<"@);
    assert(assert_fragment(path, name, 0) =~= "    assert_send::<"@ + (qual_text(path) + name)
        + ">();\n    assert_sync::<"@ + (qual_text(path) + name) + ">();\n    assert_unpin::<"@ + (
    qual_text(path) + name) + ">();\n"@);
}

/// A declaration with two lifetime parameters is instantiated with exactly
/// two erased-lifetime placeholders, substituted simultaneously.
pub proof fn lemma_assert_two_lifetimes(path: Seq<Seq<char>>, name: Seq<char>)
    ensures
        target_text(path, name, 2) == qual_text(path) + name + "<'_, '_>"@,
{
    reveal_strlit("'_");
    reveal_strlit(", '_");
    reveal_strlit("<");
    reveal_strlit(">");
    reveal_strlit("<'_, '_>");
    reveal_with_fuel(lt_params, 3);
    assert(lt_params(2) =~= "'_"@ + ", '_"@);
    assert(lt_text(2) =~= "<'_, '_>"@);
    assert(target_text(path, name, 2) =~= qual_text(path) + name + "<'_, '_>"@);
}

/// Whether a file is a program-entry file, which the assertion pass skips;
/// recognized by its base name.
pub fn is_entry_file(file_name: &str) -> (r: bool)
    ensures
        r == (file_name@ == "main.rs"@),
{
    str_eq(file_name, "main.rs")
}

fn push_lt(out: &mut String, n: usize)
    ensures
        final(out)@ == old(out)@ + lt_text(n as nat),
{
    if n == 0 {
        return ;
    }
    out.append("<");
    out.append("'_");
    let mut k: usize = 1;
    while k < n
        invariant
            1 <= k <= n,
            out@ == old(out)@ + "<"@ + lt_params(k as nat),
        decreases n - k,
    {
        out.append(", '_");
        k = k + 1;
    }
    out.append(">");
    proof {
        assert(out@ =~= old(out)@ + lt_text(n as nat));
    }
}

fn emit_assert_fragment(out: &mut String, path: &Vec<String>, name: &String, lifetimes: usize)
    ensures
        final(out)@ == old(out)@ + assert_fragment(path.deep_view(), name@, lifetimes as nat),
{
    let mut target = String::new();
    push_qual(&mut target, path);
    target.append(name.as_str());
    push_lt(&mut target, lifetimes);
    proof {
        assert(target@ =~= target_text(path.deep_view(), name@, lifetimes as nat));
    }
    out.append("    assert_send::<");
    out.append(target.as_str());
    out.append(">();\n");
    out.append("    assert_sync::<");
    out.append(target.as_str());
    out.append(">();\n");
    out.append("    assert_unpin::<");
    out.append(target.as_str());
    out.append(">();\n");
    proof {
        assert(out@ =~= old(out)@ + assert_fragment(path.deep_view(), name@, lifetimes as nat));
    }
}

fn emit_assert_file(out: &mut String, file: &SourceFile)
    ensures
        final(out)@ == old(out)@ + assert_file_text(file.model()),
{
    let visits = walk_file(file);
    let ghost vm = visits_model(visits@);
    let ghost ts = vm.map_values(|v: VisitV| assert_visit_text(v));
    let mut i: usize = 0;
    while i < visits.len()
        invariant
            vm == visits_model(visits@),
            vm.len() == visits@.len(),
            ts.len() == vm.len(),
            forall|k: int| 0 <= k < vm.len() ==> ts[k] == assert_visit_text(vm[k]),
            forall|k: int| 0 <= k < vm.len() ==> vm[k] == visits@[k].model(),
            i <= visits@.len(),
            out@ == old(out)@ + concat_upto(ts, i as int),
        decreases visits@.len() - i,
    {
        let v = &visits[i];
        match &v.item {
            Item::Record { public, name, lifetimes, .. } => {
                if *public {
                    emit_assert_fragment(out, &v.path, name, *lifetimes);
                }
            },
            Item::VariantSet { public, name, lifetimes, .. } => {
                if *public {
                    emit_assert_fragment(out, &v.path, name, *lifetimes);
                }
            },
            Item::Union { public, name, lifetimes, .. } => {
                if *public {
                    emit_assert_fragment(out, &v.path, name, *lifetimes);
                }
            },
            Item::TypeAlias { public, name, lifetimes, .. } => {
                if *public {
                    emit_assert_fragment(out, &v.path, name, *lifetimes);
                }
            },
            _ => {},
        }
        proof {
            assert(out@ =~= old(out)@ + concat_upto(ts, (i + 1) as int));
        }
        i = i + 1;
    }
    proof {
        assert(concat_upto(ts, ts.len() as int) == concat_texts(ts));
        assert(ts =~= file_visits(file.model()).map_values(|v: VisitV| assert_visit_text(v)));
    }
}

/// Renders the whole assertion output for the given parsed files, in order.
pub fn gen_assert_impl(files: &Vec<SourceFile>, tool: &str) -> (out: String)
    ensures
        out@ == assert_output(files_model(files@), tool@),
{
    let mut out = crate::header(tool);
    out.append(
        "use crate::*;\nconst _: fn() = || {\n    fn assert_send<T: ?Sized + Send>() {}\n    fn assert_sync<T: ?Sized + Sync>() {}\n    fn assert_unpin<T: ?Sized + Unpin>() {}\n",
    );
    let ghost fm = files_model(files@);
    let ghost fts = fm.map_values(|f: SourceFileV| assert_file_text(f));
    let ghost pre = header_text(tool@) + assert_preamble();
    proof {
        assert(out@ =~= pre);
    }
    let mut i: usize = 0;
    while i < files.len()
        invariant
            fm == files_model(files@),
            fm.len() == files@.len(),
            fts.len() == fm.len(),
            forall|k: int| 0 <= k < fm.len() ==> fts[k] == assert_file_text(fm[k]),
            forall|k: int| 0 <= k < fm.len() ==> fm[k] == files@[k].model(),
            i <= files@.len(),
            out@ == pre + concat_upto(fts, i as int),
            pre == header_text(tool@) + assert_preamble(),
        decreases files@.len() - i,
    {
        emit_assert_file(&mut out, &files[i]);
        proof {
            assert(out@ =~= pre + concat_upto(fts, (i + 1) as int));
        }
        i = i + 1;
    }
    out.append("};\n");
    proof {
        assert(concat_upto(fts, fts.len() as int) == concat_texts(fts));
        assert(out@ =~= assert_output(files_model(files@), tool@));
    }
    out
}

} // verus!
