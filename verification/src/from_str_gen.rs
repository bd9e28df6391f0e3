//! The from-string synthesizer: for every publicly-visible record or
//! variant set found by the walker, emits a parse-from-text implementation
//! that delegates to the structured-data deserializer and wraps its error.
use vstd::prelude::*;
use crate::ast::{ItemV, SourceFile, SourceFileV, files_model};
use crate::header_text;
use crate::text::{concat_texts, concat_upto, push_qual, qual_text};
use crate::walk::{VisitV, file_visits, visits_model, walk_file};

verus! {

/// Whether a visited item receives a parse-from-text implementation: a
/// publicly-visible record or variant set, at any module depth.
pub open spec fn from_str_eligible(item: ItemV) -> bool {
    match item {
        ItemV::Record { public, .. } => public,
        ItemV::VariantSet { public, .. } => public,
        _ => false,
    }
}

/// The identifier of a declaration; empty for items that carry none.
pub open spec fn item_name(item: ItemV) -> Seq<char> {
    match item {
        ItemV::Module { name, .. } => name,
        ItemV::Record { name, .. } => name,
        ItemV::VariantSet { name, .. } => name,
        ItemV::Union { name, .. } => name,
        ItemV::TypeAlias { name, .. } => name,
        ItemV::Other => Seq::empty(),
    }
}

/// The parse-from-text implementation emitted for one declaration.
pub open spec fn from_str_fragment(path: Seq<Seq<char>>, name: Seq<char>) -> Seq<char> {
    "impl FromStr for "@ + qual_text(path) + name
        + " {\n    type Err = Error;\n    fn from_str(s: &str) -> Result<Self, Self::Err> {\n        serde_yaml::from_str(s).map_err(Error::new)\n    }\n}\n\n"@
}

/// The text one visit contributes: a fragment for an eligible item, nothing
/// otherwise.
pub open spec fn from_str_visit_text(v: VisitV) -> Seq<char> {
    if from_str_eligible(v.item) {
        from_str_fragment(v.path, item_name(v.item))
    } else {
        Seq::empty()
    }
}

/// All fragments of one file, in discovery order.
pub open spec fn from_str_file_text(f: SourceFileV) -> Seq<char> {
    concat_texts(file_visits(f).map_values(|v: VisitV| from_str_visit_text(v)))
}

/// The full text of the generated file: header, fixed imports, then the
/// fragments of every input file in the given order.
pub open spec fn from_str_output(files: Seq<SourceFileV>, tool: Seq<char>) -> Seq<char> {
    header_text(tool) + "use std::str::FromStr;\nuse crate::*;\n\n"@ + concat_texts(
        files.map_values(|f: SourceFileV| from_str_file_text(f)),
    )
}

fn emit_from_str_fragment(out: &mut String, path: &Vec<String>, name: &String)
    ensures
        final(out)@ == old(out)@ + from_str_fragment(path.deep_view(), name@),
{
    out.append("impl FromStr for ");
    push_qual(out, path);
    out.append(name.as_str());
    out.append(
        " {\n    type Err = Error;\n    fn from_str(s: &str) -> Result<Self, Self::Err> {\n        serde_yaml::from_str(s).map_err(Error::new)\n    }\n}\n\n",
    );
    proof {
        assert(out@ =~= old(out)@ + from_str_fragment(path.deep_view(), name@));
    }
}

fn emit_from_str_file(out: &mut String, file: &SourceFile)
    ensures
        final(out)@ == old(out)@ + from_str_file_text(file.model()),
{
    let visits = walk_file(file);
    let ghost vm = visits_model(visits@);
    let ghost ts = vm.map_values(|v: VisitV| from_str_visit_text(v));
    let mut i: usize = 0;
    while i < visits.len()
        invariant
            vm == visits_model(visits@),
            vm.len() == visits@.len(),
            ts.len() == vm.len(),
            forall|k: int| 0 <= k < vm.len() ==> ts[k] == from_str_visit_text(vm[k]),
            forall|k: int| 0 <= k < vm.len() ==> vm[k] == visits@[k].model(),
            i <= visits@.len(),
            out@ == old(out)@ + concat_upto(ts, i as int),
        decreases visits@.len() - i,
    {
        let v = &visits[i];
        match &v.item {
            crate::ast::Item::Record { public, name, .. } => {
                if *public {
                    emit_from_str_fragment(out, &v.path, name);
                }
            },
            crate::ast::Item::VariantSet { public, name, .. } => {
                if *public {
                    emit_from_str_fragment(out, &v.path, name);
                }
            },
            _ => {},
        }
        proof {
            assert(out@ =~= old(out)@ + concat_upto(ts, (i + 1) as int));
        }
        i = i + 1;
    }
    proof {
        assert(concat_upto(ts, ts.len() as int) == concat_texts(ts));
        assert(ts =~= file_visits(file.model()).map_values(|v: VisitV| from_str_visit_text(v)));
    }
}

/// Renders the whole parse-from-text output for the given parsed files, in
/// order, under the given tool name.
pub fn gen_from_str(files: &Vec<SourceFile>, tool: &str) -> (out: String)
    ensures
        out@ == from_str_output(files_model(files@), tool@),
{
    let mut out = crate::header(tool);
    out.append("use std::str::FromStr;\nuse crate::*;\n\n");
    let ghost fm = files_model(files@);
    let ghost fts = fm.map_values(|f: SourceFileV| from_str_file_text(f));
    let ghost pre = header_text(tool@) + "use std::str::FromStr;\nuse crate::*;\n\n"@;
    let mut i: usize = 0;
    while i < files.len()
        invariant
            fm == files_model(files@),
            fm.len() == files@.len(),
            fts.len() == fm.len(),
            forall|k: int| 0 <= k < fm.len() ==> fts[k] == from_str_file_text(fm[k]),
            forall|k: int| 0 <= k < fm.len() ==> fm[k] == files@[k].model(),
            i <= files@.len(),
            out@ == pre + concat_upto(fts, i as int),
            pre == header_text(tool@) + "use std::str::FromStr;\nuse crate::*;\n\n"@,
        decreases files@.len() - i,
    {
        emit_from_str_file(&mut out, &files[i]);
        proof {
            assert(out@ =~= pre + concat_upto(fts, (i + 1) as int));
        }
        i = i + 1;
    }
    proof {
        assert(concat_upto(fts, fts.len() as int) == concat_texts(fts));
        assert(out@ =~= from_str_output(files_model(files@), tool@));
    }
    out
}

} // verus!
