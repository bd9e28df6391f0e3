//! The display synthesizer: for every publicly-visible variant set whose
//! variants all carry no payload, emits a rendering implementation with one
//! match arm per variant. A variant renders as its explicit rename override
//! when it has one, else as its identifier under the declaration's
//! rename-all case style.
use vstd::prelude::*;
use crate::ast::{
    Attr, AttrV, Item, ItemV, SourceFile, SourceFileV, Variant, VariantV, attrs_model,
    files_model, variants_model,
};
use crate::attr::{attr_lookup, serde_attr};
use crate::case::{change_case, spec_change_case, style_ok};
use crate::from_str_gen::item_name;
use crate::header_text;
use crate::text::{concat_texts, concat_upto, push_qual, qual_text, str_eq};
use crate::walk::{Visit, VisitV, file_visits, visits_model, walk_file};

verus! {

/// The annotations of a declaration; empty for items that carry none.
pub open spec fn item_attrs(item: ItemV) -> Seq<AttrV> {
    match item {
        ItemV::Record { attrs, .. } => attrs,
        ItemV::VariantSet { attrs, .. } => attrs,
        ItemV::Union { attrs, .. } => attrs,
        ItemV::TypeAlias { attrs, .. } => attrs,
        _ => Seq::empty(),
    }
}

/// The variants of a variant set; empty for every other item.
pub open spec fn item_variants(item: ItemV) -> Seq<VariantV> {
    match item {
        ItemV::VariantSet { variants, .. } => variants,
        _ => Seq::empty(),
    }
}

pub open spec fn all_unit(vs: Seq<VariantV>) -> bool {
    forall|i: int| 0 <= i < vs.len() ==> vs[i].payload is Unit
}

/// Whether a visited item receives a rendering implementation: a
/// publicly-visible variant set all of whose variants are payload-free.
/// One payload-carrying variant excludes the whole declaration.
pub open spec fn display_eligible(item: ItemV) -> bool {
    match item {
        ItemV::VariantSet { public, variants, .. } => public && all_unit(variants),
        _ => false,
    }
}

/// The declaration-level case style: its rename-all annotation, if any.
pub open spec fn decl_style(item: ItemV) -> Option<Seq<char>> {
    attr_lookup(item_attrs(item), "serde"@, "rename_all"@)
}

/// The string one variant renders as: its explicit rename override when
/// present, regardless of the declaration's style; else its identifier
/// under the declaration's case style.
pub open spec fn variant_text(v: VariantV, style: Option<Seq<char>>) -> Seq<char> {
    match attr_lookup(v.attrs, "serde"@, "rename"@) {
        Option::Some(r) => r,
        Option::None => spec_change_case(style, v.name),
    }
}

/// One match arm of the rendering implementation.
pub open spec fn arm_text(v: VariantV, style: Option<Seq<char>>) -> Seq<char> {
    "            Self::"@ + v.name + " => f.write_str(\""@ + variant_text(v, style) + "\"),\n"@
}

/// The arms of the first `n` variants, in declaration order.
pub open spec fn arms_upto(vs: Seq<VariantV>, style: Option<Seq<char>>, n: int) -> Seq<char>
    decreases n,
{
    if n <= 0 || n > vs.len() {
        Seq::empty()
    } else {
        arms_upto(vs, style, n - 1) + arm_text(vs[n - 1], style)
    }
}

pub open spec fn arms_text(vs: Seq<VariantV>, style: Option<Seq<char>>) -> Seq<char> {
    arms_upto(vs, style, vs.len() as int)
}

/// The rendering implementation emitted for one declaration.
pub open spec fn display_fragment(
    path: Seq<Seq<char>>,
    name: Seq<char>,
    attrs: Seq<AttrV>,
    vs: Seq<VariantV>,
) -> Seq<char> {
    "impl fmt::Display for "@ + qual_text(path) + name
        + " {\n    fn fmt(&self, f: &mut fmt::Formatter<'_>) -> fmt::Result {\n        match self {\n"@
        + arms_text(vs, attr_lookup(attrs, "serde"@, "rename_all"@))
        + "        }\n    }\n}\n\n"@
}

/// The text one visit contributes: a fragment for an eligible item, nothing
/// at all otherwise.
pub open spec fn display_visit_text(v: VisitV) -> Seq<char> {
    if display_eligible(v.item) {
        display_fragment(v.path, item_name(v.item), item_attrs(v.item), item_variants(v.item))
    } else {
        Seq::empty()
    }
}

pub open spec fn display_file_text(f: SourceFileV) -> Seq<char> {
    concat_texts(file_visits(f).map_values(|v: VisitV| display_visit_text(v)))
}

/// The full text of the generated file.
pub open spec fn display_output(files: Seq<SourceFileV>, tool: Seq<char>) -> Seq<char> {
    header_text(tool) + "use std::fmt;\nuse crate::*;\n\n"@ + concat_texts(
        files.map_values(|f: SourceFileV| display_file_text(f)),
    )
}

/// Whether some variant lacks an explicit override, so the declaration's
/// style will actually be applied.
pub open spec fn needs_style(vs: Seq<VariantV>) -> bool {
    exists|i: int|
        0 <= i < vs.len() && attr_lookup(#[trigger] vs[i].attrs, "serde"@, "rename"@) is None
}

/// The configuration demand on one visit: where the style will be applied,
/// it must be a known one.
pub open spec fn visit_styles_ok(v: VisitV) -> bool {
    (display_eligible(v.item) && needs_style(item_variants(v.item))) ==> style_ok(
        decl_style(v.item),
    )
}

pub open spec fn file_styles_ok(f: SourceFileV) -> bool {
    forall|i: int| 0 <= i < file_visits(f).len() ==> visit_styles_ok(#[trigger] file_visits(f)[i])
}

/// The whole-run configuration demand, validated before any synthesis.
pub open spec fn files_styles_ok(files: Seq<SourceFileV>) -> bool {
    forall|i: int| 0 <= i < files.len() ==> file_styles_ok(#[trigger] files[i])
}

/// With no rename-all annotation on the declaration and no override on the
/// variant, the variant renders exactly as its identifier.
pub proof fn lemma_no_rename_renders_identifier(v: VariantV, item: ItemV)
    requires
        attr_lookup(item_attrs(item), "serde"@, "rename_all"@) is None,
        attr_lookup(v.attrs, "serde"@, "rename"@) is None,
    ensures
        variant_text(v, decl_style(item)) == v.name,
{
}

/// An explicit rename override decides the rendered string, whatever the
/// declaration-level style rule says.
pub proof fn lemma_override_wins(v: VariantV, style: Option<Seq<char>>, r: Seq<char>)
    requires
        attr_lookup(v.attrs, "serde"@, "rename"@) == Option::Some(r),
    ensures
        variant_text(v, style) == r,
{
}

/// A variant set with one payload-carrying variant receives no rendering
/// implementation at all: its visit contributes empty text.
pub proof fn lemma_payload_skips_display(v: VisitV, i: int)
    requires
        0 <= i < item_variants(v.item).len(),
        !(item_variants(v.item)[i].payload is Unit),
    ensures
        display_visit_text(v) == Seq::<char>::empty(),
{
    assert(!all_unit(item_variants(v.item)));
}

fn variants_all_unit(vs: &Vec<Variant>) -> (r: bool)
    ensures
        r == all_unit(variants_model(vs@)),
{
    let mut i: usize = 0;
    while i < vs.len()
        invariant
            i <= vs@.len(),
            forall|j: int| 0 <= j < i ==> variants_model(vs@)[j].payload is Unit,
        decreases vs@.len() - i,
    {
        match vs[i].payload {
            crate::ast::Payload::Unit => {},
            _ => {
                proof {
                    assert(variants_model(vs@)[i as int].payload == vs@[i as int].payload);
                }
                return false;
            },
        }
        i = i + 1;
    }
    true
}

fn variants_need_style(vs: &Vec<Variant>) -> (r: bool)
    ensures
        r == needs_style(variants_model(vs@)),
{
    let mut i: usize = 0;
    while i < vs.len()
        invariant
            i <= vs@.len(),
            forall|j: int| 0 <= j < i
                ==> !(attr_lookup(
                    #[trigger] variants_model(vs@)[j].attrs,
                    "serde"@,
                    "rename"@,
                ) is None),
        decreases vs@.len() - i,
    {
        let rename = serde_attr(&vs[i].attrs, "rename");
        match rename {
            Option::None => {
                proof {
                    assert(variants_model(vs@)[i as int].attrs == attrs_model(vs@[i as int].attrs@));
                }
                return true;
            },
            Option::Some(_) => {},
        }
        i = i + 1;
    }
    false
}

fn style_token_ok(s: &Option<String>) -> (r: bool)
    ensures
        r == style_ok(s.deep_view()),
{
    match s {
        Option::None => true,
        Option::Some(c) => {
            let kebab = str_eq(c.as_str(), "kebab-case");
            let snake = str_eq(c.as_str(), "snake_case");
            kebab || snake
        },
    }
}

/// Validates the run's rename-all configuration up front: every style that
/// the synthesizer will be asked to apply is one it understands.
pub fn check_styles(files: &Vec<SourceFile>) -> (r: bool)
    ensures
        r == files_styles_ok(files_model(files@)),
{
    let ghost fm = files_model(files@);
    let mut i: usize = 0;
    while i < files.len()
        invariant
            fm == files_model(files@),
            fm.len() == files@.len(),
            forall|k: int| 0 <= k < files@.len() ==> fm[k] == files@[k].model(),
            i <= files@.len(),
            forall|k: int| 0 <= k < i ==> file_styles_ok(#[trigger] fm[k]),
        decreases files@.len() - i,
    {
        let visits = walk_file(&files[i]);
        let ghost vm = visits_model(visits@);
        let mut j: usize = 0;
        while j < visits.len()
            invariant
                fm == files_model(files@),
                fm.len() == files@.len(),
                forall|k: int| 0 <= k < files@.len() ==> fm[k] == files@[k].model(),
                i < files@.len(),
                vm == visits_model(visits@),
                vm == file_visits(fm[i as int]),
                vm.len() == visits@.len(),
                forall|k: int| 0 <= k < vm.len() ==> vm[k] == visits@[k].model(),
                j <= visits@.len(),
                forall|k: int| 0 <= k < j ==> visit_styles_ok(#[trigger] vm[k]),
            decreases visits@.len() - j,
        {
            let v = &visits[j];
            match &v.item {
                Item::VariantSet { public, attrs, variants, .. } => {
                    if *public && variants_all_unit(variants) && variants_need_style(variants) {
                        let style = serde_attr(attrs, "rename_all");
                        if !style_token_ok(&style) {
                            proof {
                                assert(item_attrs(vm[j as int].item) == attrs_model(attrs@));
                                assert(!visit_styles_ok(vm[j as int]));
                            }
                            return false;
                        }
                        proof {
                            assert(item_attrs(vm[j as int].item) == attrs_model(attrs@));
                            assert(visit_styles_ok(vm[j as int]));
                        }
                    } else {
                        proof {
                            assert(visit_styles_ok(vm[j as int]));
                        }
                    }
                },
                _ => {
                    proof {
                        assert(visit_styles_ok(vm[j as int]));
                    }
                },
            }
            j = j + 1;
        }
        proof {
            assert(file_styles_ok(fm[i as int]));
        }
        i = i + 1;
    }
    true
}

fn emit_display_fragment(out: &mut String, path: &Vec<String>, name: &String, attrs: &Vec<Attr>, variants: &Vec<Variant>)
    requires
        needs_style(variants_model(variants@)) ==> style_ok(
            attr_lookup(attrs_model(attrs@), "serde"@, "rename_all"@),
        ),
    ensures
        final(out)@ == old(out)@ + display_fragment(
            path.deep_view(),
            name@,
            attrs_model(attrs@),
            variants_model(variants@),
        ),
{
    let ghost vs = variants_model(variants@);
    let ghost style = attr_lookup(attrs_model(attrs@), "serde"@, "rename_all"@);
    out.append("impl fmt::Display for ");
    push_qual(out, path);
    out.append(name.as_str());
    out.append(" {\n    fn fmt(&self, f: &mut fmt::Formatter<'_>) -> fmt::Result {\n        match self {\n");
    let ghost mid = old(out)@ + "impl fmt::Display for "@ + qual_text(path.deep_view()) + name@
        + " {\n    fn fmt(&self, f: &mut fmt::Formatter<'_>) -> fmt::Result {\n        match self {\n"@;
    proof {
        assert(out@ =~= mid);
    }
    let case = serde_attr(attrs, "rename_all");
    proof {
        assert(case.deep_view() == style);
    }
    let mut j: usize = 0;
    while j < variants.len()
        invariant
            vs == variants_model(variants@),
            vs.len() == variants@.len(),
            forall|k: int| 0 <= k < vs.len() ==> vs[k] == variants@[k].model(),
            j <= variants@.len(),
            case.deep_view() == style,
            needs_style(vs) ==> style_ok(style),
            out@ == mid + arms_upto(vs, style, j as int),
        decreases variants@.len() - j,
    {
        let v = &variants[j];
        let rename = serde_attr(&v.attrs, "rename");
        proof {
            assert(vs[j as int].attrs == attrs_model(variants@[j as int].attrs@));
            assert(rename.deep_view() == attr_lookup(vs[j as int].attrs, "serde"@, "rename"@));
        }
        let resolved: String = match rename {
            Option::Some(r) => r,
            Option::None => {
                proof {
                    assert(attr_lookup(vs[j as int].attrs, "serde"@, "rename"@) is None);
                    assert(needs_style(vs));
                }
                let c: Option<&str> = match &case {
                    Option::Some(s) => Option::Some(s.as_str()),
                    Option::None => Option::None,
                };
                proof {
                    assert(c.deep_view() == style);
                }
                change_case(c, v.name.clone())
            },
        };
        proof {
            assert(resolved@ == variant_text(vs[j as int], style));
        }
        out.append("            Self::");
        out.append(v.name.as_str());
        out.append(" => f.write_str(\"");
        out.append(resolved.as_str());
        out.append("\"),\n");
        proof {
            assert(out@ =~= mid + arms_upto(vs, style, (j + 1) as int));
        }
        j = j + 1;
    }
    out.append("        }\n    }\n}\n\n");
    proof {
        assert(arms_upto(vs, style, vs.len() as int) == arms_text(vs, style));
        assert(out@ =~= old(out)@ + display_fragment(
            path.deep_view(),
            name@,
            attrs_model(attrs@),
            variants_model(variants@),
        ));
    }
}

fn emit_display_file(out: &mut String, file: &SourceFile)
    requires
        file_styles_ok(file.model()),
    ensures
        final(out)@ == old(out)@ + display_file_text(file.model()),
{
    let visits = walk_file(file);
    let ghost vm = visits_model(visits@);
    let ghost ts = vm.map_values(|v: VisitV| display_visit_text(v));
    let mut i: usize = 0;
    while i < visits.len()
        invariant
            vm == visits_model(visits@),
            vm == file_visits(file.model()),
            vm.len() == visits@.len(),
            ts.len() == vm.len(),
            forall|k: int| 0 <= k < vm.len() ==> ts[k] == display_visit_text(vm[k]),
            forall|k: int| 0 <= k < vm.len() ==> vm[k] == visits@[k].model(),
            forall|k: int| 0 <= k < vm.len() ==> visit_styles_ok(#[trigger] vm[k]),
            i <= visits@.len(),
            out@ == old(out)@ + concat_upto(ts, i as int),
        decreases visits@.len() - i,
    {
        let v = &visits[i];
        match &v.item {
            Item::VariantSet { public, name, attrs, variants, .. } => {
                if *public && variants_all_unit(variants) {
                    proof {
                        assert(vm[i as int].item == visits@[i as int].item.model());
                        assert(display_eligible(vm[i as int].item));
                        assert(visit_styles_ok(vm[i as int]));
                        assert(item_variants(vm[i as int].item) == variants_model(variants@));
                        assert(item_attrs(vm[i as int].item) == attrs_model(attrs@));
                    }
                    emit_display_fragment(out, &v.path, name, attrs, variants);
                }
            },
            _ => {},
        }
        proof {
            assert(out@ =~= old(out)@ + concat_upto(ts, (i + 1) as int));
        }
        i = i + 1;
    }
    proof {
        assert(concat_upto(ts, ts.len() as int) == concat_texts(ts));
        assert(ts =~= file_visits(file.model()).map_values(|v: VisitV| display_visit_text(v)));
    }
}

/// Renders the whole display output for the given parsed files, in order.
/// Every style the run will apply must have been validated first.
pub fn gen_display(files: &Vec<SourceFile>, tool: &str) -> (out: String)
    requires
        files_styles_ok(files_model(files@)),
    ensures
        out@ == display_output(files_model(files@), tool@),
{
    let mut out = crate::header(tool);
    out.append("use std::fmt;\nuse crate::*;\n\n");
    let ghost fm = files_model(files@);
    let ghost fts = fm.map_values(|f: SourceFileV| display_file_text(f));
    let ghost pre = header_text(tool@) + "use std::fmt;\nuse crate::*;\n\n"@;
    let mut i: usize = 0;
    while i < files.len()
        invariant
            fm == files_model(files@),
            fm.len() == files@.len(),
            fts.len() == fm.len(),
            forall|k: int| 0 <= k < fm.len() ==> fts[k] == display_file_text(fm[k]),
            forall|k: int| 0 <= k < fm.len() ==> fm[k] == files@[k].model(),
            forall|k: int| 0 <= k < fm.len() ==> file_styles_ok(#[trigger] fm[k]),
            i <= files@.len(),
            out@ == pre + concat_upto(fts, i as int),
            pre == header_text(tool@) + "use std::fmt;\nuse crate::*;\n\n"@,
        decreases files@.len() - i,
    {
        proof {
            assert(file_styles_ok(fm[i as int]));
            assert(fm[i as int] == files@[i as int].model());
        }
        emit_display_file(&mut out, &files[i]);
        proof {
            assert(out@ =~= pre + concat_upto(fts, (i + 1) as int));
        }
        i = i + 1;
    }
    proof {
        assert(concat_upto(fts, fts.len() as int) == concat_texts(fts));
        assert(out@ =~= display_output(files_model(files@), tool@));
    }
    out
}

} // verus!
