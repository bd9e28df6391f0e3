use codegen::assert_gen::{gen_assert_impl, is_entry_file};
use codegen::ast::{Attr, AttrEntry, Item, Payload, SourceFile, Variant};
use codegen::attr::serde_attr;
use codegen::case::change_case;
use codegen::display_gen::{check_styles, gen_display};
use codegen::from_str_gen::gen_from_str;
use codegen::header;
use codegen::order::sort_paths;
use codegen::root_dir;

const HEADER: &str =
    "// This file is @generated by codegen.\n// It is not intended for manual editing.\n\n";

fn s(x: &str) -> String {
    x.to_string()
}

fn serde_kv(key: &str, value: Option<&str>) -> Attr {
    Attr {
        group: s("serde"),
        entries: vec![AttrEntry { key: s(key), value: value.map(s) }],
    }
}

fn unit_variant(name: &str, attrs: Vec<Attr>) -> Variant {
    Variant { name: s(name), attrs, payload: Payload::Unit }
}

fn record(public: bool, name: &str, lifetimes: usize) -> Item {
    Item::Record { public, name: s(name), attrs: vec![], lifetimes }
}

#[test]
fn header_names_the_tool() {
    assert_eq!(header("codegen"), HEADER);
}

#[test]
fn root_dir_drops_two_levels() {
    let dir = vec![s("home"), s("proj"), s("tools"), s("codegen")];
    assert_eq!(root_dir(&dir), vec![s("home"), s("proj")]);
}

#[test]
fn from_str_covers_public_records_and_variant_sets() {
    let files = vec![
        SourceFile {
            module: None,
            items: vec![record(true, "Config", 0), record(false, "Hidden", 0)],
        },
        SourceFile {
            module: Some(s("v1")),
            items: vec![Item::VariantSet {
                public: true,
                name: s("Mode"),
                attrs: vec![],
                lifetimes: 0,
                variants: vec![unit_variant("Alpha", vec![])],
            }],
        },
    ];
    let out = gen_from_str(&files, "codegen");
    let expected = format!(
        "{}use std::str::FromStr;\nuse crate::*;\n\n{}{}",
        HEADER,
        "impl FromStr for Config {\n    type Err = Error;\n    fn from_str(s: &str) -> Result<Self, Self::Err> {\n        serde_yaml::from_str(s).map_err(Error::new)\n    }\n}\n\n",
        "impl FromStr for v1::Mode {\n    type Err = Error;\n    fn from_str(s: &str) -> Result<Self, Self::Err> {\n        serde_yaml::from_str(s).map_err(Error::new)\n    }\n}\n\n",
    );
    assert_eq!(out, expected);
}

#[test]
fn nested_module_gets_two_segment_path() {
    let files = vec![SourceFile {
        module: Some(s("v2")),
        items: vec![Item::Module {
            name: s("inner"),
            items: vec![record(true, "Point", 0)],
        }],
    }];
    let out = gen_from_str(&files, "codegen");
    assert!(out.contains("impl FromStr for v2::inner::Point {"));
}

#[test]
fn display_no_rename_keeps_identifiers() {
    let files = vec![SourceFile {
        module: Some(s("v1")),
        items: vec![Item::VariantSet {
            public: true,
            name: s("Mode"),
            attrs: vec![],
            lifetimes: 0,
            variants: vec![unit_variant("Alpha", vec![]), unit_variant("Beta", vec![])],
        }],
    }];
    assert!(check_styles(&files));
    let out = gen_display(&files, "codegen");
    let expected = format!(
        "{}use std::fmt;\nuse crate::*;\n\n{}",
        HEADER,
        "impl fmt::Display for v1::Mode {\n    fn fmt(&self, f: &mut fmt::Formatter<'_>) -> fmt::Result {\n        match self {\n            Self::Alpha => f.write_str(\"Alpha\"),\n            Self::Beta => f.write_str(\"Beta\"),\n        }\n    }\n}\n\n",
    );
    assert_eq!(out, expected);
}

#[test]
fn display_kebab_rename_all_converts_variants() {
    let files = vec![SourceFile {
        module: Some(s("v1")),
        items: vec![Item::VariantSet {
            public: true,
            name: s("Mode"),
            attrs: vec![serde_kv("rename_all", Some("kebab-case"))],
            lifetimes: 0,
            variants: vec![unit_variant("FooBar", vec![])],
        }],
    }];
    assert!(check_styles(&files));
    let out = gen_display(&files, "codegen");
    assert!(out.contains("            Self::FooBar => f.write_str(\"foo-bar\"),\n"));
}

#[test]
fn display_snake_rename_all_converts_variants() {
    let files = vec![SourceFile {
        module: Some(s("v1")),
        items: vec![Item::VariantSet {
            public: true,
            name: s("Mode"),
            attrs: vec![serde_kv("rename_all", Some("snake_case"))],
            lifetimes: 0,
            variants: vec![unit_variant("FooBar", vec![])],
        }],
    }];
    let out = gen_display(&files, "codegen");
    assert!(out.contains("            Self::FooBar => f.write_str(\"foo_bar\"),\n"));
}

#[test]
fn display_override_beats_rename_all() {
    let files = vec![SourceFile {
        module: Some(s("v1")),
        items: vec![Item::VariantSet {
            public: true,
            name: s("Mode"),
            attrs: vec![serde_kv("rename_all", Some("kebab-case"))],
            lifetimes: 0,
            variants: vec![
                unit_variant("FooBar", vec![serde_kv("rename", Some("XYZ"))]),
                unit_variant("QuuxCase", vec![]),
            ],
        }],
    }];
    let out = gen_display(&files, "codegen");
    assert!(out.contains("            Self::FooBar => f.write_str(\"XYZ\"),\n"));
    assert!(out.contains("            Self::QuuxCase => f.write_str(\"quux-case\"),\n"));
}

#[test]
fn display_skips_payload_carrying_variant_sets() {
    let files = vec![SourceFile {
        module: Some(s("v1")),
        items: vec![Item::VariantSet {
            public: true,
            name: s("Mixed"),
            attrs: vec![],
            lifetimes: 0,
            variants: vec![
                unit_variant("Plain", vec![]),
                Variant { name: s("WithData"), attrs: vec![], payload: Payload::Tuple },
            ],
        }],
    }];
    let out = gen_display(&files, "codegen");
    let expected = format!("{}use std::fmt;\nuse crate::*;\n\n", HEADER);
    assert_eq!(out, expected);
}

#[test]
fn display_skips_private_and_non_variant_items() {
    let files = vec![SourceFile {
        module: Some(s("v1")),
        items: vec![
            record(true, "Rec", 0),
            Item::VariantSet {
                public: false,
                name: s("Secretive"),
                attrs: vec![],
                lifetimes: 0,
                variants: vec![unit_variant("A", vec![])],
            },
        ],
    }];
    let out = gen_display(&files, "codegen");
    assert_eq!(out, format!("{}use std::fmt;\nuse crate::*;\n\n", HEADER));
}

#[test]
fn check_styles_rejects_unknown_style() {
    let files = vec![SourceFile {
        module: Some(s("v1")),
        items: vec![Item::VariantSet {
            public: true,
            name: s("Mode"),
            attrs: vec![serde_kv("rename_all", Some("camelCase"))],
            lifetimes: 0,
            variants: vec![unit_variant("FooBar", vec![])],
        }],
    }];
    assert!(!check_styles(&files));
}

#[test]
fn check_styles_accepts_unknown_style_when_every_variant_overridden() {
    let files = vec![SourceFile {
        module: Some(s("v1")),
        items: vec![Item::VariantSet {
            public: true,
            name: s("Mode"),
            attrs: vec![serde_kv("rename_all", Some("camelCase"))],
            lifetimes: 0,
            variants: vec![unit_variant("FooBar", vec![serde_kv("rename", Some("fb"))])],
        }],
    }];
    assert!(check_styles(&files));
    let out = gen_display(&files, "codegen");
    assert!(out.contains("            Self::FooBar => f.write_str(\"fb\"),\n"));
}

#[test]
fn assert_impl_bare_type_gets_three_assertions() {
    let files = vec![SourceFile { module: None, items: vec![record(true, "Config", 0)] }];
    let out = gen_assert_impl(&files, "codegen");
    let expected = format!(
        "{}use crate::*;\nconst _: fn() = || {{\n    fn assert_send<T: ?Sized + Send>() {{}}\n    fn assert_sync<T: ?Sized + Sync>() {{}}\n    fn assert_unpin<T: ?Sized + Unpin>() {{}}\n{}}};\n",
        HEADER,
        "    assert_send::<Config>();\n    assert_sync::<Config>();\n    assert_unpin::<Config>();\n",
    );
    assert_eq!(out, expected);
}

#[test]
fn assert_impl_erases_every_lifetime() {
    let files = vec![SourceFile {
        module: Some(s("v2")),
        items: vec![
            record(true, "Ref", 2),
            Item::Union { public: true, name: s("U"), attrs: vec![], lifetimes: 1 },
            Item::TypeAlias { public: true, name: s("Alias"), attrs: vec![], lifetimes: 0 },
            record(false, "Priv", 0),
        ],
    }];
    let out = gen_assert_impl(&files, "codegen");
    assert!(out.contains("    assert_send::<v2::Ref<'_, '_>>();\n"));
    assert!(out.contains("    assert_sync::<v2::U<'_>>();\n"));
    assert!(out.contains("    assert_unpin::<v2::Alias>();\n"));
    assert!(!out.contains("Priv"));
}

#[test]
fn runs_are_deterministic() {
    let make = || {
        vec![SourceFile {
            module: Some(s("v1")),
            items: vec![Item::VariantSet {
                public: true,
                name: s("Mode"),
                attrs: vec![serde_kv("rename_all", Some("kebab-case"))],
                lifetimes: 0,
                variants: vec![unit_variant("FooBar", vec![])],
            }],
        }]
    };
    let a = make();
    let b = make();
    assert_eq!(gen_from_str(&a, "codegen"), gen_from_str(&b, "codegen"));
    assert_eq!(gen_display(&a, "codegen"), gen_display(&b, "codegen"));
    assert_eq!(gen_assert_impl(&a, "codegen"), gen_assert_impl(&b, "codegen"));
}

#[test]
fn sort_paths_sorts_and_deduplicates() {
    let paths = vec![s("src/v2.rs"), s("src/lib.rs"), s("src/v2.rs"), s("src/v1.rs")];
    let sorted = sort_paths(&paths);
    assert_eq!(sorted, vec![s("src/lib.rs"), s("src/v1.rs"), s("src/v2.rs")]);
}

#[test]
fn entry_files_are_recognized_by_name() {
    assert!(is_entry_file("main.rs"));
    assert!(!is_entry_file("lib.rs"));
    assert!(!is_entry_file("domain.rs"));
}

#[test]
fn serde_attr_returns_first_string_value() {
    let attrs = vec![
        Attr { group: s("doc"), entries: vec![AttrEntry { key: s("rename"), value: Some(s("no")) }] },
        serde_kv("rename", None),
        serde_kv("rename", Some("yes")),
        serde_kv("rename", Some("later")),
    ];
    assert_eq!(serde_attr(&attrs, "rename"), Some(s("yes")));
    assert_eq!(serde_attr(&attrs, "rename_all"), None);
}

#[test]
fn change_case_styles() {
    assert_eq!(change_case(None, s("FooBar")), s("FooBar"));
    assert_eq!(change_case(Some("kebab-case"), s("FooBar")), s("foo-bar"));
    assert_eq!(change_case(Some("snake_case"), s("FooBar")), s("foo_bar"));
}
