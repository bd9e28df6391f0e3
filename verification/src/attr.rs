//! The attribute extractor: looks a key up inside the annotations of one
//! group and returns the first string-literal value, in traversal order.
//! Entries whose value is not a string literal read as absent.
use vstd::prelude::*;
use crate::ast::{Attr, AttrEntryV, AttrV, attrs_model};
use crate::text::str_eq;

verus! {

/// The first string value for `key` among `entries[i..]`.
pub open spec fn entry_lookup_from(entries: Seq<AttrEntryV>, key: Seq<char>, i: int) -> Option<
    Seq<char>,
>
    decreases entries.len() - i,
{
    if i < 0 || i >= entries.len() {
        Option::None
    } else if entries[i].key == key && entries[i].value is Some {
        entries[i].value
    } else {
        entry_lookup_from(entries, key, i + 1)
    }
}

/// The first string value for `key` inside annotations of `group`, scanning
/// `attrs[i..]` in order, and each annotation's entries in order.
pub open spec fn attr_lookup_from(
    attrs: Seq<AttrV>,
    group: Seq<char>,
    key: Seq<char>,
    i: int,
) -> Option<Seq<char>>
    decreases attrs.len() - i,
{
    if i < 0 || i >= attrs.len() {
        Option::None
    } else {
        let rest = attr_lookup_from(attrs, group, key, i + 1);
        if attrs[i].group == group {
            match entry_lookup_from(attrs[i].entries, key, 0) {
                Option::Some(v) => Option::Some(v),
                Option::None => rest,
            }
        } else {
            rest
        }
    }
}

/// The first string value for `key` among annotations of `group`, or `None`
/// when no annotation of that group carries `key` with a string value.
pub open spec fn attr_lookup(attrs: Seq<AttrV>, group: Seq<char>, key: Seq<char>) -> Option<
    Seq<char>,
> {
    attr_lookup_from(attrs, group, key, 0)
}

/// Returns the first string value stored under `name` inside annotations of
/// the serialization group, or `None` when there is none.
pub fn serde_attr(attrs: &Vec<Attr>, name: &str) -> (r: Option<String>)
    ensures
        r.deep_view() == attr_lookup(attrs_model(attrs@), "serde"@, name@),
{
    let ghost m = attrs_model(attrs@);
    let mut i: usize = 0;
    while i < attrs.len()
        invariant
            m == attrs_model(attrs@),
            m.len() == attrs@.len(),
            i <= attrs@.len(),
            attr_lookup_from(m, "serde"@, name@, 0) == attr_lookup_from(
                m,
                "serde"@,
                name@,
                i as int,
            ),
        decreases attrs@.len() - i,
    {
        if str_eq(attrs[i].group.as_str(), "serde") {
            let entries = &attrs[i].entries;
            let ghost em = m[i as int].entries;
            let mut j: usize = 0;
            while j < entries.len()
                invariant
                    m == attrs_model(attrs@),
                    m.len() == attrs@.len(),
                    i < attrs@.len(),
                    em == m[i as int].entries,
                    em.len() == entries@.len(),
                    entries@ == attrs@[i as int].entries@,
                    attrs@[i as int].group@ == "serde"@,
                    attr_lookup_from(m, "serde"@, name@, 0) == attr_lookup_from(
                        m,
                        "serde"@,
                        name@,
                        i as int,
                    ),
                    j <= entries@.len(),
                    entry_lookup_from(em, name@, 0) == entry_lookup_from(em, name@, j as int),
                decreases entries@.len() - j,
            {
                if str_eq(entries[j].key.as_str(), name) {
                    match &entries[j].value {
                        Option::Some(v) => {
                            proof {
                                assert(em[j as int] == attrs@[i as int].entries@[j as int].model());
                                assert(em[j as int].value == Option::Some(v@));
                                assert(entry_lookup_from(em, name@, j as int) == Option::Some(v@));
                                assert(m[i as int].group == "serde"@);
                                assert(attr_lookup_from(m, "serde"@, name@, i as int)
                                    == Option::Some(v@));
                            }
                            return Option::Some(v.clone());
                        },
                        Option::None => {},
                    }
                }
                j = j + 1;
            }
        }
        i = i + 1;
    }
    Option::None
}

} // verus!
