//! The property registry: encoding metadata per logical property name,
//! built by injecting host-supplied configuration tables.

use vstd::prelude::*;
use vstd::string::StrSliceExecFns;
use vstd::string::StringExecFns;
use crate::strutil::lower_seq;
use crate::strutil::to_ascii_lowercase;
use crate::strutil::str_eq;
use crate::node::PropValue;
use crate::node::PropValueV;

verus! {

pub const MUST_USE_PROPERTY: u32 = 0x1;

pub const HAS_BOOLEAN_VALUE: u32 = 0x4;

pub const HAS_NUMERIC_VALUE: u32 = 0x8;

pub const HAS_POSITIVE_NUMERIC_VALUE: u32 = 0x10 | 0x8;

pub const HAS_OVERLOADED_BOOLEAN_VALUE: u32 = 0x20;

pub const HAS_STRING_BOOLEAN_VALUE: u32 = 0x40;

/// Whether all bits of `bitmask` are set in `value`.
pub open spec fn mask_set(value: u32, bitmask: u32) -> bool {
    value & bitmask == bitmask
}

/// Tests a flag mask.
pub fn check_mask(value: u32, bitmask: u32) -> (r: bool)
    ensures
        r == mask_set(value, bitmask),
{
    (value & bitmask) == bitmask
}

/// Encoding metadata for one logical property.
pub struct PropertyInfo {
    pub attribute_name: String,
    pub attribute_namespace: Option<String>,
    pub property_name: String,
    pub must_use_property: bool,
    pub has_boolean_value: bool,
    pub has_numeric_value: bool,
    pub has_positive_numeric_value: bool,
    pub has_overloaded_boolean_value: bool,
    pub has_string_boolean_value: bool,
}

/// The mathematical view of a property entry.
pub struct PropertyInfoV {
    pub attribute_name: Seq<char>,
    pub attribute_namespace: Option<Seq<char>>,
    pub property_name: Seq<char>,
    pub must_use_property: bool,
    pub has_boolean_value: bool,
    pub has_numeric_value: bool,
    pub has_positive_numeric_value: bool,
    pub has_overloaded_boolean_value: bool,
    pub has_string_boolean_value: bool,
}

impl View for PropertyInfo {
    type V = PropertyInfoV;

    open spec fn view(&self) -> PropertyInfoV {
        PropertyInfoV {
            attribute_name: self.attribute_name@,
            attribute_namespace: match self.attribute_namespace {
                Some(ns) => Some(ns@),
                None => None,
            },
            property_name: self.property_name@,
            must_use_property: self.must_use_property,
            has_boolean_value: self.has_boolean_value,
            has_numeric_value: self.has_numeric_value,
            has_positive_numeric_value: self.has_positive_numeric_value,
            has_overloaded_boolean_value: self.has_overloaded_boolean_value,
            has_string_boolean_value: self.has_string_boolean_value,
        }
    }
}

/// One injected configuration: flags per property name, attribute-name
/// overrides, and attribute namespaces.
pub struct DomPropertyConfig {
    pub properties: Vec<(String, u32)>,
    pub dom_attribute_names: Vec<(String, String)>,
    pub dom_attribute_namespaces: Vec<(String, String)>,
}

/// The view of a name-to-flags list.
pub open spec fn flag_pairs_view(s: Seq<(String, u32)>) -> Seq<(Seq<char>, u32)>
    decreases s.len(),
{
    if s.len() == 0 {
        Seq::empty()
    } else {
        flag_pairs_view(s.drop_last()).push((s.last().0@, s.last().1))
    }
}

/// The view of a name-to-name list.
pub open spec fn str_pairs_view(s: Seq<(String, String)>) -> Seq<(Seq<char>, Seq<char>)>
    decreases s.len(),
{
    if s.len() == 0 {
        Seq::empty()
    } else {
        str_pairs_view(s.drop_last()).push((s.last().0@, s.last().1@))
    }
}

pub proof fn lemma_flag_pairs_view_elems(s: Seq<(String, u32)>)
    ensures
        flag_pairs_view(s).len() == s.len(),
        forall|i: int|
            0 <= i < s.len() ==> #[trigger] flag_pairs_view(s)[i] == (s[i].0@, s[i].1),
    decreases s.len(),
{
    if s.len() > 0 {
        lemma_flag_pairs_view_elems(s.drop_last());
    }
}

pub proof fn lemma_str_pairs_view_elems(s: Seq<(String, String)>)
    ensures
        str_pairs_view(s).len() == s.len(),
        forall|i: int|
            0 <= i < s.len() ==> #[trigger] str_pairs_view(s)[i] == (s[i].0@, s[i].1@),
    decreases s.len(),
{
    if s.len() > 0 {
        lemma_str_pairs_view_elems(s.drop_last());
    }
}

/// The first value associated with a key, searching from position `i`.
pub open spec fn assoc_from(s: Seq<(Seq<char>, Seq<char>)>, k: Seq<char>, i: int) -> Option<
    Seq<char>,
>
    decreases s.len() - i,
{
    if i < 0 || i >= s.len() {
        None
    } else if s[i].0 == k {
        Some(s[i].1)
    } else {
        assoc_from(s, k, i + 1)
    }
}

/// The first value associated with a key.
pub open spec fn assoc(s: Seq<(Seq<char>, Seq<char>)>, k: Seq<char>) -> Option<Seq<char>> {
    assoc_from(s, k, 0)
}

/// Looks a key up in a name-to-name list.
fn assoc_lookup(v: &Vec<(String, String)>, k: &str) -> (r: Option<String>)
    ensures
        match r {
            Some(val) => assoc(str_pairs_view(v@), k@) == Some(val@),
            None => assoc(str_pairs_view(v@), k@) is None,
        },
{
    proof {
        lemma_str_pairs_view_elems(v@);
    }
    let ghost pairs = str_pairs_view(v@);
    let mut i: usize = 0;
    while i < v.len()
        invariant
            i <= v@.len(),
            pairs == str_pairs_view(v@),
            pairs.len() == v@.len(),
            forall|j: int| 0 <= j < v@.len() ==> #[trigger] pairs[j] == (v@[j].0@, v@[j].1@),
            assoc_from(pairs, k@, 0) == assoc_from(pairs, k@, i as int),
        decreases v@.len() - i,
    {
        if str_eq(v[i].0.as_str(), k) {
            return Some(v[i].1.clone());
        }
        i = i + 1;
    }
    None
}

/// Whether a flag word sets more than one of boolean, numeric and
/// overloaded-boolean.
pub open spec fn flag_conflict(flags: u32) -> bool {
    (if mask_set(flags, HAS_BOOLEAN_VALUE) {
        1int
    } else {
        0int
    }) + (if mask_set(flags, HAS_NUMERIC_VALUE) {
        1int
    } else {
        0int
    }) + (if mask_set(flags, HAS_OVERLOADED_BOOLEAN_VALUE) {
        1int
    } else {
        0int
    }) > 1
}

/// The entry a configuration line derives: attribute-name override or
/// lowercased name, optional namespace, and the decoded flags.
pub open spec fn derive_info(
    name: Seq<char>,
    flags: u32,
    names: Seq<(Seq<char>, Seq<char>)>,
    namespaces: Seq<(Seq<char>, Seq<char>)>,
) -> PropertyInfoV {
    PropertyInfoV {
        attribute_name: match assoc(names, name) {
            Some(n) => n,
            None => lower_seq(name),
        },
        attribute_namespace: assoc(namespaces, name),
        property_name: name,
        must_use_property: mask_set(flags, MUST_USE_PROPERTY),
        has_boolean_value: mask_set(flags, HAS_BOOLEAN_VALUE),
        has_numeric_value: mask_set(flags, HAS_NUMERIC_VALUE),
        has_positive_numeric_value: mask_set(flags, HAS_POSITIVE_NUMERIC_VALUE),
        has_overloaded_boolean_value: mask_set(flags, HAS_OVERLOADED_BOOLEAN_VALUE),
        has_string_boolean_value: mask_set(flags, HAS_STRING_BOOLEAN_VALUE),
    }
}

/// The registry map after injecting the lines from position `i` on:
/// `None` when a duplicate name or a flag conflict stops the build.
pub open spec fn inject_from(
    m: Map<Seq<char>, PropertyInfoV>,
    props: Seq<(Seq<char>, u32)>,
    names: Seq<(Seq<char>, Seq<char>)>,
    namespaces: Seq<(Seq<char>, Seq<char>)>,
    i: int,
) -> Option<Map<Seq<char>, PropertyInfoV>>
    decreases props.len() - i,
{
    if i < 0 || i >= props.len() {
        Some(m)
    } else {
        let (name, flags) = props[i];
        if m.contains_key(name) || flag_conflict(flags) {
            None
        } else {
            inject_from(m.insert(name, derive_info(name, flags, names, namespaces)), props, names, namespaces, i + 1)
        }
    }
}

/// The registry map after injecting a whole configuration.
pub open spec fn inject_config(
    m: Map<Seq<char>, PropertyInfoV>,
    props: Seq<(Seq<char>, u32)>,
    names: Seq<(Seq<char>, Seq<char>)>,
    namespaces: Seq<(Seq<char>, Seq<char>)>,
) -> Option<Map<Seq<char>, PropertyInfoV>> {
    inject_from(m, props, names, namespaces, 0)
}

/// The map a registry's entry list denotes.
pub open spec fn entries_map(s: Seq<(String, PropertyInfo)>) -> Map<Seq<char>, PropertyInfoV>
    decreases s.len(),
{
    if s.len() == 0 {
        Map::empty()
    } else {
        entries_map(s.drop_last()).insert(s.last().0@, s.last().1@)
    }
}

/// Whether entry keys are pairwise distinct.
pub open spec fn entry_keys_unique(s: Seq<(String, PropertyInfo)>) -> bool {
    forall|i: int, j: int|
        0 <= i < j < s.len() ==> (#[trigger] s[i]).0@ != (#[trigger] s[j]).0@
}

pub proof fn lemma_entries_map_contains(s: Seq<(String, PropertyInfo)>, k: Seq<char>)
    ensures
        entries_map(s).contains_key(k) <==> exists|i: int|
            0 <= i < s.len() && (#[trigger] s[i]).0@ == k,
    decreases s.len(),
{
    if s.len() > 0 {
        lemma_entries_map_contains(s.drop_last(), k);
        if s.last().0@ == k {
            assert(s[s.len() - 1].0@ == k);
        } else {
            if entries_map(s).contains_key(k) {
                let i = choose|i: int| 0 <= i < s.drop_last().len() && (#[trigger] s.drop_last()[i]).0@ == k;
                assert(s[i].0@ == k);
            }
            if exists|i: int| 0 <= i < s.len() && (#[trigger] s[i]).0@ == k {
                let i = choose|i: int| 0 <= i < s.len() && (#[trigger] s[i]).0@ == k;
                assert(s.drop_last()[i].0@ == k);
            }
        }
    }
}

pub proof fn lemma_entries_map_index(s: Seq<(String, PropertyInfo)>, i: int)
    requires
        entry_keys_unique(s),
        0 <= i < s.len(),
    ensures
        entries_map(s).contains_key(s[i].0@),
        entries_map(s)[s[i].0@] == s[i].1@,
    decreases s.len(),
{
    if i == s.len() - 1 {
    } else {
        assert(entry_keys_unique(s.drop_last()));
        assert(s.drop_last()[i] == s[i]);
        lemma_entries_map_index(s.drop_last(), i);
        assert(s[i].0@ != s[s.len() - 1].0@);
    }
}

/// The property registry: a read-only table from logical property name
/// to encoding metadata, built once and then only consulted.
pub struct PropertyRegistry {
    entries: Vec<(String, PropertyInfo)>,
}

impl View for PropertyRegistry {
    type V = Map<Seq<char>, PropertyInfoV>;

    closed spec fn view(&self) -> Map<Seq<char>, PropertyInfoV> {
        entries_map(self.entries@)
    }
}

fn find_entry(entries: &Vec<(String, PropertyInfo)>, name: &str) -> (r: Option<usize>)
    ensures
        match r {
            Some(i) => i < entries@.len() && entries@[i as int].0@ == name@,
            None => forall|j: int| 0 <= j < entries@.len() ==> (#[trigger] entries@[j]).0@ != name@,
        },
{
    let mut i: usize = 0;
    while i < entries.len()
        invariant
            i <= entries@.len(),
            forall|j: int| 0 <= j < i ==> (#[trigger] entries@[j]).0@ != name@,
        decreases entries@.len() - i,
    {
        if str_eq(entries[i].0.as_str(), name) {
            return Some(i);
        }
        i = i + 1;
    }
    None
}

impl PropertyRegistry {
    /// Entry keys are pairwise distinct.
    pub closed spec fn wf(&self) -> bool {
        entry_keys_unique(self.entries@)
    }

    /// An empty registry.
    pub fn new() -> (r: PropertyRegistry)
        ensures
            r.wf(),
            r@ == Map::<Seq<char>, PropertyInfoV>::empty(),
    {
        PropertyRegistry { entries: Vec::new() }
    }
}

/// Merges one configuration into the registry. Returns false, leaving
/// the registry unchanged, when a property name is already present or a
/// flag word sets more than one exclusive flag.
pub fn inject_dom_property_config(registry: &mut PropertyRegistry, config: &DomPropertyConfig) -> (ok:
    bool)
    requires
        old(registry).wf(),
    ensures
        final(registry).wf(),
        match inject_config(
            old(registry)@,
            flag_pairs_view(config.properties@),
            str_pairs_view(config.dom_attribute_names@),
            str_pairs_view(config.dom_attribute_namespaces@),
        ) {
            Some(m) => ok && final(registry)@ == m,
            None => !ok && final(registry)@ == old(registry)@,
        },
{
    let ghost props = flag_pairs_view(config.properties@);
    let ghost names = str_pairs_view(config.dom_attribute_names@);
    let ghost namespaces = str_pairs_view(config.dom_attribute_namespaces@);
    let ghost orig_entries = registry.entries@;
    proof {
        lemma_flag_pairs_view_elems(config.properties@);
    }
    let orig_len = registry.entries.len();
    let mut i: usize = 0;
    while i < config.properties.len()
        invariant
            i <= config.properties@.len(),
            props == flag_pairs_view(config.properties@),
            names == str_pairs_view(config.dom_attribute_names@),
            namespaces == str_pairs_view(config.dom_attribute_namespaces@),
            props.len() == config.properties@.len(),
            forall|j: int|
                0 <= j < config.properties@.len() ==> #[trigger] props[j] == (
                    config.properties@[j].0@,
                    config.properties@[j].1,
                ),
            orig_entries == old(registry).entries@,
            old(registry).wf(),
            orig_len == orig_entries.len(),
            registry.entries@.subrange(0, orig_len as int) == orig_entries,
            registry.entries@.len() >= orig_len,
            entry_keys_unique(registry.entries@),
            inject_from(entries_map(registry.entries@), props, names, namespaces, i as int)
                == inject_from(entries_map(orig_entries), props, names, namespaces, 0),
        decreases config.properties@.len() - i,
    {
        let name = config.properties[i].0.as_str();
        let flags = config.properties[i].1;
        if find_entry(&registry.entries, name).is_some() {
            proof {
                lemma_entries_map_contains(registry.entries@, name@);
            }
            registry.entries.truncate(orig_len);
            proof {
                assert(registry.entries@ =~= orig_entries);
            }
            return false;
        }
        let has_bool = check_mask(flags, HAS_BOOLEAN_VALUE);
        let has_num = check_mask(flags, HAS_NUMERIC_VALUE);
        let has_over = check_mask(flags, HAS_OVERLOADED_BOOLEAN_VALUE);
        let count: u32 = (if has_bool {
            1
        } else {
            0
        }) + (if has_num {
            1
        } else {
            0
        }) + (if has_over {
            1
        } else {
            0
        });
        if count > 1 {
            registry.entries.truncate(orig_len);
            proof {
                assert(registry.entries@ =~= orig_entries);
            }
            return false;
        }
        proof {
            lemma_entries_map_contains(registry.entries@, name@);
        }
        let attribute_name = match assoc_lookup(&config.dom_attribute_names, name) {
            Some(n) => n,
            None => to_ascii_lowercase(name),
        };
        let attribute_namespace = assoc_lookup(&config.dom_attribute_namespaces, name);
        let info = PropertyInfo {
            attribute_name,
            attribute_namespace,
            property_name: String::from_str(name),
            must_use_property: check_mask(flags, MUST_USE_PROPERTY),
            has_boolean_value: has_bool,
            has_numeric_value: has_num,
            has_positive_numeric_value: check_mask(flags, HAS_POSITIVE_NUMERIC_VALUE),
            has_overloaded_boolean_value: has_over,
            has_string_boolean_value: check_mask(flags, HAS_STRING_BOOLEAN_VALUE),
        };
        proof {
            assert(info@ == derive_info(name@, flags, names, namespaces));
        }
        let ghost prev = registry.entries@;
        let key = String::from_str(name);
        registry.entries.push((key, info));
        proof {
            assert(registry.entries@.drop_last() =~= prev);
            assert(registry.entries@.subrange(0, orig_len as int) =~= orig_entries);
            assert(entries_map(registry.entries@) == entries_map(prev).insert(name@, info@));
            assert forall|a: int, b: int| 0 <= a < b < registry.entries@.len() implies (
            #[trigger] registry.entries@[a]).0@ != (#[trigger] registry.entries@[b]).0@ by {
                if b == registry.entries@.len() - 1 {
                    lemma_entries_map_contains(prev, registry.entries@[a].0@);
                    assert(prev[a] == registry.entries@[a]);
                } else {
                    assert(prev[a] == registry.entries@[a]);
                    assert(prev[b] == registry.entries@[b]);
                }
            }
        }
        i = i + 1;
    }
    true
}

/// Looks a logical property name up in the registry.
pub fn get_property_info<'a>(registry: &'a PropertyRegistry, name: &str) -> (r: Option<
    &'a PropertyInfo,
>)
    requires
        registry.wf(),
    ensures
        match r {
            Some(info) => registry@.contains_key(name@) && info@ == registry@[name@],
            None => !registry@.contains_key(name@),
        },
{
    proof {
        lemma_entries_map_contains(registry.entries@, name@);
    }
    match find_entry(&registry.entries, name) {
        Some(i) => {
            proof {
                lemma_entries_map_index(registry.entries@, i as int);
            }
            Some(&registry.entries[i].1)
        },
        None => None,
    }
}

/// Whether a property name is reserved for the renderer itself and
/// never written as an attribute.
pub open spec fn is_reserved(name: Seq<char>) -> bool {
    ||| name == "children"@
    ||| name == "dangerouslySetInnerHTML"@
    ||| name == "defaultValue"@
    ||| name == "defaultChecked"@
    ||| name == "innerHTML"@
    ||| name == "suppressContentEditableWarning"@
    ||| name == "suppressHydrationWarning"@
    ||| name == "style"@
}

/// Tests a name against the reserved property set.
pub fn is_reserved_prop(name: &str) -> (r: bool)
    ensures
        r == is_reserved(name@),
{
    str_eq(name, "children") || str_eq(name, "dangerouslySetInnerHTML") || str_eq(
        name,
        "defaultValue",
    ) || str_eq(name, "defaultChecked") || str_eq(name, "innerHTML") || str_eq(
        name,
        "suppressContentEditableWarning",
    ) || str_eq(name, "suppressHydrationWarning") || str_eq(name, "style")
}

/// Whether a name, lowercased, starts with `data-` or `aria-`.
pub open spec fn data_or_aria_name(name: Seq<char>) -> bool {
    name.len() >= 5 && (lower_seq(name).subrange(0, 5) == "data-"@ || lower_seq(name).subrange(
        0,
        5,
    ) == "aria-"@)
}

/// Whether an attribute accepts a boolean value: reserved names do,
/// registered names with a boolean-like flag do, and otherwise only
/// `data-` and `aria-` names do.
pub open spec fn accepts_boolean(reg: Map<Seq<char>, PropertyInfoV>, name: Seq<char>) -> bool {
    if is_reserved(name) {
        true
    } else if reg.contains_key(name) {
        let info = reg[name];
        info.has_boolean_value || info.has_string_boolean_value
            || info.has_overloaded_boolean_value
    } else {
        data_or_aria_name(name)
    }
}

/// Tests whether an attribute accepts a boolean value.
pub fn should_attribute_accept_boolean_value(registry: &PropertyRegistry, name: &str) -> (r: bool)
    requires
        registry.wf(),
    ensures
        r == accepts_boolean(registry@, name@),
{
    if is_reserved_prop(name) {
        return true;
    }
    match get_property_info(registry, name) {
        Some(info) => info.has_boolean_value || info.has_string_boolean_value
            || info.has_overloaded_boolean_value,
        None => {
            let n = name.unicode_len();
            if n < 5 {
                return false;
            }
            let lc = to_ascii_lowercase(name);
            let prefix = lc.as_str().substring_char(0, 5);
            str_eq(prefix, "data-") || str_eq(prefix, "aria-")
        },
    }
}

/// Whether a property name looks like an event handler: longer than two
/// characters and starting `on` in any case mix.
pub open spec fn event_like(name: Seq<char>) -> bool {
    name.len() > 2 && (name[0] == 'o' || name[0] == 'O') && (name[1] == 'n' || name[1] == 'N')
}

/// Whether an unregistered property is written as a plain attribute:
/// reserved and event-handler-shaped names are not, boolean values only
/// on names that accept them, everything else is.
pub open spec fn should_set(reg: Map<Seq<char>, PropertyInfoV>, name: Seq<char>, v: PropValueV) -> bool {
    if is_reserved(name) {
        false
    } else if event_like(name) {
        false
    } else {
        match v {
            PropValueV::Bool(_) => accepts_boolean(reg, name),
            _ => true,
        }
    }
}

/// Tests whether a property may be written as a plain attribute.
pub fn should_set_attribute(registry: &PropertyRegistry, name: &str, value: &PropValue) -> (r:
    bool)
    requires
        registry.wf(),
    ensures
        r == should_set(registry@, name@, value@),
{
    if is_reserved_prop(name) {
        return false;
    }
    let n = name.unicode_len();
    if n > 2 {
        let c0 = name.get_char(0);
        let c1 = name.get_char(1);
        if (c0 == 'o' || c0 == 'O') && (c1 == 'n' || c1 == 'N') {
            return false;
        }
    }
    match value {
        PropValue::Bool(_) => should_attribute_accept_boolean_value(registry, name),
        _ => true,
    }
}

} // verus!
