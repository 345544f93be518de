//! Style-property helpers: camelCase hyphenation, the unitless-number
//! property set, and style value formatting.

use vstd::prelude::*;
use vstd::string::StrSliceExecFns;
use vstd::string::StringExecFns;
use crate::strutil::push_char;
use crate::strutil::lower_char;
use crate::strutil::upper_char;
use crate::strutil::str_eq;
use crate::number::dec_digits;
use crate::number::number_literal;
use crate::number::number_trunc_u32;
use crate::number::push_dec_digits;
use crate::node::PropValue;
use crate::node::PropValueV;

verus! {

/// The hyphenated form of one character: an ASCII capital becomes a
/// hyphen and its lower-case form, everything else stays.
pub open spec fn hyphenate_char(c: char) -> Seq<char> {
    if 'A' <= c && c <= 'Z' {
        seq!['-', lower_char(c)]
    } else {
        seq![c]
    }
}

/// The hyphenated form of a camelCased name.
pub open spec fn hyphenate_seq(s: Seq<char>) -> Seq<char>
    decreases s.len(),
{
    if s.len() == 0 {
        Seq::empty()
    } else {
        hyphenate_char(s[0]) + hyphenate_seq(s.drop_first())
    }
}

/// Hyphenates a camelCased string: `backgroundColor` becomes
/// `background-color`.
pub fn hyphenate(value: &str) -> (r: String)
    ensures
        r@ == hyphenate_seq(value@),
{
    let n = value.unicode_len();
    let mut out = String::new();
    let mut i: usize = 0;
    proof {
        assert(value@.subrange(0, n as int) =~= value@);
        assert(out@ + hyphenate_seq(value@) =~= hyphenate_seq(value@));
    }
    while i < n
        invariant
            n == value@.len(),
            i <= n,
            out@ + hyphenate_seq(value@.subrange(i as int, n as int)) == hyphenate_seq(value@),
        decreases n - i,
    {
        let c = value.get_char(i);
        let ghost prev = out@;
        proof {
            let rest = value@.subrange(i as int, n as int);
            assert(rest.len() > 0);
            assert(rest[0] == value@[i as int]);
            assert(rest.drop_first() =~= value@.subrange(i as int + 1, n as int));
        }
        if 'A' <= c && c <= 'Z' {
            push_char(&mut out, '-');
            push_char(&mut out, ((c as u8) + 0x20) as char);
            proof {
                assert(out@ =~= prev + seq!['-', lower_char(c)]);
            }
        } else {
            push_char(&mut out, c);
            proof {
                assert(out@ =~= prev + seq![c]);
            }
        }
        i = i + 1;
    }
    proof {
        assert(value@.subrange(n as int, n as int) =~= Seq::<char>::empty());
        assert(out@ + Seq::<char>::empty() =~= out@);
    }
    out
}

/// The hyphenated style name: hyphenation, with a leading `ms-` mapped
/// to the `-ms-` vendor prefix.
pub open spec fn hyphenate_style_seq(s: Seq<char>) -> Seq<char> {
    let h = hyphenate_seq(s);
    if h.len() >= 3 && h.subrange(0, 3) == "ms-"@ {
        "-"@ + h
    } else {
        h
    }
}

/// Hyphenates a camelCased style name, mapping the `ms` vendor prefix
/// to `-ms-`.
pub fn hyphenate_style_name(value: &str) -> (r: String)
    ensures
        r@ == hyphenate_style_seq(value@),
{
    let h = hyphenate(value);
    let hs = h.as_str();
    let n = hs.unicode_len();
    proof {
        reveal_strlit("ms-");
    }
    if n >= 3 && hs.get_char(0) == 'm' && hs.get_char(1) == 's' && hs.get_char(2) == '-' {
        proof {
            assert(h@.subrange(0, 3) =~= "ms-"@);
        }
        let mut out = String::from_str("-");
        out.append(hs);
        proof {
            assert(out@ =~= "-"@ + h@);
        }
        out
    } else {
        proof {
            if h@.len() >= 3 && h@.subrange(0, 3) == "ms-"@ {
                assert(h@.subrange(0, 3)[0] == h@[0]);
                assert(h@.subrange(0, 3)[1] == h@[1]);
                assert(h@.subrange(0, 3)[2] == h@[2]);
                assert(false);
            }
        }
        h
    }
}

/// A key with a capitalized first letter and a vendor prefix in front:
/// `prefix_key_seq("Webkit", "opacity")` is `WebkitOpacity`.
pub open spec fn prefix_key_seq(prefix: Seq<char>, key: Seq<char>) -> Seq<char> {
    prefix + (if key.len() == 0 {
        Seq::<char>::empty()
    } else {
        seq![upper_char(key[0])] + key.drop_first()
    })
}

/// Prefixes a style key, capitalizing the key's first letter.
pub fn prefix_key(prefix: &str, key: &str) -> (r: String)
    ensures
        r@ == prefix_key_seq(prefix@, key@),
{
    let mut out = String::from_str(prefix);
    let n = key.unicode_len();
    if n == 0 {
        proof {
            assert(out@ =~= prefix_key_seq(prefix@, key@));
        }
        return out;
    }
    let c = key.get_char(0);
    if 'a' <= c && c <= 'z' {
        push_char(&mut out, ((c as u8) - 0x20) as char);
    } else {
        push_char(&mut out, c);
    }
    let rest = key.substring_char(1, n);
    out.append(rest);
    proof {
        assert(out@ =~= prefix_key_seq(prefix@, key@));
    }
    out
}

/// The style property names whose numeric values never take a `px`
/// suffix.
pub open spec fn unitless_base_names() -> Seq<Seq<char>> {
    seq![
        "animationIterationCount"@,
        "borderImageOutset"@,
        "borderImageSlice"@,
        "borderImageWidth"@,
        "boxFlex"@,
        "boxFlexGroup"@,
        "boxOrdinalGroup"@,
        "columnCount"@,
        "columns"@,
        "flex"@,
        "flexGrow"@,
        "flexPositive"@,
        "flexShrink"@,
        "flexNegative"@,
        "flexOrder"@,
        "gridRow"@,
        "gridRowEnd"@,
        "gridRowSpan"@,
        "gridRowStart"@,
        "gridColumn"@,
        "gridColumnEnd"@,
        "gridColumnSpan"@,
        "gridColumnStart"@,
        "fontWeight"@,
        "lineClamp"@,
        "lineHeight"@,
        "opacity"@,
        "order"@,
        "orphans"@,
        "tabSize"@,
        "widows"@,
        "zIndex"@,
        "zoom"@,
        "fillOpacity"@,
        "floodOpacity"@,
        "stopOpacity"@,
        "strokeDasharray"@,
        "strokeDashoffset"@,
        "strokeMiterlimit"@,
        "strokeOpacity"@,
        "strokeWidth"@,
    ]
}

fn unitless_base_table() -> (v: Vec<&'static str>)
    ensures
        v@.len() == unitless_base_names().len(),
        forall|i: int| 0 <= i < v@.len() ==> (#[trigger] v@[i])@ == unitless_base_names()[i],
{
    let mut v: Vec<&'static str> = Vec::new();
    v.push("animationIterationCount");
    v.push("borderImageOutset");
    v.push("borderImageSlice");
    v.push("borderImageWidth");
    v.push("boxFlex");
    v.push("boxFlexGroup");
    v.push("boxOrdinalGroup");
    v.push("columnCount");
    v.push("columns");
    v.push("flex");
    v.push("flexGrow");
    v.push("flexPositive");
    v.push("flexShrink");
    v.push("flexNegative");
    v.push("flexOrder");
    v.push("gridRow");
    v.push("gridRowEnd");
    v.push("gridRowSpan");
    v.push("gridRowStart");
    v.push("gridColumn");
    v.push("gridColumnEnd");
    v.push("gridColumnSpan");
    v.push("gridColumnStart");
    v.push("fontWeight");
    v.push("lineClamp");
    v.push("lineHeight");
    v.push("opacity");
    v.push("order");
    v.push("orphans");
    v.push("tabSize");
    v.push("widows");
    v.push("zIndex");
    v.push("zoom");
    v.push("fillOpacity");
    v.push("floodOpacity");
    v.push("stopOpacity");
    v.push("strokeDasharray");
    v.push("strokeDashoffset");
    v.push("strokeMiterlimit");
    v.push("strokeOpacity");
    v.push("strokeWidth");
    proof {
        assert(v@[0]@ == unitless_base_names()[0]);
        assert(v@[1]@ == unitless_base_names()[1]);
        assert(v@[2]@ == unitless_base_names()[2]);
        assert(v@[3]@ == unitless_base_names()[3]);
        assert(v@[4]@ == unitless_base_names()[4]);
        assert(v@[5]@ == unitless_base_names()[5]);
        assert(v@[6]@ == unitless_base_names()[6]);
        assert(v@[7]@ == unitless_base_names()[7]);
        assert(v@[8]@ == unitless_base_names()[8]);
        assert(v@[9]@ == unitless_base_names()[9]);
        assert(v@[10]@ == unitless_base_names()[10]);
        assert(v@[11]@ == unitless_base_names()[11]);
        assert(v@[12]@ == unitless_base_names()[12]);
        assert(v@[13]@ == unitless_base_names()[13]);
        assert(v@[14]@ == unitless_base_names()[14]);
        assert(v@[15]@ == unitless_base_names()[15]);
        assert(v@[16]@ == unitless_base_names()[16]);
        assert(v@[17]@ == unitless_base_names()[17]);
        assert(v@[18]@ == unitless_base_names()[18]);
        assert(v@[19]@ == unitless_base_names()[19]);
        assert(v@[20]@ == unitless_base_names()[20]);
        assert(v@[21]@ == unitless_base_names()[21]);
        assert(v@[22]@ == unitless_base_names()[22]);
        assert(v@[23]@ == unitless_base_names()[23]);
        assert(v@[24]@ == unitless_base_names()[24]);
        assert(v@[25]@ == unitless_base_names()[25]);
        assert(v@[26]@ == unitless_base_names()[26]);
        assert(v@[27]@ == unitless_base_names()[27]);
        assert(v@[28]@ == unitless_base_names()[28]);
        assert(v@[29]@ == unitless_base_names()[29]);
        assert(v@[30]@ == unitless_base_names()[30]);
        assert(v@[31]@ == unitless_base_names()[31]);
        assert(v@[32]@ == unitless_base_names()[32]);
        assert(v@[33]@ == unitless_base_names()[33]);
        assert(v@[34]@ == unitless_base_names()[34]);
        assert(v@[35]@ == unitless_base_names()[35]);
        assert(v@[36]@ == unitless_base_names()[36]);
        assert(v@[37]@ == unitless_base_names()[37]);
        assert(v@[38]@ == unitless_base_names()[38]);
        assert(v@[39]@ == unitless_base_names()[39]);
        assert(v@[40]@ == unitless_base_names()[40]);
    }
    v
}

/// Whether a style property name, in any vendor-prefixed form, takes
/// numbers without a `px` suffix.
pub open spec fn matches_unitless_base(name: Seq<char>, base: Seq<char>) -> bool {
    ||| name == base
    ||| name == prefix_key_seq("Webkit"@, base)
    ||| name == prefix_key_seq("ms"@, base)
    ||| name == prefix_key_seq("Moz"@, base)
    ||| name == prefix_key_seq("O"@, base)
}

/// Whether numeric values of this style property are left without a
/// `px` suffix.
pub open spec fn is_unitless(name: Seq<char>) -> bool {
    exists|i: int|
        0 <= i < unitless_base_names().len() && matches_unitless_base(
            name,
            #[trigger] unitless_base_names()[i],
        )
}

/// Tests a style property name against the unitless set, vendor
/// prefixes included.
pub fn is_unitless_property(name: &str) -> (r: bool)
    ensures
        r == is_unitless(name@),
{
    let bases = unitless_base_table();
    let mut i: usize = 0;
    while i < bases.len()
        invariant
            i <= bases@.len(),
            bases@.len() == unitless_base_names().len(),
            forall|j: int| 0 <= j < bases@.len() ==> (#[trigger] bases@[j])@ == unitless_base_names()[j],
            forall|j: int|
                0 <= j < i ==> !matches_unitless_base(name@, #[trigger] unitless_base_names()[j]),
        decreases bases@.len() - i,
    {
        let base = bases[i];
        if str_eq(name, base) {
            return true;
        }
        let w = prefix_key("Webkit", base);
        if str_eq(name, w.as_str()) {
            return true;
        }
        let m = prefix_key("ms", base);
        if str_eq(name, m.as_str()) {
            return true;
        }
        let z = prefix_key("Moz", base);
        if str_eq(name, z.as_str()) {
            return true;
        }
        let o = prefix_key("O", base);
        if str_eq(name, o.as_str()) {
            return true;
        }
        i = i + 1;
    }
    false
}

/// Whether a character counts as trimmable whitespace.
pub open spec fn is_space_char(c: char) -> bool {
    c == ' ' || ('\u{9}' <= c && c <= '\u{D}')
}

/// The string with leading and trailing whitespace removed.
pub open spec fn trim_seq(s: Seq<char>) -> Seq<char>
    decreases s.len(),
{
    if s.len() == 0 {
        s
    } else if is_space_char(s[0]) {
        trim_seq(s.drop_first())
    } else if is_space_char(s.last()) {
        trim_seq(s.drop_last())
    } else {
        s
    }
}

fn is_space_char_exec(c: char) -> (r: bool)
    ensures
        r == is_space_char(c),
{
    c == ' ' || ('\u{9}' <= c && c <= '\u{D}')
}

/// Removes leading and trailing whitespace.
pub fn trim_str(s: &str) -> (r: String)
    ensures
        r@ == trim_seq(s@),
{
    let n = s.unicode_len();
    let mut lo: usize = 0;
    proof {
        assert(s@.subrange(0, n as int) =~= s@);
    }
    while lo < n && is_space_char_exec(s.get_char(lo))
        invariant
            n == s@.len(),
            lo <= n,
            trim_seq(s@.subrange(lo as int, n as int)) == trim_seq(s@),
        decreases n - lo,
    {
        proof {
            let rest = s@.subrange(lo as int, n as int);
            assert(rest[0] == s@[lo as int]);
            assert(rest.drop_first() =~= s@.subrange(lo as int + 1, n as int));
        }
        lo = lo + 1;
    }
    let mut hi: usize = n;
    while hi > lo && is_space_char_exec(s.get_char(hi - 1))
        invariant
            n == s@.len(),
            lo <= hi <= n,
            lo < n ==> !is_space_char(s@[lo as int]),
            trim_seq(s@.subrange(lo as int, hi as int)) == trim_seq(s@),
        decreases hi,
    {
        proof {
            let rest = s@.subrange(lo as int, hi as int);
            assert(rest[0] == s@[lo as int]);
            assert(rest.last() == s@[hi as int - 1]);
            assert(rest.drop_last() =~= s@.subrange(lo as int, hi as int - 1));
        }
        hi = hi - 1;
    }
    let piece = s.substring_char(lo, hi);
    proof {
        let rest = s@.subrange(lo as int, hi as int);
        if rest.len() > 0 {
            assert(rest[0] == s@[lo as int]);
            assert(rest.last() == s@[hi as int - 1]);
        }
        assert(trim_seq(rest) == rest);
    }
    String::from_str(piece)
}

/// The formatted text of one style value: null, booleans and the empty
/// string vanish; a nonzero number on a suffixable property takes `px`
/// (truncated toward zero as the host does); everything else is its
/// trimmed text.
pub open spec fn style_value_text(name: Seq<char>, v: PropValueV, is_custom: bool) -> Seq<char> {
    match v {
        PropValueV::Null => Seq::empty(),
        PropValueV::Undefined => Seq::empty(),
        PropValueV::Bool(_) => Seq::empty(),
        PropValueV::Text(s) => if s.len() == 0 {
            Seq::empty()
        } else {
            trim_seq(s)
        },
        PropValueV::Number(d) => if !is_custom && number_trunc_u32(d) != 0 && !is_unitless(name) {
            dec_digits(number_trunc_u32(d) as int) + "px"@
        } else {
            number_literal(d)
        },
        PropValueV::Object(_) => Seq::empty(),
    }
}

/// Formats one style value for markup, applying the `px` suffix rule.
pub fn dangerous_style_value(name: &str, value: &PropValue, is_custom_property: bool) -> (r:
    String)
    ensures
        r@ == style_value_text(name@, value@, is_custom_property),
{
    match value {
        PropValue::Null => String::new(),
        PropValue::Undefined => String::new(),
        PropValue::Bool(_) => String::new(),
        PropValue::Text(s) => {
            if s.as_str().unicode_len() == 0 {
                String::new()
            } else {
                trim_str(s.as_str())
            }
        },
        PropValue::Number(d) => {
            let t = d.trunc_u32();
            if !is_custom_property && t != 0 && !is_unitless_property(name) {
                let mut out = String::new();
                push_dec_digits(&mut out, t as u64);
                out.append("px");
                proof {
                    assert(out@ =~= style_value_text(name@, value@, is_custom_property));
                }
                out
            } else {
                d.to_literal()
            }
        },
        PropValue::Object(_) => String::new(),
    }
}

/// A memo of hyphenated style names: each entry maps a name to its
/// hyphenated form.
pub struct StyleNameCache {
    entries: Vec<(String, String)>,
}

impl StyleNameCache {
    /// Every cached entry holds the hyphenated form of its key.
    pub closed spec fn wf(&self) -> bool {
        forall|i: int|
            0 <= i < self.entries@.len() ==> (#[trigger] self.entries@[i]).1@
                == hyphenate_style_seq(self.entries@[i].0@)
    }

    /// An empty cache.
    pub fn new() -> (r: StyleNameCache)
        ensures
            r.wf(),
    {
        StyleNameCache { entries: Vec::new() }
    }
}

/// The hyphenated form of a style name, memoized per distinct name.
pub fn process_style_name(cache: &mut StyleNameCache, name: &str) -> (r: String)
    requires
        old(cache).wf(),
    ensures
        final(cache).wf(),
        r@ == hyphenate_style_seq(name@),
{
    let mut i: usize = 0;
    while i < cache.entries.len()
        invariant
            i <= cache.entries@.len(),
            cache.wf(),
        decreases cache.entries@.len() - i,
    {
        if str_eq(cache.entries[i].0.as_str(), name) {
            return cache.entries[i].1.clone();
        }
        i = i + 1;
    }
    let hyphenated = hyphenate_style_name(name);
    cache.entries.push((String::from_str(name), hyphenated.clone()));
    proof {
        assert(cache.wf());
    }
    hyphenated
}

} // verus!
