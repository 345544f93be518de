//! Attribute-name and tag-name grammars, and the memoizing caches that
//! remember which names have already been classified.

use vstd::prelude::*;
use vstd::string::StrSliceExecFns;
use vstd::string::StringExecFns;
use crate::strutil::str_eq;

verus! {

/// Whether a character may start an attribute name (the name-start
/// character ranges of the XML `Name` production).
pub open spec fn is_attr_start_char(c: char) -> bool {
    let u = c as u32;
    ||| c == ':'
    ||| c == '_'
    ||| (0x41 <= u && u <= 0x5A)
    ||| (0x61 <= u && u <= 0x7A)
    ||| (0xC0 <= u && u <= 0xD6)
    ||| (0xD8 <= u && u <= 0xF6)
    ||| (0xF8 <= u && u <= 0x2FF)
    ||| (0x370 <= u && u <= 0x37D)
    ||| (0x37F <= u && u <= 0x1FFF)
    ||| (0x200C <= u && u <= 0x200D)
    ||| (0x2070 <= u && u <= 0x218F)
    ||| (0x2C00 <= u && u <= 0x2FEF)
    ||| (0x3001 <= u && u <= 0xD7FF)
    ||| (0xF900 <= u && u <= 0xFDCF)
    ||| (0xFDF0 <= u && u <= 0xFFFD)
}

/// Whether a character may continue an attribute name.
pub open spec fn is_attr_char(c: char) -> bool {
    let u = c as u32;
    ||| is_attr_start_char(c)
    ||| c == '-'
    ||| c == '.'
    ||| (0x30 <= u && u <= 0x39)
    ||| u == 0xB7
    ||| (0x300 <= u && u <= 0x36F)
    ||| (0x203F <= u && u <= 0x2040)
}

/// The attribute-name grammar: a name-start character followed by name
/// characters.
pub open spec fn attr_name_valid(s: Seq<char>) -> bool {
    &&& s.len() > 0
    &&& is_attr_start_char(s[0])
    &&& forall|i: int| 1 <= i < s.len() ==> is_attr_char(#[trigger] s[i])
}

/// Whether a character may start a tag name (an ASCII letter).
pub open spec fn is_tag_start_char(c: char) -> bool {
    let u = c as u32;
    ||| (0x41 <= u && u <= 0x5A)
    ||| (0x61 <= u && u <= 0x7A)
}

/// Whether a character may continue a tag name: ASCII letters, digits,
/// and `: _ . -`.
pub open spec fn is_tag_char(c: char) -> bool {
    let u = c as u32;
    ||| is_tag_start_char(c)
    ||| (0x30 <= u && u <= 0x39)
    ||| c == ':'
    ||| c == '_'
    ||| c == '.'
    ||| c == '-'
}

/// The simplified tag-name grammar: an ASCII letter followed by tag
/// characters.
pub open spec fn tag_name_valid(s: Seq<char>) -> bool {
    &&& s.len() > 0
    &&& is_tag_start_char(s[0])
    &&& forall|i: int| 1 <= i < s.len() ==> is_tag_char(#[trigger] s[i])
}

fn is_attr_start_char_exec(c: char) -> (r: bool)
    ensures
        r == is_attr_start_char(c),
{
    let u = c as u32;
    c == ':' || c == '_' || (0x41 <= u && u <= 0x5A) || (0x61 <= u && u <= 0x7A) || (0xC0 <= u && u
        <= 0xD6) || (0xD8 <= u && u <= 0xF6) || (0xF8 <= u && u <= 0x2FF) || (0x370 <= u && u
        <= 0x37D) || (0x37F <= u && u <= 0x1FFF) || (0x200C <= u && u <= 0x200D) || (0x2070 <= u
        && u <= 0x218F) || (0x2C00 <= u && u <= 0x2FEF) || (0x3001 <= u && u <= 0xD7FF) || (0xF900
        <= u && u <= 0xFDCF) || (0xFDF0 <= u && u <= 0xFFFD)
}

fn is_attr_char_exec(c: char) -> (r: bool)
    ensures
        r == is_attr_char(c),
{
    let u = c as u32;
    is_attr_start_char_exec(c) || c == '-' || c == '.' || (0x30 <= u && u <= 0x39) || u == 0xB7 || (
    0x300 <= u && u <= 0x36F) || (0x203F <= u && u <= 0x2040)
}

fn is_tag_start_char_exec(c: char) -> (r: bool)
    ensures
        r == is_tag_start_char(c),
{
    let u = c as u32;
    (0x41 <= u && u <= 0x5A) || (0x61 <= u && u <= 0x7A)
}

fn is_tag_char_exec(c: char) -> (r: bool)
    ensures
        r == is_tag_char(c),
{
    let u = c as u32;
    is_tag_start_char_exec(c) || (0x30 <= u && u <= 0x39) || c == ':' || c == '_' || c == '.' || c
        == '-'
}

/// Checks a name against the attribute-name grammar.
pub fn check_attr_name(name: &str) -> (r: bool)
    ensures
        r == attr_name_valid(name@),
{
    let n = name.unicode_len();
    if n == 0 {
        return false;
    }
    if !is_attr_start_char_exec(name.get_char(0)) {
        return false;
    }
    let mut i: usize = 1;
    while i < n
        invariant
            n == name@.len(),
            1 <= i <= n,
            forall|j: int| 1 <= j < i ==> is_attr_char(#[trigger] name@[j]),
        decreases n - i,
    {
        if !is_attr_char_exec(name.get_char(i)) {
            return false;
        }
        i = i + 1;
    }
    true
}

/// Checks a name against the tag-name grammar.
pub fn check_tag_name(name: &str) -> (r: bool)
    ensures
        r == tag_name_valid(name@),
{
    let n = name.unicode_len();
    if n == 0 {
        return false;
    }
    if !is_tag_start_char_exec(name.get_char(0)) {
        return false;
    }
    let mut i: usize = 1;
    while i < n
        invariant
            n == name@.len(),
            1 <= i <= n,
            forall|j: int| 1 <= j < i ==> is_tag_char(#[trigger] name@[j]),
        decreases n - i,
    {
        if !is_tag_char_exec(name.get_char(i)) {
            return false;
        }
        i = i + 1;
    }
    true
}

fn contains_str(v: &Vec<String>, s: &str) -> (r: bool)
    ensures
        r == exists|i: int| 0 <= i < v@.len() && (#[trigger] v@[i])@ == s@,
{
    let mut i: usize = 0;
    while i < v.len()
        invariant
            i <= v@.len(),
            forall|j: int| 0 <= j < i ==> (#[trigger] v@[j])@ != s@,
        decreases v@.len() - i,
    {
        if str_eq(v[i].as_str(), s) {
            return true;
        }
        i = i + 1;
    }
    false
}

/// The memoized classification of attribute and tag names: names once
/// judged valid or rejected are remembered, and the answer never
/// changes. A caller that renders from several threads serializes
/// access to one cache or gives each render its own.
pub struct ValidationCache {
    validated_attributes: Vec<String>,
    rejected_attributes: Vec<String>,
    validated_tags: Vec<String>,
}

impl ValidationCache {
    /// Every cached name is classified as the grammar classifies it.
    pub closed spec fn wf(&self) -> bool {
        &&& forall|i: int|
            0 <= i < self.validated_attributes@.len() ==> attr_name_valid(
                (#[trigger] self.validated_attributes@[i])@,
            )
        &&& forall|i: int|
            0 <= i < self.rejected_attributes@.len() ==> !attr_name_valid(
                (#[trigger] self.rejected_attributes@[i])@,
            )
        &&& forall|i: int|
            0 <= i < self.validated_tags@.len() ==> tag_name_valid(
                (#[trigger] self.validated_tags@[i])@,
            )
    }

    /// An empty cache.
    pub fn new() -> (r: ValidationCache)
        ensures
            r.wf(),
    {
        ValidationCache {
            validated_attributes: Vec::new(),
            rejected_attributes: Vec::new(),
            validated_tags: Vec::new(),
        }
    }

    /// Whether a name satisfies the attribute-name grammar. The first
    /// call evaluates the grammar and caches the verdict; every call
    /// returns the grammar's own answer.
    pub fn is_valid_attribute_name(&mut self, name: &str) -> (r: bool)
        requires
            old(self).wf(),
        ensures
            final(self).wf(),
            r == attr_name_valid(name@),
    {
        if contains_str(&self.validated_attributes, name) {
            return true;
        }
        if contains_str(&self.rejected_attributes, name) {
            return false;
        }
        if check_attr_name(name) {
            self.validated_attributes.push(String::from_str(name));
            true
        } else {
            self.rejected_attributes.push(String::from_str(name));
            false
        }
    }

    /// Whether a name satisfies the tag-name grammar, remembering names
    /// already judged valid.
    pub fn is_valid_tag_name(&mut self, name: &str) -> (r: bool)
        requires
            old(self).wf(),
        ensures
            final(self).wf(),
            r == tag_name_valid(name@),
    {
        if contains_str(&self.validated_tags, name) {
            return true;
        }
        if check_tag_name(name) {
            self.validated_tags.push(String::from_str(name));
            true
        } else {
            false
        }
    }
}

/// Whether an attribute name is safe to write into markup.
pub fn is_attribute_name_safe(cache: &mut ValidationCache, attribute_name: &str) -> (r: bool)
    requires
        old(cache).wf(),
    ensures
        final(cache).wf(),
        r == attr_name_valid(attribute_name@),
{
    cache.is_valid_attribute_name(attribute_name)
}

/// Checks a tag against the tag-name grammar; rendering is not blocked
/// by the verdict, the check is defensive.
pub fn validate_dangerous_tag(cache: &mut ValidationCache, tag: &str) -> (r: bool)
    requires
        old(cache).wf(),
    ensures
        final(cache).wf(),
        r == tag_name_valid(tag@),
{
    cache.is_valid_tag_name(tag)
}

} // verus!
