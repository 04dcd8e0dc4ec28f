//! The plain markup events that the decoders consume, and attribute lookup.

use vstd::prelude::*;

verus! {

/// One attribute of an element-open event: a name and its string value.
pub struct Attr {
    pub key: String,
    pub value: String,
}

/// The payload of an element-open event: the element name and its
/// attributes, in document order.
pub struct Tag {
    pub name: String,
    pub attrs: Vec<Attr>,
}

/// A markup event as the decoders see it. `Open` and `Close` delimit
/// elements, `Text` carries a literal character-data block, and `Other`
/// stands for anything a decoder skips (escaped text, comments,
/// declarations, and events the tokenizer failed to decode).
pub enum XmlEvent {
    Open(Tag),
    Close(String),
    Text(String),
    Other,
}

/// The value of the first attribute named `name` among `attrs`, if any.
pub open spec fn spec_attr(attrs: Seq<Attr>, name: Seq<char>) -> Option<Seq<char>>
    decreases attrs.len(),
{
    if attrs.len() == 0 {
        None
    } else if attrs[0].key@ == name {
        Some(attrs[0].value@)
    } else {
        spec_attr(attrs.drop_first(), name)
    }
}

/// True exactly when the two string slices hold the same characters.
pub fn str_eq(a: &str, b: &str) -> (r: bool)
    ensures
        r == (a@ == b@),
{
    let owned_a = a.to_owned();
    let owned_b = b.to_owned();
    owned_a == owned_b
}

/// Looks up a named attribute on an element-open payload; the first
/// attribute with that name wins. Returns absence when no attribute
/// carries the name.
pub fn get_attribute(tag: &Tag, name: &str) -> (r: Option<String>)
    ensures
        r.deep_view() == spec_attr(tag.attrs@, name@),
{
    let mut i: usize = 0;
    proof {
        assert(tag.attrs@.skip(0) =~= tag.attrs@);
    }
    while i < tag.attrs.len()
        invariant
            i <= tag.attrs@.len(),
            spec_attr(tag.attrs@.skip(i as int), name@) == spec_attr(tag.attrs@, name@),
        decreases tag.attrs@.len() - i,
    {
        if str_eq(tag.attrs[i].key.as_str(), name) {
            proof {
                assert(tag.attrs@.skip(i as int)[0] == tag.attrs@[i as int]);
            }
            return Some(tag.attrs[i].value.clone());
        }
        proof {
            assert(tag.attrs@.skip(i as int).drop_first() =~= tag.attrs@.skip(i as int + 1));
        }
        i += 1;
    }
    None
}

} // verus!
