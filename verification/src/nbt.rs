//! Tag trees.
//!
//! An item's metadata arrives as base64 text that holds a gzip member that
//! holds a tree of named, typed tags. The library reads such a tree through
//! `Tag`, which keeps the four kinds of tag that the identity rules look at
//! and folds the rest into one.
//!
//! Decoding is the work of other crates and stands behind `decode_document`;
//! everything after it (`extract_item`, the lookups on `Tag`) is this
//! library's own and works on any tree.

use crate::framing::{framed, is_framed};
use crate::text::same_text;
use crate::util::{base64_decoded, decode_base64, decode_gzip, gzip_inflated};
use vstd::prelude::*;

verus! {

/// A tag of a tree.
#[derive(Debug)]
pub enum Tag {
    /// A 32-bit integer.
    Int(i32),
    /// A text.
    Text(String),
    /// A list of unnamed tags.
    List(Vec<Tag>),
    /// A compound: named tags, in the order of the document.
    Compound(Vec<(String, Tag)>),
    /// A tag of any other kind.
    Other,
}

/// Why an item's metadata could not be read.
#[derive(Clone, Copy, Debug, PartialEq, Eq, Structural)]
pub enum DecodeFailure {
    /// The text is not base64.
    Encoding,
    /// The bytes are no gzip member.
    Compression,
    /// The content is not framed as a tag document, or the parser refuses it.
    Malformed,
    /// A tag that the rules need is not there.
    MissingField,
    /// A tag that the rules need is of another kind.
    TypeMismatch,
}

#[verifier::external_type_specification]
#[verifier::external_body]
pub struct ExNbtTag(crab_nbt::NbtTag);

/// The document that `bytes` hold as the content of a compound, wrapped as a
/// compound tag, or `None` where the parser reports an error.
pub uninterp spec fn nbt_document(bytes: Seq<u8>) -> Option<crab_nbt::NbtTag>;

/// What a parsed tag holds, as a tree of the library.
pub uninterp spec fn tag_tree(tag: crab_nbt::NbtTag) -> Tag;

/// Parses with `crab_nbt::NbtCompound::deserialize_content` and wraps the
/// compound in `NbtTag::Compound`. An error of the parser becomes `None`.
/// The parser panics where the bytes end before a length that they state is
/// covered, on a text that is not modified UTF-8 and on a negative count of
/// a list; `framed` rules these out. The contract claims only that equal
/// bytes parse alike.
#[verifier::external_body]
fn read_document(bytes: &[u8]) -> (r: Option<crab_nbt::NbtTag>)
    requires
        framed(bytes@),
    ensures
        r == nbt_document(bytes@),
{
    let mut rest: &[u8] = bytes;
    crab_nbt::NbtCompound::deserialize_content(&mut rest).ok().map(crab_nbt::NbtTag::Compound)
}

/// Copies a tag of `crab_nbt` into a tree of the library, variant by
/// variant: `Int`, `String`, `List` and `Compound` (its `child_tags`, in
/// order) keep their content, every other variant becomes `Tag::Other`. The
/// contract claims only that equal tags give equal trees.
#[verifier::external_body]
fn copy_tag(tag: &crab_nbt::NbtTag) -> (r: Tag)
    ensures
        r == tag_tree(*tag),
{
    match tag {
        crab_nbt::NbtTag::Int(value) => Tag::Int(*value),
        crab_nbt::NbtTag::String(text) => Tag::Text(text.clone()),
        crab_nbt::NbtTag::List(items) => Tag::List(items.iter().map(copy_tag).collect()),
        crab_nbt::NbtTag::Compound(compound) => Tag::Compound(
            compound.child_tags.iter().map(|(name, child)| (name.clone(), copy_tag(child))).collect(),
        ),
        _ => Tag::Other,
    }
}

/// The first of `children` that has the name `name`.
pub open spec fn named(children: Seq<(String, Tag)>, name: Seq<char>) -> Option<Tag>
    decreases children.len(),
{
    if children.len() == 0 {
        None
    } else if children[0].0@ == name {
        Some(children[0].1)
    } else {
        named(children.drop_first(), name)
    }
}

/// The index of the first of `children` that has the name `name`.
pub fn position_named(children: &Vec<(String, Tag)>, name: &str) -> (r: Option<usize>)
    ensures
        r is Some <==> named(children@, name@) is Some,
        r matches Some(k) ==> k < children.len() && children[k as int].0@ == name@ && named(
            children@,
            name@,
        ) == Some(children[k as int].1),
{
    let mut i: usize = 0;
    assert(children@.skip(0) =~= children@);
    while i < children.len()
        invariant
            i <= children.len(),
            named(children@, name@) == named(children@.skip(i as int), name@),
        decreases children.len() - i,
    {
        proof {
            assert(children@.skip(i as int).drop_first() =~= children@.skip(i + 1));
            assert(children@.skip(i as int)[0] == children@[i as int]);
        }
        if same_text(children[i].0.as_str(), name) {
            return Some(i);
        }
        i += 1;
    }
    None
}

impl Tag {
    /// The child of this compound that has the name `name`: the first such
    /// child, and none where this is no compound.
    pub open spec fn child(self, name: Seq<char>) -> Option<Tag> {
        match self {
            Tag::Compound(children) => named(children@, name),
            _ => None,
        }
    }

    /// The child of this compound that has the name `name`.
    pub fn get(&self, name: &str) -> (r: Option<&Tag>)
        ensures
            r is Some <==> self.child(name@) is Some,
            r matches Some(tag) ==> self.child(name@) == Some(*tag),
    {
        match self {
            Tag::Compound(children) => match position_named(children, name) {
                Some(k) => Some(&children[k].1),
                None => None,
            },
            _ => None,
        }
    }

    /// Whether this tag is a compound.
    pub fn is_compound(&self) -> (r: bool)
        ensures
            r == (self is Compound),
    {
        match self {
            Tag::Compound(_) => true,
            _ => false,
        }
    }
}

/// The tree that an item's metadata text holds: the text is base64, its
/// bytes a gzip member, the content of that a framed tag document.
pub open spec fn document_of(blob: Seq<char>) -> Result<Tag, DecodeFailure> {
    match base64_decoded(blob) {
        None => Err(DecodeFailure::Encoding),
        Some(packed) => match gzip_inflated(packed) {
            None => Err(DecodeFailure::Compression),
            Some(bytes) => if !framed(bytes) {
                Err(DecodeFailure::Malformed)
            } else {
                match nbt_document(bytes) {
                    None => Err(DecodeFailure::Malformed),
                    Some(document) => Ok(tag_tree(document)),
                }
            },
        },
    }
}

/// The item of a document: the document's first tag is a compound, whose
/// child `i` is a list, whose first tag is the item, a compound.
pub open spec fn item_in(document: Tag) -> Result<Tag, DecodeFailure> {
    match document {
        Tag::Compound(top) => if top.len() == 0 {
            Err(DecodeFailure::MissingField)
        } else {
            match top[0].1 {
                Tag::Compound(children) => match named(children@, "i"@) {
                    None => Err(DecodeFailure::MissingField),
                    Some(Tag::List(items)) => if items.len() == 0 {
                        Err(DecodeFailure::MissingField)
                    } else if items[0] is Compound {
                        Ok(items[0])
                    } else {
                        Err(DecodeFailure::TypeMismatch)
                    },
                    Some(_) => Err(DecodeFailure::TypeMismatch),
                },
                _ => Err(DecodeFailure::TypeMismatch),
            }
        },
        _ => Err(DecodeFailure::TypeMismatch),
    }
}

/// The item that an item's metadata text holds.
pub open spec fn item_of(blob: Seq<char>) -> Result<Tag, DecodeFailure> {
    match document_of(blob) {
        Ok(document) => item_in(document),
        Err(failure) => Err(failure),
    }
}

/// Decodes an item's metadata text into its tree.
pub fn decode_document(blob: &str) -> (r: Result<Tag, DecodeFailure>)
    ensures
        r == document_of(blob@),
{
    let packed = match decode_base64(blob) {
        Some(packed) => packed,
        None => {
            return Err(DecodeFailure::Encoding);
        },
    };
    let bytes = match decode_gzip(packed.as_slice()) {
        Some(bytes) => bytes,
        None => {
            return Err(DecodeFailure::Compression);
        },
    };
    if !is_framed(bytes.as_slice()) {
        return Err(DecodeFailure::Malformed);
    }
    match read_document(bytes.as_slice()) {
        Some(document) => Ok(copy_tag(&document)),
        None => Err(DecodeFailure::Malformed),
    }
}

/// Takes the item out of a document.
pub fn extract_item(document: Tag) -> (r: Result<Tag, DecodeFailure>)
    ensures
        r == item_in(document),
{
    let mut top = match document {
        Tag::Compound(top) => top,
        _ => {
            return Err(DecodeFailure::TypeMismatch);
        },
    };
    if top.len() == 0 {
        return Err(DecodeFailure::MissingField);
    }
    let (_, root) = top.remove(0);
    let mut children = match root {
        Tag::Compound(children) => children,
        _ => {
            return Err(DecodeFailure::TypeMismatch);
        },
    };
    let at = match position_named(&children, "i") {
        Some(at) => at,
        None => {
            return Err(DecodeFailure::MissingField);
        },
    };
    let (_, list) = children.remove(at);
    let mut items = match list {
        Tag::List(items) => items,
        _ => {
            return Err(DecodeFailure::TypeMismatch);
        },
    };
    if items.len() == 0 {
        return Err(DecodeFailure::MissingField);
    }
    let item = items.remove(0);
    if item.is_compound() {
        Ok(item)
    } else {
        Err(DecodeFailure::TypeMismatch)
    }
}

/// Decodes an item's metadata text and takes the item out of it.
pub fn parse_item_nbt(gzip: &str) -> (r: Result<Tag, DecodeFailure>)
    ensures
        r == item_of(gzip@),
{
    match decode_document(gzip) {
        Ok(document) => extract_item(document),
        Err(failure) => Err(failure),
    }
}

} // verus!
