//! The canonical identifier of an item.
//!
//! Listings of the same logical item carry different raw identifiers: every
//! pet is a `PET`, every rune a `RUNE`. The canonical identifier folds what
//! tells such items apart into one text, so that prices can be grouped by
//! it. An item whose metadata lacks what its rule needs has no identifier.

use crate::nbt::{item_of, parse_item_nbt, DecodeFailure, Tag};
use crate::text::{decimal, push_decimal, same_text};
use crate::util::{json_member_text, member_text, parse_json_str, to_uppercase, uppercased};
use vstd::prelude::*;
use vstd::string::StringExecFns;

verus! {

/// The identifier of a pet of the given type and tier.
pub open spec fn pet_id_text(pet_type: Seq<char>, tier: Seq<char>) -> Seq<char> {
    pet_type + "_PET_"@ + tier
}

/// The identifier of a rune of the given name and level.
pub open spec fn rune_id_text(name: Seq<char>, level: int) -> Seq<char> {
    name + "_"@ + decimal(level) + "_RUNE"@
}

/// The identifier of a potion of the given name, in upper case, and level.
pub open spec fn potion_id_text(name: Seq<char>, level: int) -> Seq<char> {
    name + "_"@ + decimal(level) + "_POTION"@
}

/// The text under `name`.
pub open spec fn text_child(tag: Tag, name: Seq<char>) -> Result<Seq<char>, DecodeFailure> {
    match tag.child(name) {
        None => Err(DecodeFailure::MissingField),
        Some(Tag::Text(text)) => Ok(text@),
        Some(_) => Err(DecodeFailure::TypeMismatch),
    }
}

/// The integer under `name`.
pub open spec fn int_child(tag: Tag, name: Seq<char>) -> Result<i32, DecodeFailure> {
    match tag.child(name) {
        None => Err(DecodeFailure::MissingField),
        Some(Tag::Int(value)) => Ok(value),
        Some(_) => Err(DecodeFailure::TypeMismatch),
    }
}

/// The compound under `name`.
pub open spec fn compound_child(tag: Tag, name: Seq<char>) -> Result<Tag, DecodeFailure> {
    match tag.child(name) {
        None => Err(DecodeFailure::MissingField),
        Some(child) => if child is Compound {
            Ok(child)
        } else {
            Err(DecodeFailure::TypeMismatch)
        },
    }
}

/// The attributes of an item: the compound `ExtraAttributes` in its
/// compound `tag`.
pub open spec fn attributes_of(item: Tag) -> Result<Tag, DecodeFailure> {
    match compound_child(item, "tag"@) {
        Ok(tag) => compound_child(tag, "ExtraAttributes"@),
        Err(failure) => Err(failure),
    }
}

/// The identifier of a pet: type and tier are members of the JSON text
/// under `petInfo`.
pub open spec fn pet_from(attributes: Tag) -> Result<Seq<char>, DecodeFailure> {
    match text_child(attributes, "petInfo"@) {
        Err(failure) => Err(failure),
        Ok(info) => match (json_member_text(info, "type"@), json_member_text(info, "tier"@)) {
            (Some(pet_type), Some(tier)) => Ok(pet_id_text(pet_type, tier)),
            _ => Err(DecodeFailure::MissingField),
        },
    }
}

/// The identifier of a rune: name and level are the first child of the
/// compound `runes`; without such a compound the rune is empty.
pub open spec fn rune_from(attributes: Tag) -> Result<Seq<char>, DecodeFailure> {
    match attributes.child("runes"@) {
        Some(Tag::Compound(runes)) => if runes.len() == 0 {
            Err(DecodeFailure::MissingField)
        } else {
            match runes[0].1 {
                Tag::Int(level) => Ok(rune_id_text(runes[0].0@, level as int)),
                _ => Err(DecodeFailure::TypeMismatch),
            }
        },
        _ => Ok("EMPTY_RUNE"@),
    }
}

/// The identifier of a potion: its name is the text `potion`, its level the
/// integer `potion_level`; without such a text the potion is unknown.
pub open spec fn potion_from(attributes: Tag) -> Result<Seq<char>, DecodeFailure> {
    match attributes.child("potion"@) {
        Some(Tag::Text(name)) => match int_child(attributes, "potion_level"@) {
            Ok(level) => Ok(potion_id_text(uppercased(name@), level as int)),
            Err(failure) => Err(failure),
        },
        _ => Ok("UNKNOWN_POTION"@),
    }
}

/// The identifier that a compound of attributes stands for. The first rule
/// that matches the raw identifier `id` decides; an item of no special kind
/// keeps its raw identifier.
pub open spec fn id_from(attributes: Tag) -> Result<Seq<char>, DecodeFailure> {
    match text_child(attributes, "id"@) {
        Err(failure) => Err(failure),
        Ok(id) => if id == "PET"@ {
            pet_from(attributes)
        } else if id == "RUNE"@ || id == "UNIQUE_RUNE"@ {
            rune_from(attributes)
        } else if id == "POTION"@ {
            potion_from(attributes)
        } else {
            Ok(id)
        },
    }
}

/// The canonical identifier of an item.
pub open spec fn canonical_id(item: Tag) -> Result<Seq<char>, DecodeFailure> {
    match attributes_of(item) {
        Ok(attributes) => id_from(attributes),
        Err(failure) => Err(failure),
    }
}

/// The canonical identifier of the item that a metadata text holds.
pub open spec fn id_of_blob(blob: Seq<char>) -> Result<Seq<char>, DecodeFailure> {
    match item_of(blob) {
        Ok(item) => canonical_id(item),
        Err(failure) => Err(failure),
    }
}

/// The view of an identifier or its failure.
pub open spec fn id_view(id: Result<String, DecodeFailure>) -> Result<Seq<char>, DecodeFailure> {
    match id {
        Ok(text) => Ok(text@),
        Err(failure) => Err(failure),
    }
}

/// The identifier of a pet of the given type and tier.
pub fn pet_id(pet_type: &str, tier: &str) -> (id: String)
    ensures
        id@ == pet_id_text(pet_type@, tier@),
{
    let mut id = pet_type.to_owned();
    id.append("_PET_");
    id.append(tier);
    id
}

/// The identifier of a rune of the given name and level.
pub fn rune_id(name: &str, level: i32) -> (id: String)
    ensures
        id@ == rune_id_text(name@, level as int),
{
    let mut id = name.to_owned();
    id.append("_");
    push_decimal(&mut id, level);
    id.append("_RUNE");
    id
}

/// The identifier of a potion of the given name, in upper case, and level.
pub fn potion_id(name: &str, level: i32) -> (id: String)
    ensures
        id@ == potion_id_text(name@, level as int),
{
    let mut id = name.to_owned();
    id.append("_");
    push_decimal(&mut id, level);
    id.append("_POTION");
    id
}

fn get_text<'a>(tag: &'a Tag, name: &str) -> (r: Result<&'a String, DecodeFailure>)
    ensures
        match r {
            Ok(text) => text_child(*tag, name@) == Ok::<Seq<char>, DecodeFailure>(text@),
            Err(failure) => text_child(*tag, name@) == Err::<Seq<char>, DecodeFailure>(failure),
        },
{
    match tag.get(name) {
        None => Err(DecodeFailure::MissingField),
        Some(Tag::Text(text)) => Ok(text),
        Some(_) => Err(DecodeFailure::TypeMismatch),
    }
}

fn get_int(tag: &Tag, name: &str) -> (r: Result<i32, DecodeFailure>)
    ensures
        r == int_child(*tag, name@),
{
    match tag.get(name) {
        None => Err(DecodeFailure::MissingField),
        Some(Tag::Int(value)) => Ok(*value),
        Some(_) => Err(DecodeFailure::TypeMismatch),
    }
}

fn get_compound<'a>(tag: &'a Tag, name: &str) -> (r: Result<&'a Tag, DecodeFailure>)
    ensures
        match r {
            Ok(child) => compound_child(*tag, name@) == Ok::<Tag, DecodeFailure>(*child),
            Err(failure) => compound_child(*tag, name@) == Err::<Tag, DecodeFailure>(failure),
        },
{
    match tag.get(name) {
        None => Err(DecodeFailure::MissingField),
        Some(child) => if child.is_compound() {
            Ok(child)
        } else {
            Err(DecodeFailure::TypeMismatch)
        },
    }
}

fn pet_identifier(attributes: &Tag) -> (id: Result<String, DecodeFailure>)
    ensures
        id_view(id) == pet_from(*attributes),
{
    let info = match get_text(attributes, "petInfo") {
        Ok(info) => info,
        Err(failure) => {
            return Err(failure);
        },
    };
    let document = match parse_json_str(info.as_str()) {
        Some(document) => document,
        None => {
            return Err(DecodeFailure::MissingField);
        },
    };
    match (member_text(&document, "type"), member_text(&document, "tier")) {
        (Some(pet_type), Some(tier)) => Ok(pet_id(pet_type.as_str(), tier.as_str())),
        _ => Err(DecodeFailure::MissingField),
    }
}

fn rune_identifier(attributes: &Tag) -> (id: Result<String, DecodeFailure>)
    ensures
        id_view(id) == rune_from(*attributes),
{
    match attributes.get("runes") {
        Some(Tag::Compound(runes)) => {
            if runes.len() == 0 {
                return Err(DecodeFailure::MissingField);
            }
            match &runes[0].1 {
                Tag::Int(level) => Ok(rune_id(runes[0].0.as_str(), *level)),
                _ => Err(DecodeFailure::TypeMismatch),
            }
        },
        _ => Ok("EMPTY_RUNE".to_owned()),
    }
}

fn potion_identifier(attributes: &Tag) -> (id: Result<String, DecodeFailure>)
    ensures
        id_view(id) == potion_from(*attributes),
{
    match attributes.get("potion") {
        Some(Tag::Text(name)) => match get_int(attributes, "potion_level") {
            Ok(level) => {
                let upper = to_uppercase(name.as_str());
                Ok(potion_id(upper.as_str(), level))
            },
            Err(failure) => Err(failure),
        },
        _ => Ok("UNKNOWN_POTION".to_owned()),
    }
}

/// The identifier that a compound of attributes stands for.
pub fn attributes_id(attributes: &Tag) -> (id: Result<String, DecodeFailure>)
    ensures
        id_view(id) == id_from(*attributes),
{
    let raw = match get_text(attributes, "id") {
        Ok(raw) => raw,
        Err(failure) => {
            return Err(failure);
        },
    };
    if same_text(raw.as_str(), "PET") {
        pet_identifier(attributes)
    } else if same_text(raw.as_str(), "RUNE") || same_text(raw.as_str(), "UNIQUE_RUNE") {
        rune_identifier(attributes)
    } else if same_text(raw.as_str(), "POTION") {
        potion_identifier(attributes)
    } else {
        Ok(raw.clone())
    }
}

/// The canonical identifier of an item.
pub fn item_id(item: &Tag) -> (id: Result<String, DecodeFailure>)
    ensures
        id_view(id) == canonical_id(*item),
{
    let tag = match get_compound(item, "tag") {
        Ok(tag) => tag,
        Err(failure) => {
            return Err(failure);
        },
    };
    match get_compound(tag, "ExtraAttributes") {
        Ok(attributes) => attributes_id(attributes),
        Err(failure) => Err(failure),
    }
}

/// The canonical identifier of the item that a metadata text holds.
pub fn resolve_item_id(blob: &str) -> (id: Result<String, DecodeFailure>)
    ensures
        id_view(id) == id_of_blob(blob@),
{
    match parse_item_nbt(blob) {
        Ok(item) => item_id(&item),
        Err(failure) => Err(failure),
    }
}

} // verus!
