//! Plugins in configurations.
use serde_json::Value;
use vstd::prelude::*;

use crate::error::{Error, ErrorView};
use crate::json::{array_value, insert_entry, json_of, jsons, object_value, string_value, Json};
use crate::text::opt_str;

verus! {

/// The size of a plugin's slot in an image.
pub const PLUGIN_MAX_SIZE: usize = 65536;

/// How a binary of `size` bytes fills its slot: it must be no larger than the slot, and is padded
/// where it is smaller.
pub open spec fn size_handling_of(size: usize) -> Result<Seq<char>, ErrorView> {
    if size > PLUGIN_MAX_SIZE {
        Err(ErrorView::PluginTooLarge(size, PLUGIN_MAX_SIZE))
    } else if size == PLUGIN_MAX_SIZE {
        Ok("none"@)
    } else {
        Ok("pad"@)
    }
}

/// The chip of a plugin.
pub open spec fn plugin_chip(
    file: Seq<char>,
    plugin_type: Seq<char>,
    description: Option<Seq<char>>,
    size_handling: Seq<char>,
) -> Json {
    let chip = map![
        "type"@ => Json::Text(plugin_type),
        "file"@ => Json::Text(file),
        "size_handling"@ => Json::Text(size_handling),
    ];
    match description {
        Some(text) => Json::Object(chip.insert("description"@, Json::Text(text))),
        None => Json::Object(chip),
    }
}

/// The chip set that holds one chip.
pub open spec fn single_chip_set(chip: Json) -> Json {
    Json::Object(map!["type"@ => Json::Text("single"@), "chips"@ => Json::Array(seq![chip])])
}

/// The chip set of a plugin, unless its binary is too large.
pub open spec fn plugin_chip_set(
    file: Seq<char>,
    plugin_type: Seq<char>,
    description: Option<Seq<char>>,
    size: usize,
) -> Result<Json, ErrorView> {
    match size_handling_of(size) {
        Ok(handling) => Ok(
            single_chip_set(plugin_chip(file, plugin_type, description, handling)),
        ),
        Err(e) => Err(e),
    }
}

/// The `size_handling` of a plugin binary of `size` bytes.
pub fn plugin_size_handling(size: usize) -> (r: Result<&'static str, Error>)
    ensures
        match r {
            Ok(text) => size_handling_of(size) == Ok::<Seq<char>, ErrorView>(text@),
            Err(e) => size_handling_of(size) == Err::<Seq<char>, ErrorView>(e@),
        },
{
    if size > PLUGIN_MAX_SIZE {
        return Err(Error::PluginTooLarge(size, PLUGIN_MAX_SIZE));
    }
    if size == PLUGIN_MAX_SIZE {
        Ok("none")
    } else {
        Ok("pad")
    }
}

/// The chip of a plugin, as JSON.
fn plugin_to_chip_json(
    file: &str,
    plugin_type: &str,
    description: Option<&str>,
    size_handling: &str,
) -> (r: Value)
    ensures
        json_of(r) == plugin_chip(file@, plugin_type@, opt_str(description), size_handling@),
{
    let mut chip: Value = object_value();
    insert_entry(&mut chip, "type", string_value(plugin_type));
    insert_entry(&mut chip, "file", string_value(file));
    insert_entry(&mut chip, "size_handling", string_value(size_handling));
    match description {
        Some(text) => {
            insert_entry(&mut chip, "description", string_value(text));
        },
        None => {},
    }
    chip
}

/// The chip set that holds one chip, as JSON.
pub(crate) fn single_chip_set_json(chip: Value) -> (r: Value)
    ensures
        json_of(r) == single_chip_set(json_of(chip)),
{
    let mut set: Value = object_value();
    insert_entry(&mut set, "type", string_value("single"));
    let ghost held = json_of(chip);
    let mut chips: Vec<Value> = Vec::new();
    chips.push(chip);
    assert(jsons(chips@) =~= seq![held]);
    insert_entry(&mut set, "chips", array_value(chips));
    set
}

/// The chip set of a plugin, as JSON: from the path or URL of its binary, its full type name, a
/// description for people, and the size of the binary.
///
/// In a configuration the chip set of a system plugin comes first, and that of a user plugin
/// second.
pub fn plugin_to_chip_set_json(
    file: &str,
    plugin_type: &str,
    description: Option<&str>,
    size: usize,
) -> (r: Result<Value, Error>)
    ensures
        match r {
            Ok(set) => size_handling_of(size) is Ok && json_of(set) == single_chip_set(
                plugin_chip(
                    file@,
                    plugin_type@,
                    opt_str(description),
                    size_handling_of(size)->Ok_0,
                ),
            ),
            Err(e) => size_handling_of(size) == Err::<Seq<char>, ErrorView>(e@),
        },
        match r {
            Ok(set) => plugin_chip_set(file@, plugin_type@, opt_str(description), size) == Ok::<
                Json,
                ErrorView,
            >(json_of(set)),
            Err(e) => plugin_chip_set(file@, plugin_type@, opt_str(description), size) == Err::<
                Json,
                ErrorView,
            >(e@),
        },
{
    match plugin_size_handling(size) {
        Ok(size_handling) => Ok(
            single_chip_set_json(
                plugin_to_chip_json(file, plugin_type, description, size_handling),
            ),
        ),
        Err(e) => Err(e),
    }
}

} // verus!
