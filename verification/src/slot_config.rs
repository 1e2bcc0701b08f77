//! Slots in configurations.
use serde_json::Value;
use vstd::prelude::*;

use crate::catalog::Catalog;
use crate::error::Error;
use crate::json::{
    array_value, bool_value, insert_entry, json_of, jsons, number_value, object_value, pretty,
    string_value, to_string_pretty, Json,
};
use crate::number::{decimal, to_decimal};
use crate::plugin_config::{single_chip_set, single_chip_set_json};
use crate::slot::{is_overclocked, slot_views, SlotSpec, SlotSpecView};
use crate::text::{opt_str, opt_text};

verus! {

/// The description of a configuration that is given none.
const DEFAULT_CONFIG_DESCRIPTION: &'static str = "Created by the One ROM CLI";

/// Where the schema of configurations is.
const CONFIG_SCHEMA_URL: &'static str = "https://images.onerom.org/configs/schema.json";

/// The entries of an object, with one more where there is a text for it.
pub open spec fn with_text(
    entries: Map<Seq<char>, Json>,
    key: Seq<char>,
    text: Option<Seq<char>>,
) -> Map<Seq<char>, Json> {
    match text {
        Some(text) => entries.insert(key, Json::Text(text)),
        None => entries,
    }
}

/// The entries of an object, with one more where there is a truth value for it.
pub open spec fn with_bool(
    entries: Map<Seq<char>, Json>,
    key: Seq<char>,
    value: Option<bool>,
) -> Map<Seq<char>, Json> {
    match value {
        Some(value) => entries.insert(key, Json::Bool(value)),
        None => entries,
    }
}

/// The chip of a slot: its type and what was given for it.
pub open spec fn slot_chip(slot: SlotSpecView) -> Json {
    let entries = map!["type"@ => Json::Text(slot.chip_type.name)];
    let entries = with_text(entries, "file"@, slot.file);
    let entries = with_text(entries, "cs1"@, slot.cs1);
    let entries = with_text(entries, "cs2"@, slot.cs2);
    let entries = with_text(entries, "cs3"@, slot.cs3);
    Json::Object(with_text(entries, "size_handling"@, slot.size_handling))
}

/// Whether a slot overrides settings of the Fire firmware.
pub open spec fn has_fire(slot: SlotSpecView) -> bool {
    slot.cpu_freq is Some || slot.vreg is Some || slot.force_16bit is Some
}

/// The text of a slot's CPU frequency.
pub open spec fn cpu_freq_text(slot: SlotSpecView) -> Option<Seq<char>> {
    match slot.cpu_freq {
        Some(freq) => Some(decimal(freq.value as nat) + "MHz"@),
        None => None,
    }
}

/// Whether a slot with a CPU frequency is overclocked.
pub open spec fn overclock(slot: SlotSpecView, catalog: Catalog) -> Option<bool> {
    match slot.cpu_freq {
        Some(_) => Some(is_overclocked(slot, catalog)),
        None => None,
    }
}

/// The name of a slot's voltage.
pub open spec fn vreg_text(slot: SlotSpecView) -> Option<Seq<char>> {
    match slot.vreg {
        Some(vreg) => Some(vreg.name),
        None => None,
    }
}

/// What a slot overrides of the Fire firmware.
pub open spec fn slot_fire(slot: SlotSpecView, catalog: Catalog) -> Json {
    let entries = with_text(Map::empty(), "cpu_freq"@, cpu_freq_text(slot));
    let entries = with_bool(entries, "overclock"@, overclock(slot, catalog));
    let entries = with_text(entries, "vreg"@, vreg_text(slot));
    Json::Object(with_bool(entries, "force_16_bit"@, slot.force_16bit))
}

/// What a slot overrides of the firmware's settings, if anything.
pub open spec fn slot_overrides(slot: SlotSpecView, catalog: Catalog) -> Option<Json> {
    if !has_fire(slot) && slot.led is None {
        None
    } else {
        let entries = if has_fire(slot) {
            Map::empty().insert("fire"@, slot_fire(slot, catalog))
        } else {
            Map::empty()
        };
        Some(
            Json::Object(
                match slot.led {
                    Some(on) => entries.insert(
                        "led"@,
                        Json::Object(map!["enabled"@ => Json::Bool(on)]),
                    ),
                    None => entries,
                },
            ),
        )
    }
}

/// The chip set of a slot.
pub open spec fn slot_chip_set(slot: SlotSpecView, catalog: Catalog) -> Json {
    match slot_overrides(slot, catalog) {
        Some(overrides) => Json::Object(
            single_chip_set(slot_chip(slot))->Object_0.insert("firmware_overrides"@, overrides),
        ),
        None => single_chip_set(slot_chip(slot)),
    }
}

/// The configuration of slots: one chip set for each, in their order.
pub open spec fn config_of(
    slots: Seq<SlotSpecView>,
    name: Option<Seq<char>>,
    description: Option<Seq<char>>,
    catalog: Catalog,
) -> Json {
    let entries = map![
        "$schema"@ => Json::Text("https://images.onerom.org/configs/schema.json"@),
        "version"@ => Json::Integer(1),
        "description"@ => Json::Text(
            match description {
                Some(text) => text,
                None => "Created by the One ROM CLI"@,
            },
        ),
        "chip_sets"@ => Json::Array(
            Seq::new(slots.len(), |i: int| slot_chip_set(slots[i], catalog)),
        ),
    ];
    Json::Object(with_text(entries, "name"@, name))
}

/// Adds a text to an object, if there is one.
fn insert_text(object: &mut Value, key: &str, text: &Option<String>)
    requires
        json_of(*old(object)) is Object,
    ensures
        json_of(*final(object)) == Json::Object(
            with_text(json_of(*old(object))->Object_0, key@, opt_text(*text)),
        ),
{
    match text {
        Some(text) => {
            insert_entry(object, key, string_value(text.as_str()));
        },
        None => {},
    }
}

/// Adds a truth value to an object, if there is one.
fn insert_bool(object: &mut Value, key: &str, value: Option<bool>)
    requires
        json_of(*old(object)) is Object,
    ensures
        json_of(*final(object)) == Json::Object(
            with_bool(json_of(*old(object))->Object_0, key@, value),
        ),
{
    match value {
        Some(value) => {
            insert_entry(object, key, bool_value(value));
        },
        None => {},
    }
}

/// The chip of a slot, as JSON.
pub fn slot_to_chip_json(slot: &SlotSpec) -> (r: Value)
    ensures
        json_of(r) == slot_chip(slot@),
{
    let mut chip: Value = object_value();
    insert_entry(&mut chip, "type", string_value(slot.chip_type.name.as_str()));
    insert_text(&mut chip, "file", &slot.file);
    insert_text(&mut chip, "cs1", &slot.cs1);
    insert_text(&mut chip, "cs2", &slot.cs2);
    insert_text(&mut chip, "cs3", &slot.cs3);
    insert_text(&mut chip, "size_handling", &slot.size_handling);
    chip
}

/// What a slot overrides of the firmware's settings, as JSON.
pub fn slot_to_firmware_overrides_json(slot: &SlotSpec, catalog: &Catalog) -> (r: Option<Value>)
    ensures
        match r {
            Some(overrides) => slot_overrides(slot@, *catalog) == Some(json_of(overrides)),
            None => slot_overrides(slot@, *catalog) is None,
        },
{
    let has_fire: bool = slot.cpu_freq.is_some() || slot.vreg.is_some()
        || slot.force_16bit.is_some();
    if !has_fire && slot.led.is_none() {
        return None;
    }
    let mut overrides: Value = object_value();
    if has_fire {
        let mut fire: Value = object_value();
        match &slot.cpu_freq {
            Some(freq) => {
                let text: String = to_decimal(freq.value as u64).concat("MHz");
                insert_entry(&mut fire, "cpu_freq", string_value(text.as_str()));
                insert_entry(
                    &mut fire,
                    "overclock",
                    bool_value(freq.is_above(&catalog.cpu_freqs.stock)),
                );
            },
            None => {},
        }
        match &slot.vreg {
            Some(vreg) => {
                insert_entry(&mut fire, "vreg", string_value(vreg.name.as_str()));
            },
            None => {},
        }
        insert_bool(&mut fire, "force_16_bit", slot.force_16bit);
        insert_entry(&mut overrides, "fire", fire);
    }
    match slot.led {
        Some(on) => {
            let mut led: Value = object_value();
            insert_entry(&mut led, "enabled", bool_value(on));
            insert_entry(&mut overrides, "led", led);
        },
        None => {},
    }
    Some(overrides)
}

/// The chip set of a slot, as JSON.
fn slot_to_chip_set_json(slot: &SlotSpec, catalog: &Catalog) -> (r: Value)
    ensures
        json_of(r) == slot_chip_set(slot@, *catalog),
{
    let mut set: Value = single_chip_set_json(slot_to_chip_json(slot));
    match slot_to_firmware_overrides_json(slot, catalog) {
        Some(overrides) => {
            insert_entry(&mut set, "firmware_overrides", overrides);
        },
        None => {},
    }
    set
}

/// The configuration of slots, as JSON.
pub fn slots_to_config_value(
    slots: &[SlotSpec],
    name: Option<&str>,
    description: Option<&str>,
    catalog: &Catalog,
) -> (r: Value)
    ensures
        json_of(r) == config_of(
            slot_views(slots@),
            opt_str(name),
            opt_str(description),
            *catalog,
        ),
{
    let mut chip_sets: Vec<Value> = Vec::new();
    let mut i: usize = 0;
    while i < slots.len()
        invariant
            i <= slots.len(),
            chip_sets@.len() == i,
            forall|j: int|
                0 <= j < i ==> json_of(#[trigger] chip_sets@[j]) == slot_chip_set(
                    slots@[j]@,
                    *catalog,
                ),
        decreases slots.len() - i,
    {
        chip_sets.push(slot_to_chip_set_json(&slots[i], catalog));
        i = i + 1;
    }
    assert(jsons(chip_sets@) =~= Seq::new(
        slot_views(slots@).len(),
        |i: int| slot_chip_set(slot_views(slots@)[i], *catalog),
    ));
    let mut config: Value = object_value();
    insert_entry(&mut config, "$schema", string_value(CONFIG_SCHEMA_URL));
    insert_entry(&mut config, "version", number_value(1));
    let description: &str = match description {
        Some(text) => text,
        None => DEFAULT_CONFIG_DESCRIPTION,
    };
    insert_entry(&mut config, "description", string_value(description));
    insert_entry(&mut config, "chip_sets", array_value(chip_sets));
    match name {
        Some(text) => {
            insert_entry(&mut config, "name", string_value(text));
        },
        None => {},
    }
    config
}

/// The configuration of slots, as the text of a JSON file.
pub fn slots_to_config_json(
    slots: &[SlotSpec],
    name: Option<&str>,
    description: Option<&str>,
    catalog: &Catalog,
) -> (r: Result<String, Error>)
    ensures
        r is Ok,
        r->Ok_0@ == pretty(
            config_of(slot_views(slots@), opt_str(name), opt_str(description), *catalog),
        ),
{
    match to_string_pretty(&slots_to_config_value(slots, name, description, catalog)) {
        Ok(text) => Ok(text),
        Err(e) => Err(Error::Other(e)),
    }
}

} // verus!
