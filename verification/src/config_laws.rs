//! What holds of configurations as a whole.
use vstd::prelude::*;

use crate::catalog::{spelled, spelling_views, Board, Catalog, FireCpuFreq};
use crate::error::ErrorView;
use crate::json::Json;
use crate::number::decimal;
use crate::plugin_config::{
    plugin_chip, plugin_chip_set, single_chip_set, size_handling_of, PLUGIN_MAX_SIZE,
};
use crate::slot::{
    confirmations_of, is_overclocked, is_overvolted, slot_confirmations_of, slot_of, slots_of,
    ConfirmationsRequired, SlotSpecView,
};
use crate::slot_config::{
    config_of, cpu_freq_text, slot_chip, slot_chip_set, slot_overrides,
};
use crate::slot_laws::{
    law_cpu_freq_forms, law_first_slot_error, law_size_handling_says_itself,
    law_values_are_offered,
};
use crate::slot_value::{cpu_freq_of, size_handling_of_value};

verus! {

/// What stands in an object under a key.
pub open spec fn entry(json: Json, key: Seq<char>) -> Option<Json> {
    match json {
        Json::Object(entries) => if entries.dom().contains(key) {
            Some(entries[key])
        } else {
            None
        },
        _ => None,
    }
}

/// An optional text as JSON.
pub open spec fn opt_json(text: Option<Seq<char>>) -> Option<Json> {
    match text {
        Some(text) => Some(Json::Text(text)),
        None => None,
    }
}

/// An optional truth value as JSON.
pub open spec fn opt_bool_json(value: Option<bool>) -> Option<Json> {
    match value {
        Some(value) => Some(Json::Bool(value)),
        None => None,
    }
}

/// Whether a value is an object that has entries under these keys at most.
pub open spec fn has_only(json: Json, keys: Seq<Seq<char>>) -> bool {
    json matches Json::Object(entries) && forall|key: Seq<char>| #[trigger]
        entries.dom().contains(key) ==> keys.contains(key)
}

/// A configuration holds the chip sets of its slots, in their order, and a name where it is given
/// one. Its description is the one that it is given or the usual one.
pub proof fn law_config(
    slots: Seq<SlotSpecView>,
    name: Option<Seq<char>>,
    description: Option<Seq<char>>,
    catalog: Catalog,
)
    ensures
        ({
            let config = config_of(slots, name, description, catalog);
            &&& entry(config, "$schema"@) == Some(
                Json::Text("https://images.onerom.org/configs/schema.json"@),
            )
            &&& entry(config, "version"@) == Some(Json::Integer(1))
            &&& entry(config, "description"@) == Some(
                Json::Text(
                    match description {
                        Some(text) => text,
                        None => "Created by the One ROM CLI"@,
                    },
                ),
            )
            &&& entry(config, "name"@) == opt_json(name)
            &&& entry(config, "chip_sets"@) matches Some(Json::Array(sets)) && sets.len()
                == slots.len() && forall|i: int|
                0 <= i < slots.len() ==> #[trigger] sets[i] == slot_chip_set(slots[i], catalog)
            &&& has_only(
                config,
                seq!["$schema"@, "version"@, "description"@, "chip_sets"@, "name"@],
            )
        }),
{
    let keys = seq!["$schema"@, "version"@, "description"@, "chip_sets"@, "name"@];
    assert(keys[0] == "$schema"@ && keys[1] == "version"@ && keys[2] == "description"@);
    assert(keys[3] == "chip_sets"@ && keys[4] == "name"@);
    reveal_strlit("$schema");
    reveal_strlit("version");
    reveal_strlit("description");
    reveal_strlit("chip_sets");
    reveal_strlit("name");
    assert("$schema"@.len() == 7 && "version"@.len() == 7 && "$schema"@[0] != "version"@[0]);
    assert("description"@.len() == 11 && "chip_sets"@.len() == 9 && "name"@.len() == 4);
}

/// A chip set holds one chip, and overrides where its slot has any.
pub proof fn law_chip_set(slot: SlotSpecView, catalog: Catalog)
    ensures
        entry(slot_chip_set(slot, catalog), "type"@) == Some(Json::Text("single"@)),
        entry(slot_chip_set(slot, catalog), "chips"@) == Some(Json::Array(seq![slot_chip(slot)])),
        entry(slot_chip_set(slot, catalog), "firmware_overrides"@) == slot_overrides(
            slot,
            catalog,
        ),
        has_only(
            slot_chip_set(slot, catalog),
            seq!["type"@, "chips"@, "firmware_overrides"@],
        ),
{
    let keys = seq!["type"@, "chips"@, "firmware_overrides"@];
    assert(keys[0] == "type"@ && keys[1] == "chips"@ && keys[2] == "firmware_overrides"@);
    reveal_strlit("type");
    reveal_strlit("chips");
    reveal_strlit("firmware_overrides");
    assert("type"@.len() == 4 && "chips"@.len() == 5 && "firmware_overrides"@.len() == 18);
}

/// A chip says what its slot does of the type, the file, the polarities and the size.
pub proof fn law_chip(slot: SlotSpecView)
    ensures
        entry(slot_chip(slot), "type"@) == Some(Json::Text(slot.chip_type.name)),
        entry(slot_chip(slot), "file"@) == opt_json(slot.file),
        entry(slot_chip(slot), "cs1"@) == opt_json(slot.cs1),
        entry(slot_chip(slot), "cs2"@) == opt_json(slot.cs2),
        entry(slot_chip(slot), "cs3"@) == opt_json(slot.cs3),
        entry(slot_chip(slot), "size_handling"@) == opt_json(slot.size_handling),
        has_only(
            slot_chip(slot),
            seq!["type"@, "file"@, "cs1"@, "cs2"@, "cs3"@, "size_handling"@],
        ),
{
    let keys = seq!["type"@, "file"@, "cs1"@, "cs2"@, "cs3"@, "size_handling"@];
    assert(keys[0] == "type"@ && keys[1] == "file"@ && keys[2] == "cs1"@ && keys[3] == "cs2"@);
    assert(keys[4] == "cs3"@ && keys[5] == "size_handling"@);
    reveal_strlit("type");
    reveal_strlit("file");
    reveal_strlit("cs1");
    reveal_strlit("cs2");
    reveal_strlit("cs3");
    reveal_strlit("size_handling");
    assert("type"@.len() == 4 && "file"@.len() == 4 && "type"@[0] == 't' && "file"@[0] == 'f');
    assert("cs1"@.len() == 3 && "cs2"@.len() == 3 && "cs3"@.len() == 3);
    assert("cs1"@[2] == '1' && "cs2"@[2] == '2' && "cs3"@[2] == '3');
    assert("size_handling"@.len() == 13);
}

/// Overrides say what their slot does of the CPU frequency, the voltage, 16-bit mode and the LED,
/// and are left out where it says nothing of these. Nothing else of a slot decides what they say.
pub proof fn law_overrides(slot: SlotSpecView, catalog: Catalog)
    ensures
        slot_overrides(slot, catalog) is Some <==> slot.cpu_freq is Some || slot.vreg is Some
            || slot.force_16bit is Some || slot.led is Some,
        slot_overrides(slot, catalog) matches Some(overrides) ==> {
            &&& entry(overrides, "fire"@) is Some <==> slot.cpu_freq is Some || slot.vreg is Some
                || slot.force_16bit is Some
            &&& entry(overrides, "fire"@) matches Some(fire) ==> {
                &&& entry(fire, "cpu_freq"@) == match slot.cpu_freq {
                    Some(freq) => Some(Json::Text(decimal(freq.value as nat) + "MHz"@)),
                    None => None,
                }
                &&& entry(fire, "overclock"@) == match slot.cpu_freq {
                    Some(freq) => Some(
                        Json::Bool(0 < catalog.cpu_freqs.stock.value < freq.value < 0xffff),
                    ),
                    None => None,
                }
                &&& entry(fire, "vreg"@) == match slot.vreg {
                    Some(vreg) => Some(Json::Text(vreg.name)),
                    None => None,
                }
                &&& entry(fire, "force_16_bit"@) == opt_bool_json(slot.force_16bit)
                &&& has_only(
                    fire,
                    seq!["cpu_freq"@, "overclock"@, "vreg"@, "force_16_bit"@],
                )
            }
            &&& entry(overrides, "led"@) is Some <==> slot.led is Some
            &&& entry(overrides, "led"@) matches Some(led) ==> entry(led, "enabled"@)
                == opt_bool_json(slot.led) && has_only(led, seq!["enabled"@])
            &&& has_only(overrides, seq!["fire"@, "led"@])
        },
{
    reveal_strlit("fire");
    reveal_strlit("led");
    reveal_strlit("cpu_freq");
    reveal_strlit("overclock");
    reveal_strlit("vreg");
    reveal_strlit("force_16_bit");
    assert("fire"@.len() == 4 && "led"@.len() == 3);
    assert("cpu_freq"@.len() == 8 && "overclock"@.len() == 9 && "vreg"@.len() == 4);
    assert("force_16_bit"@.len() == 12);
    let outer = seq!["fire"@, "led"@];
    assert(outer[0] == "fire"@ && outer[1] == "led"@);
    let inner = seq!["cpu_freq"@, "overclock"@, "vreg"@, "force_16_bit"@];
    assert(inner[0] == "cpu_freq"@ && inner[1] == "overclock"@ && inner[2] == "vreg"@);
    assert(inner[3] == "force_16_bit"@);
    assert(seq!["enabled"@][0] == "enabled"@);
}

/// What a value holds under keys, one inside the other.
pub open spec fn inside(json: Json, outer: Seq<char>, inner: Seq<char>) -> Option<Json> {
    match entry(json, outer) {
        Some(found) => entry(found, inner),
        None => None,
    }
}

/// The chip set of each slot of a configuration has the slot's chip, file and polarities, and
/// overrides the CPU frequency, the voltage and 16-bit mode exactly as the slot does, whatever
/// else the slot says.
pub proof fn law_slot_in_config(
    slots: Seq<SlotSpecView>,
    i: int,
    name: Option<Seq<char>>,
    description: Option<Seq<char>>,
    catalog: Catalog,
)
    requires
        0 <= i < slots.len(),
    ensures
        ({
            let config = config_of(slots, name, description, catalog);
            let sets = entry(config, "chip_sets"@)->0->Array_0;
            let slot = slots[i];
            let overrides = entry(sets[i], "firmware_overrides"@);
            let chip = entry(sets[i], "chips"@)->0->Array_0[0];
            &&& sets.len() == slots.len()
            &&& entry(sets[i], "chips"@) == Some(Json::Array(seq![chip]))
            &&& entry(chip, "type"@) == Some(Json::Text(slot.chip_type.name))
            &&& entry(chip, "file"@) == opt_json(slot.file)
            &&& entry(chip, "cs1"@) == opt_json(slot.cs1)
            &&& entry(chip, "cs2"@) == opt_json(slot.cs2)
            &&& entry(chip, "cs3"@) == opt_json(slot.cs3)
            &&& entry(chip, "size_handling"@) == opt_json(slot.size_handling)
            &&& slot.vreg matches Some(vreg) ==> overrides is Some && inside(
                overrides->0,
                "fire"@,
                "vreg"@,
            ) == Some(Json::Text(vreg.name))
            &&& slot.force_16bit matches Some(on) ==> overrides is Some && inside(
                overrides->0,
                "fire"@,
                "force_16_bit"@,
            ) == Some(Json::Bool(on))
            &&& slot.cpu_freq matches Some(freq) ==> overrides is Some && inside(
                overrides->0,
                "fire"@,
                "cpu_freq"@,
            ) == Some(Json::Text(decimal(freq.value as nat) + "MHz"@))
            &&& slot.led matches Some(on) ==> overrides is Some && inside(
                overrides->0,
                "led"@,
                "enabled"@,
            ) == Some(Json::Bool(on))
            &&& slot.vreg is None && slot.force_16bit is None && slot.cpu_freq is None
                && slot.led is None ==> overrides is None
        }),
{
    law_config(slots, name, description, catalog);
    law_chip_set(slots[i], catalog);
    law_chip(slots[i]);
    law_overrides(slots[i], catalog);
    let sets = entry(config_of(slots, name, description, catalog), "chip_sets"@)->0->Array_0;
    assert(sets[i] == slot_chip_set(slots[i], catalog));
    assert(seq![slot_chip(slots[i])][0] == slot_chip(slots[i]));
}

/// A CPU frequency must be confirmed exactly where some slot, at any place, has one above the
/// stock frequency, and a voltage exactly where some slot has one above the stock voltage. Values
/// that stand for none or for stock are above nothing, and nothing is above them.
pub proof fn law_confirmations(slots: Seq<SlotSpecView>, catalog: Catalog)
    ensures
        confirmations_of(slots, catalog).cpu_freq <==> exists|i: int|
            0 <= i < slots.len() && ((#[trigger] slots[i]).cpu_freq matches Some(freq) && 0
                < catalog.cpu_freqs.stock.value < freq.value < 0xffff),
        confirmations_of(slots, catalog).vreg <==> exists|i: int|
            0 <= i < slots.len() && ((#[trigger] slots[i]).vreg matches Some(vreg)
                && catalog.vregs.stock < vreg.code < 0xff),
{
    let confirmed = confirmations_of(slots, catalog);
    if confirmed.cpu_freq {
        let i = choose|i: int| 0 <= i < slots.len() && is_overclocked(#[trigger] slots[i], catalog);
        assert(slots[i].cpu_freq is Some);
    }
    if confirmed.vreg {
        let i = choose|i: int| 0 <= i < slots.len() && is_overvolted(#[trigger] slots[i], catalog);
        assert(slots[i].vreg is Some);
    }
    if exists|i: int|
        0 <= i < slots.len() && ((#[trigger] slots[i]).cpu_freq matches Some(freq) && 0
            < catalog.cpu_freqs.stock.value < freq.value < 0xffff) {
        let i = choose|i: int|
            0 <= i < slots.len() && ((#[trigger] slots[i]).cpu_freq matches Some(freq) && 0
                < catalog.cpu_freqs.stock.value < freq.value < 0xffff);
        assert(is_overclocked(slots[i], catalog));
    }
    if exists|i: int|
        0 <= i < slots.len() && ((#[trigger] slots[i]).vreg matches Some(vreg)
            && catalog.vregs.stock < vreg.code < 0xff) {
        let i = choose|i: int|
            0 <= i < slots.len() && ((#[trigger] slots[i]).vreg matches Some(vreg)
                && catalog.vregs.stock < vreg.code < 0xff);
        assert(is_overvolted(slots[i], catalog));
    }
}

/// More slots ask for what either list asks for, and never for less.
pub proof fn law_confirmations_add_up(
    a: Seq<SlotSpecView>,
    b: Seq<SlotSpecView>,
    catalog: Catalog,
)
    ensures
        confirmations_of(a + b, catalog).cpu_freq == (confirmations_of(a, catalog).cpu_freq
            || confirmations_of(b, catalog).cpu_freq),
        confirmations_of(a + b, catalog).vreg == (confirmations_of(a, catalog).vreg
            || confirmations_of(b, catalog).vreg),
{
    let all = a + b;
    assert(forall|i: int| 0 <= i < a.len() ==> #[trigger] a[i] == all[i]);
    assert(forall|i: int| 0 <= i < b.len() ==> #[trigger] b[i] == all[a.len() + i]);
    assert(forall|i: int| a.len() <= i < all.len() ==> #[trigger] all[i] == b[i - a.len()]);
    if confirmations_of(all, catalog).cpu_freq {
        let i = choose|i: int| 0 <= i < all.len() && is_overclocked(#[trigger] all[i], catalog);
        if i < a.len() {
            assert(is_overclocked(a[i], catalog));
        } else {
            assert(is_overclocked(b[i - a.len()], catalog));
        }
    }
    if confirmations_of(all, catalog).vreg {
        let i = choose|i: int| 0 <= i < all.len() && is_overvolted(#[trigger] all[i], catalog);
        if i < a.len() {
            assert(is_overvolted(a[i], catalog));
        } else {
            assert(is_overvolted(b[i - a.len()], catalog));
        }
    }
    assert forall|i: int| 0 <= i < a.len() implies (is_overclocked(#[trigger] a[i], catalog)
        ==> confirmations_of(all, catalog).cpu_freq) && (is_overvolted(a[i], catalog)
        ==> confirmations_of(all, catalog).vreg) by {
        assert(all[i] == a[i]);
    }
    assert forall|i: int| 0 <= i < b.len() implies (is_overclocked(#[trigger] b[i], catalog)
        ==> confirmations_of(all, catalog).cpu_freq) && (is_overvolted(b[i], catalog)
        ==> confirmations_of(all, catalog).vreg) by {
        assert(all[a.len() + i] == b[i]);
    }
}

/// Whether a chip set says that it is overclocked.
pub open spec fn says_overclock(chip_set: Json) -> bool {
    &&& entry(chip_set, "firmware_overrides"@) matches Some(overrides)
    &&& entry(overrides, "fire"@) matches Some(fire)
    &&& entry(fire, "overclock"@) == Some(Json::Bool(true))
}

/// The user is asked to confirm a CPU frequency exactly where the configuration of the same slots
/// has a chip set that says it is overclocked.
pub proof fn law_overclock_is_confirmed(
    slots: Seq<SlotSpecView>,
    name: Option<Seq<char>>,
    description: Option<Seq<char>>,
    catalog: Catalog,
)
    ensures
        confirmations_of(slots, catalog).cpu_freq <==> (entry(
            config_of(slots, name, description, catalog),
            "chip_sets"@,
        ) matches Some(Json::Array(sets)) && exists|i: int|
            0 <= i < sets.len() && says_overclock(#[trigger] sets[i])),
{
    law_config(slots, name, description, catalog);
    let sets = entry(config_of(slots, name, description, catalog), "chip_sets"@)->0->Array_0;
    assert forall|i: int| 0 <= i < slots.len() implies says_overclock(#[trigger] sets[i])
        == is_overclocked(slots[i], catalog) by {
        law_chip_set(slots[i], catalog);
        law_overrides(slots[i], catalog);
    }
    if confirmations_of(slots, catalog).cpu_freq {
        let i = choose|i: int| 0 <= i < slots.len() && is_overclocked(#[trigger] slots[i], catalog);
        assert(says_overclock(sets[i]));
    }
    if exists|i: int| 0 <= i < sets.len() && says_overclock(#[trigger] sets[i]) {
        let i = choose|i: int| 0 <= i < sets.len() && says_overclock(#[trigger] sets[i]);
        assert(is_overclocked(slots[i], catalog));
    }
}

/// The CPU frequency in the configuration of an accepted slot says the same frequency again.
pub proof fn law_cpu_freq_reads_back(
    slot: Seq<char>,
    key: Seq<char>,
    board: Board,
    catalog: Catalog,
    home: Option<Seq<char>>,
)
    requires
        slot_of(slot, board, catalog, home) is Ok,
        slot_of(slot, board, catalog, home)->Ok_0.cpu_freq is Some,
    ensures
        ({
            let spec = slot_of(slot, board, catalog, home)->Ok_0;
            cpu_freq_of(slot, key, cpu_freq_text(spec)->0, catalog.cpu_freqs) == Ok::<
                FireCpuFreq,
                ErrorView,
            >(spec.cpu_freq->0)
        }),
{
    law_values_are_offered(slot, board, catalog, home);
    law_cpu_freq_forms(
        slot,
        key,
        slot_of(slot, board, catalog, home)->Ok_0.cpu_freq->0.value,
        catalog.cpu_freqs,
    );
}

/// The `size_handling` in the chip of an accepted slot says the same again.
pub proof fn law_size_handling_reads_back(
    slot: Seq<char>,
    other: Seq<char>,
    board: Board,
    catalog: Catalog,
    home: Option<Seq<char>>,
)
    requires
        catalog.size_handlings.values_spell_themselves(),
        slot_of(slot, board, catalog, home) is Ok,
        slot_of(slot, board, catalog, home)->Ok_0.size_handling is Some,
    ensures
        ({
            let name = slot_of(slot, board, catalog, home)->Ok_0.size_handling->0;
            size_handling_of_value(other, name, catalog.size_handlings) == Ok::<
                Seq<char>,
                ErrorView,
            >(name)
        }),
{
    law_values_are_offered(slot, board, catalog, home);
    let name = slot_of(slot, board, catalog, home)->Ok_0.size_handling->0;
    let spellings = spelling_views(catalog.size_handlings.spellings@);
    let text = choose|text: Seq<char>| #[trigger] spelled(spellings, text) == Some(name);
    law_size_handling_says_itself(other, text, catalog.size_handlings);
}

/// The chip set of a plugin holds one chip, which says the plugin's type and file. It is padded
/// unless it fills its slot.
pub proof fn law_plugin_chip_set(
    file: Seq<char>,
    plugin_type: Seq<char>,
    description: Option<Seq<char>>,
    size: usize,
)
    requires
        size <= 65536,
    ensures
        size_handling_of(size) is Ok,
        ({
            let chip = plugin_chip(file, plugin_type, description, size_handling_of(size)->Ok_0);
            let set = single_chip_set(chip);
            &&& entry(set, "type"@) == Some(Json::Text("single"@))
            &&& entry(set, "chips"@) == Some(Json::Array(seq![chip]))
            &&& entry(chip, "type"@) == Some(Json::Text(plugin_type))
            &&& entry(chip, "file"@) == Some(Json::Text(file))
            &&& entry(chip, "description"@) == opt_json(description)
            &&& entry(chip, "size_handling"@) == Some(
                Json::Text(
                    if size == 65536 {
                        "none"@
                    } else {
                        "pad"@
                    },
                ),
            )
            &&& has_only(set, seq!["type"@, "chips"@])
            &&& has_only(chip, seq!["type"@, "file"@, "size_handling"@, "description"@])
        }),
{
    let outer = seq!["type"@, "chips"@];
    assert(outer[0] == "type"@ && outer[1] == "chips"@);
    let inner = seq!["type"@, "file"@, "size_handling"@, "description"@];
    assert(inner[0] == "type"@ && inner[1] == "file"@ && inner[2] == "size_handling"@);
    assert(inner[3] == "description"@);
    reveal_strlit("type");
    reveal_strlit("chips");
    reveal_strlit("file");
    reveal_strlit("size_handling");
    reveal_strlit("description");
    assert("type"@.len() == 4 && "file"@.len() == 4 && "type"@[0] == 't' && "file"@[0] == 'f');
    assert("chips"@.len() == 5 && "size_handling"@.len() == 13 && "description"@.len() == 11);
}

/// A plugin that is larger than its slot of 64 KiB is refused, with its size and the largest.
pub proof fn law_large_plugins(size: usize)
    ensures
        size > 65536 <==> size_handling_of(size) is Err,
        size > 65536 ==> size_handling_of(size) == Err::<Seq<char>, ErrorView>(
            ErrorView::PluginTooLarge(size, 65536),
        ),
        PLUGIN_MAX_SIZE == 65536,
{
}

/// The chip set of a plugin is refused exactly where the binary is too large, and otherwise holds
/// its one chip.
pub proof fn law_plugin_chip_sets(
    file: Seq<char>,
    plugin_type: Seq<char>,
    description: Option<Seq<char>>,
    size: usize,
)
    ensures
        size > 65536 ==> plugin_chip_set(file, plugin_type, description, size) == Err::<
            Json,
            ErrorView,
        >(ErrorView::PluginTooLarge(size, 65536)),
        size <= 65536 ==> (plugin_chip_set(file, plugin_type, description, size) matches Ok(set)
            && {
            &&& entry(set, "type"@) == Some(Json::Text("single"@))
            &&& entry(set, "chips"@) matches Some(Json::Array(chips)) && chips.len() == 1 && {
                &&& entry(chips[0], "type"@) == Some(Json::Text(plugin_type))
                &&& entry(chips[0], "file"@) == Some(Json::Text(file))
                &&& entry(chips[0], "description"@) == opt_json(description)
                &&& size == 65536 ==> entry(chips[0], "size_handling"@) == Some(
                    Json::Text("none"@),
                )
                &&& size < 65536 ==> entry(chips[0], "size_handling"@) == Some(Json::Text("pad"@))
            }
        }),
{
    if size <= 65536 {
        law_plugin_chip_set(file, plugin_type, description, size);
    }
}

/// What must be confirmed of arguments that are all accepted is what must be of any of the slots
/// that they say; where one is not accepted, the first such gives the error.
pub proof fn law_slot_confirmations(
    list: Seq<Seq<char>>,
    slots: Seq<SlotSpecView>,
    i: int,
    board: Board,
    catalog: Catalog,
    home: Option<Seq<char>>,
)
    requires
        0 <= i <= list.len(),
        slots.len() == i,
        forall|j: int|
            0 <= j < i ==> slot_of(#[trigger] list[j], board, catalog, home) == Ok::<
                SlotSpecView,
                ErrorView,
            >(slots[j]),
        i < list.len() ==> slot_of(list[i], board, catalog, home) is Err,
    ensures
        ({
            let result = slot_confirmations_of(list, board, catalog, home);
            &&& i < list.len() ==> result == Err::<ConfirmationsRequired, ErrorView>(
                slot_of(list[i], board, catalog, home)->Err_0,
            )
            &&& i == list.len() ==> {
                &&& result is Ok
                &&& result->Ok_0.cpu_freq <==> exists|k: int|
                    0 <= k < slots.len() && ((#[trigger] slots[k]).cpu_freq matches Some(freq) && 0
                        < catalog.cpu_freqs.stock.value < freq.value < 0xffff)
                &&& result->Ok_0.vreg <==> exists|k: int|
                    0 <= k < slots.len() && ((#[trigger] slots[k]).vreg matches Some(vreg)
                        && catalog.vregs.stock < vreg.code < 0xff)
            }
        }),
{
    law_first_slot_error(list, i, board, catalog, home);
    if i == list.len() {
        assert(slots_of(list, board, catalog, home)->Ok_0 =~= slots);
        law_confirmations(slots, catalog);
    }
}

} // verus!
