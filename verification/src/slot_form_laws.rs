//! Which `--slot` arguments are accepted, what they say, and how the others are refused.
use vstd::prelude::*;

use crate::catalog::{
    chip_named, chip_views, supports, vreg_views, Board, Catalog, ChipFunction, ChipTypeView,
    ControlLineType, FireCpuFreq, FireVregView,
};
use crate::error::ErrorView;
use crate::slot::{
    checked, chip_error, has_line, is_given, lemma_lines_error_stays, lemma_parts_error_stays,
    line_error, lines_error, part_error, part_key, part_value, parts_error, setting_of,
    settings_of, slot_key, slot_of, slot_views, supported_names, with_setting, Setting,
    SettingsView, SlotKey, SlotSpec, SlotSpecView,
};
use crate::slot_laws::{is_right, keys_differ, kind_of, law_parts, lemma_kind_of};
use crate::slot_value::{
    bool_of, cpu_freq_of, cs_logic_of, expanded, size_handling_of_value, vreg_of,
};
use crate::text::{
    join, lemma_split_once_at, lemma_split_once_parts, opt_text, split, split_once, trim,
};
use crate::value_laws::{law_polarities, slot_refusal};

verus! {

/// The mathematical value of a slot has all that the slot has.
pub proof fn law_slot_values(slot: SlotSpec, slots: Seq<SlotSpec>)
    ensures
        slot@.file == opt_text(slot.file),
        slot@.chip_type == slot.chip_type@,
        slot@.cs1 == opt_text(slot.cs1),
        slot@.cs2 == opt_text(slot.cs2),
        slot@.cs3 == opt_text(slot.cs3),
        slot@.size_handling == opt_text(slot.size_handling),
        slot@.cpu_freq == slot.cpu_freq,
        slot@.vreg == match slot.vreg {
            Some(vreg) => Some(vreg@),
            None => None,
        },
        slot@.led == slot.led,
        slot@.force_16bit == slot.force_16bit,
        slot_views(slots).len() == slots.len(),
        forall|i: int| 0 <= i < slots.len() ==> #[trigger] slot_views(slots)[i] == slots[i]@,
{
}

/// Whether a text is one of a list.
pub open spec fn is_one_of(text: Seq<char>, list: Seq<Seq<char>>) -> bool {
    exists|i: int| 0 <= i < list.len() && #[trigger] list[i] == text
}

proof fn lemma_is_one_of(text: Seq<char>, list: Seq<Seq<char>>)
    requires
        list.len() <= 7,
    ensures
        is_one_of(text, list) <==> {
            ||| list.len() > 0 && list[0] == text
            ||| list.len() > 1 && list[1] == text
            ||| list.len() > 2 && list[2] == text
            ||| list.len() > 3 && list[3] == text
            ||| list.len() > 4 && list[4] == text
            ||| list.len() > 5 && list[5] == text
            ||| list.len() > 6 && list[6] == text
        },
{
}

/// The names of the keys.
pub proof fn law_keys(key: Seq<char>)
    ensures
        slot_key(key) == Some(SlotKey::File) <==> is_one_of(
            key,
            seq!["file"@, "path"@, "url"@],
        ),
        slot_key(key) == Some(SlotKey::Type) <==> is_one_of(
            key,
            seq!["type"@, "rom-type"@, "rom_type"@, "chip_type"@, "chip-type"@],
        ),
        slot_key(key) == Some(SlotKey::Cs1) <==> is_one_of(
            key,
            seq!["cs1"@],
        ),
        slot_key(key) == Some(SlotKey::Cs2) <==> is_one_of(
            key,
            seq!["cs2"@],
        ),
        slot_key(key) == Some(SlotKey::Cs3) <==> is_one_of(
            key,
            seq!["cs3"@],
        ),
        slot_key(key) == Some(SlotKey::SizeHandling) <==> is_one_of(
            key,
            seq!["size_handling"@, "size"@],
        ),
        slot_key(key) == Some(SlotKey::CpuFreq) <==> is_one_of(
            key,
            seq![
                "cpu"@,
                "freq"@,
                "frequency"@,
                "cpu-freq"@,
                "cpu_freq"@,
                "cpu_frequency"@,
                "cpu-frequency"@,
            ],
        ),
        slot_key(key) == Some(SlotKey::Vreg) <==> is_one_of(
            key,
            seq!["vreg"@, "cpu-vreg"@, "cpu_vreg"@],
        ),
        slot_key(key) == Some(SlotKey::Led) <==> is_one_of(
            key,
            seq!["led"@, "status_led"@, "status-led"@],
        ),
        slot_key(key) == Some(SlotKey::Force16Bit) <==> is_one_of(
            key,
            seq!["16bit"@, "force_16bit"@, "force_16_bit"@, "force-16bit"@, "force-16-bit"@],
        ),
{
    reveal_strlit("file");
    reveal_strlit("path");
    reveal_strlit("url");
    reveal_strlit("type");
    reveal_strlit("rom-type");
    reveal_strlit("rom_type");
    reveal_strlit("chip_type");
    reveal_strlit("chip-type");
    reveal_strlit("cs1");
    reveal_strlit("cs2");
    reveal_strlit("cs3");
    reveal_strlit("size_handling");
    reveal_strlit("size");
    reveal_strlit("cpu");
    reveal_strlit("freq");
    reveal_strlit("frequency");
    reveal_strlit("cpu-freq");
    reveal_strlit("cpu_freq");
    reveal_strlit("cpu_frequency");
    reveal_strlit("cpu-frequency");
    reveal_strlit("vreg");
    reveal_strlit("cpu-vreg");
    reveal_strlit("cpu_vreg");
    reveal_strlit("led");
    reveal_strlit("status_led");
    reveal_strlit("status-led");
    reveal_strlit("16bit");
    reveal_strlit("force_16bit");
    reveal_strlit("force_16_bit");
    reveal_strlit("force-16bit");
    reveal_strlit("force-16-bit");
    assert("file"@.len() == 4 && "file"@[0] == 'f' && "file"@[1] == 'i');
    assert("path"@.len() == 4 && "path"@[0] == 'p');
    assert("url"@.len() == 3 && "url"@[0] == 'u');
    assert("type"@.len() == 4 && "type"@[0] == 't');
    assert("rom-type"@.len() == 8 && "rom-type"@[0] == 'r');
    assert("rom_type"@.len() == 8 && "rom_type"@[0] == 'r');
    assert("chip_type"@.len() == 9 && "chip_type"@[0] == 'c');
    assert("chip-type"@.len() == 9 && "chip-type"@[0] == 'c');
    assert("cs1"@.len() == 3 && "cs1"@[0] == 'c' && "cs1"@[1] == 's' && "cs1"@[2] == '1');
    assert("cs2"@.len() == 3 && "cs2"@[0] == 'c' && "cs2"@[1] == 's' && "cs2"@[2] == '2');
    assert("cs3"@.len() == 3 && "cs3"@[0] == 'c' && "cs3"@[1] == 's' && "cs3"@[2] == '3');
    assert("size_handling"@.len() == 13 && "size_handling"@[0] == 's');
    assert("size"@.len() == 4 && "size"@[0] == 's');
    assert("cpu"@.len() == 3 && "cpu"@[0] == 'c' && "cpu"@[1] == 'p');
    assert("freq"@.len() == 4 && "freq"@[0] == 'f' && "freq"@[1] == 'r');
    assert("frequency"@.len() == 9 && "frequency"@[0] == 'f');
    assert("cpu-freq"@.len() == 8 && "cpu-freq"@[0] == 'c' && "cpu-freq"@[4] == 'f');
    assert("cpu_freq"@.len() == 8 && "cpu_freq"@[0] == 'c' && "cpu_freq"@[4] == 'f');
    assert("cpu_frequency"@.len() == 13 && "cpu_frequency"@[0] == 'c');
    assert("cpu-frequency"@.len() == 13 && "cpu-frequency"@[0] == 'c');
    assert("vreg"@.len() == 4 && "vreg"@[0] == 'v');
    assert("cpu-vreg"@.len() == 8 && "cpu-vreg"@[0] == 'c' && "cpu-vreg"@[4] == 'v');
    assert("cpu_vreg"@.len() == 8 && "cpu_vreg"@[0] == 'c' && "cpu_vreg"@[4] == 'v');
    assert("led"@.len() == 3 && "led"@[0] == 'l');
    assert("status_led"@.len() == 10 && "status_led"@[0] == 's');
    assert("status-led"@.len() == 10 && "status-led"@[0] == 's');
    assert("16bit"@.len() == 5 && "16bit"@[0] == '1');
    assert("force_16bit"@.len() == 11 && "force_16bit"@[0] == 'f');
    assert("force_16_bit"@.len() == 12 && "force_16_bit"@[0] == 'f');
    assert("force-16bit"@.len() == 11 && "force-16bit"@[0] == 'f');
    assert("force-16-bit"@.len() == 12 && "force-16-bit"@[0] == 'f');
    lemma_is_one_of(key, seq!["file"@, "path"@, "url"@]);
    lemma_is_one_of(key, seq!["type"@, "rom-type"@, "rom_type"@, "chip_type"@, "chip-type"@]);
    lemma_is_one_of(key, seq!["cs1"@]);
    lemma_is_one_of(key, seq!["cs2"@]);
    lemma_is_one_of(key, seq!["cs3"@]);
    lemma_is_one_of(key, seq!["size_handling"@, "size"@]);
    lemma_is_one_of(
        key,
        seq![
            "cpu"@,
            "freq"@,
            "frequency"@,
            "cpu-freq"@,
            "cpu_freq"@,
            "cpu_frequency"@,
            "cpu-frequency"@,
        ],
    );
    lemma_is_one_of(key, seq!["vreg"@, "cpu-vreg"@, "cpu_vreg"@]);
    lemma_is_one_of(key, seq!["led"@, "status_led"@, "status-led"@]);
    lemma_is_one_of(
        key,
        seq!["16bit"@, "force_16bit"@, "force_16_bit"@, "force-16bit"@, "force-16-bit"@],
    );
}

/// A part is its key, an equals sign and its value. White space around the key does not count,
/// and further equals signs belong to the value.
pub proof fn law_part(key: Seq<char>, value: Seq<char>)
    requires
        !key.contains('='),
    ensures
        part_key(key + seq!['='] + value) == trim(key),
        part_value(key + seq!['='] + value) == value,
{
    lemma_split_once_at(key, '=', value);
}

/// Whether a part names what `sets` sets.
pub open spec fn names(part: Seq<char>, sets: SlotKey) -> bool {
    slot_key(part_key(part)) == Some(sets)
}

/// Whether one of the parts names what `sets` sets.
pub open spec fn named(parts: Seq<Seq<char>>, sets: SlotKey) -> bool {
    exists|i: int| 0 <= i < parts.len() && names(#[trigger] parts[i], sets)
}

/// Whether the part at `i` is the last of those before `n` that name what `sets` sets.
pub open spec fn names_last(parts: Seq<Seq<char>>, i: int, n: int, sets: SlotKey) -> bool {
    &&& 0 <= i < n
    &&& names(parts[i], sets)
    &&& forall|j: int| i < j < n ==> !names(#[trigger] parts[j], sets)
}

/// What is made of one thing that can be set.
spec fn field(settings: SettingsView, sets: SlotKey) -> Option<Setting> {
    match sets {
        SlotKey::File => match settings.file {
            Some(x) => Some(Setting::File(x)),
            None => None,
        },
        SlotKey::Type => match settings.chip_type {
            Some(x) => Some(Setting::Type(x)),
            None => None,
        },
        SlotKey::Cs1 => match settings.cs1 {
            Some(x) => Some(Setting::Cs1(x)),
            None => None,
        },
        SlotKey::Cs2 => match settings.cs2 {
            Some(x) => Some(Setting::Cs2(x)),
            None => None,
        },
        SlotKey::Cs3 => match settings.cs3 {
            Some(x) => Some(Setting::Cs3(x)),
            None => None,
        },
        SlotKey::SizeHandling => match settings.size_handling {
            Some(x) => Some(Setting::SizeHandling(x)),
            None => None,
        },
        SlotKey::CpuFreq => match settings.cpu_freq {
            Some(x) => Some(Setting::CpuFreq(x)),
            None => None,
        },
        SlotKey::Vreg => match settings.vreg {
            Some(x) => Some(Setting::Vreg(x)),
            None => None,
        },
        SlotKey::Led => match settings.led {
            Some(x) => Some(Setting::Led(x)),
            None => None,
        },
        SlotKey::Force16Bit => match settings.force_16bit {
            Some(x) => Some(Setting::Force16Bit(x)),
            None => None,
        },
    }
}

proof fn lemma_field(settings: SettingsView, setting: Setting, sets: SlotKey)
    ensures
        field(with_setting(settings, setting), sets) == if kind_of(setting) == sets {
            Some(setting)
        } else {
            field(settings, sets)
        },
{
}

/// The last part that names a thing decides what it is set to, and a thing that no part names is
/// not set.
proof fn lemma_last_part(
    slot: Seq<char>,
    parts: Seq<Seq<char>>,
    n: int,
    sets: SlotKey,
    catalog: Catalog,
    home: Option<Seq<char>>,
)
    requires
        0 <= n <= parts.len(),
        forall|i: int| 0 <= i < n ==> slot_key(part_key(#[trigger] parts[i])) is Some,
    ensures
        (forall|i: int| 0 <= i < n ==> !names(#[trigger] parts[i], sets)) ==> field(
            settings_of(slot, parts, n, catalog, home),
            sets,
        ) is None,
        forall|i: int| #[trigger]
            names_last(parts, i, n, sets) ==> field(
                settings_of(slot, parts, n, catalog, home),
                sets,
            ) == Some(
                setting_of(
                    slot,
                    part_key(parts[i]),
                    part_value(parts[i]),
                    sets,
                    catalog,
                    home,
                ),
            ),
    decreases n,
{
    if n > 0 {
        lemma_last_part(slot, parts, n - 1, sets, catalog, home);
        let part = parts[n - 1];
        let before = settings_of(slot, parts, n - 1, catalog, home);
        let kind = slot_key(part_key(part))->0;
        let setting = setting_of(slot, part_key(part), part_value(part), kind, catalog, home);
        lemma_kind_of(slot, part_key(part), part_value(part), kind, catalog, home);
        lemma_field(before, setting, sets);
        assert forall|i: int| #[trigger] names_last(parts, i, n, sets) implies field(
            settings_of(slot, parts, n, catalog, home),
            sets,
        ) == Some(
            setting_of(slot, part_key(parts[i]), part_value(parts[i]), sets, catalog, home),
        ) by {
            if i < n - 1 {
                assert(!names(parts[n - 1], sets));
                assert(names_last(parts, i, n - 1, sets));
            }
        }
    }
}

/// Where a thing is named at all, it is named last somewhere.
proof fn lemma_named_last(parts: Seq<Seq<char>>, n: int, sets: SlotKey) -> (i: int)
    requires
        0 <= n <= parts.len(),
        exists|i: int| 0 <= i < n && names(#[trigger] parts[i], sets),
    ensures
        names_last(parts, i, n, sets),
    decreases n,
{
    if names(parts[n - 1], sets) {
        n - 1
    } else {
        lemma_named_last(parts, n - 1, sets)
    }
}

/// Whether a thing is set is whether a part names it.
proof fn lemma_set_where_named(
    slot: Seq<char>,
    parts: Seq<Seq<char>>,
    sets: SlotKey,
    catalog: Catalog,
    home: Option<Seq<char>>,
)
    requires
        forall|i: int| 0 <= i < parts.len() ==> slot_key(part_key(#[trigger] parts[i])) is Some,
    ensures
        field(settings_of(slot, parts, parts.len() as int, catalog, home), sets) is Some <==> named(
            parts,
            sets,
        ),
{
    let n = parts.len() as int;
    lemma_last_part(slot, parts, n, sets, catalog, home);
    if named(parts, sets) {
        let i = lemma_named_last(parts, n, sets);
        assert(names_last(parts, i, n, sets));
    }
}

/// Whether a part has a value that is right for what its key sets.
pub open spec fn is_acceptable(slot: Seq<char>, part: Seq<char>, catalog: Catalog) -> bool {
    let key = part_key(part);
    let value = part_value(part);
    &&& part.contains('=')
    &&& names(part, SlotKey::File) || names(part, SlotKey::Type) || ((names(part, SlotKey::Cs1)
        || names(part, SlotKey::Cs2) || names(part, SlotKey::Cs3)) && cs_logic_of(
        slot,
        key,
        value,
    ) is Ok) || (names(part, SlotKey::SizeHandling) && size_handling_of_value(
        slot,
        value,
        catalog.size_handlings,
    ) is Ok) || (names(part, SlotKey::CpuFreq) && cpu_freq_of(
        slot,
        key,
        value,
        catalog.cpu_freqs,
    ) is Ok) || (names(part, SlotKey::Vreg) && vreg_of(
        slot,
        key,
        value,
        vreg_views(catalog.vregs.levels@),
    ) is Ok) || ((names(part, SlotKey::Led) || names(part, SlotKey::Force16Bit)) && bool_of(
        slot,
        key,
        value,
    ) is Ok)
}

proof fn lemma_acceptable(slot: Seq<char>, part: Seq<char>, catalog: Catalog)
    ensures
        is_acceptable(slot, part, catalog) == is_right(slot, part, catalog),
{
    lemma_split_once_parts(part, '=');
    match split_once(part, '=') {
        Some((key, value)) => {
            assert(part[key.len() as int] == '=');
        },
        None => {},
    }
}

/// Whether the parts of an argument can be read: each is acceptable, and no key comes twice.
pub open spec fn is_readable(slot: Seq<char>, catalog: Catalog) -> bool {
    let parts = split(slot, ',');
    &&& keys_differ(parts, parts.len() as int)
    &&& forall|i: int| 0 <= i < parts.len() ==> is_acceptable(slot, #[trigger] parts[i], catalog)
}

proof fn lemma_readable(slot: Seq<char>, catalog: Catalog)
    ensures
        is_readable(slot, catalog) <==> parts_error(
            slot,
            split(slot, ','),
            split(slot, ',').len() as int,
            catalog,
        ) is None,
        is_readable(slot, catalog) ==> forall|i: int|
            0 <= i < split(slot, ',').len() ==> slot_key(
                part_key(#[trigger] split(slot, ',')[i]),
            ) is Some,
{
    let parts = split(slot, ',');
    law_parts(slot, parts, parts.len() as int, catalog);
    assert forall|i: int| 0 <= i < parts.len() implies is_acceptable(
        slot,
        #[trigger] parts[i],
        catalog,
    ) == is_right(slot, parts[i], catalog) by {
        lemma_acceptable(slot, parts[i], catalog);
    }
    if is_readable(slot, catalog) {
        assert forall|i: int| 0 <= i < parts.len() implies slot_key(
            part_key(#[trigger] parts[i]),
        ) is Some by {
            assert(is_acceptable(slot, parts[i], catalog));
        }
    }
}

/// Whether the polarity of a line of the given name is given.
pub open spec fn polarity_given(parts: Seq<Seq<char>>, line: Seq<char>) -> bool {
    ||| line == "cs1"@ && named(parts, SlotKey::Cs1)
    ||| line == "cs2"@ && named(parts, SlotKey::Cs2)
    ||| line == "cs3"@ && named(parts, SlotKey::Cs3)
}

/// Whether a chip has a line of the given name.
pub open spec fn chip_has_line(chip: ChipTypeView, name: Seq<char>) -> bool {
    exists|i: int|
        0 <= i < chip.control_lines.len() && (#[trigger] chip.control_lines[i]).name == name
}

/// Whether the polarity of a line is given exactly where the line is configurable.
pub open spec fn line_fits(parts: Seq<Seq<char>>, chip: ChipTypeView, i: int) -> bool {
    polarity_given(parts, chip.control_lines[i].name) <==> chip.control_lines[i].line_type
        == ControlLineType::Configurable
}

/// Whether the parts fit a chip type and a board.
pub open spec fn fits(parts: Seq<Seq<char>>, chip: ChipTypeView, board: Board) -> bool {
    &&& supports(board, chip)
    &&& chip.function == ChipFunction::Ram || named(parts, SlotKey::File)
    &&& forall|i: int| 0 <= i < chip.control_lines.len() ==> #[trigger] line_fits(parts, chip, i)
    &&& named(parts, SlotKey::Cs1) ==> chip_has_line(chip, "cs1"@)
    &&& named(parts, SlotKey::Cs2) ==> chip_has_line(chip, "cs2"@)
    &&& named(parts, SlotKey::Cs3) ==> chip_has_line(chip, "cs3"@)
    &&& named(parts, SlotKey::Force16Bit) ==> board.chip_pins == 40
}

proof fn lemma_cs_literals()
    ensures
        "cs1"@ != "cs2"@,
        "cs1"@ != "cs3"@,
        "cs2"@ != "cs3"@,
{
    reveal_strlit("cs1");
    reveal_strlit("cs2");
    reveal_strlit("cs3");
    assert("cs1"@[2] == '1' && "cs2"@[2] == '2' && "cs3"@[2] == '3');
}

proof fn lemma_lines(slot: Seq<char>, parts: Seq<Seq<char>>, chip: ChipTypeView, n: int)
    requires
        0 <= n <= chip.control_lines.len(),
    ensures
        ({
            let (cs1, cs2, cs3) = (
                named(parts, SlotKey::Cs1),
                named(parts, SlotKey::Cs2),
                named(parts, SlotKey::Cs3),
            );
            lines_error(slot, chip, n, cs1, cs2, cs3) is None <==> forall|i: int|
                0 <= i < n ==> #[trigger] line_fits(parts, chip, i)
        }),
    decreases n,
{
    lemma_cs_literals();
    if n > 0 {
        lemma_lines(slot, parts, chip, n - 1);
        assert(line_fits(parts, chip, n - 1) == (line_error(
            slot,
            chip,
            chip.control_lines[n - 1],
            is_given(
                chip.control_lines[n - 1].name,
                named(parts, SlotKey::Cs1),
                named(parts, SlotKey::Cs2),
                named(parts, SlotKey::Cs3),
            ),
        ) is None));
    }
}

/// What parts that can be read set, as far as it decides whether they are accepted.
proof fn lemma_what_is_set(slot: Seq<char>, catalog: Catalog, home: Option<Seq<char>>)
    requires
        is_readable(slot, catalog),
    ensures
        ({
            let parts = split(slot, ',');
            let n = parts.len() as int;
            let settings = settings_of(slot, parts, n, catalog, home);
            &&& settings.file is Some <==> named(parts, SlotKey::File)
            &&& settings.chip_type is Some <==> named(parts, SlotKey::Type)
            &&& settings.cs1 is Some <==> named(parts, SlotKey::Cs1)
            &&& settings.cs2 is Some <==> named(parts, SlotKey::Cs2)
            &&& settings.cs3 is Some <==> named(parts, SlotKey::Cs3)
            &&& settings.force_16bit is Some <==> named(parts, SlotKey::Force16Bit)
            &&& forall|i: int| #[trigger]
                names_last(parts, i, n, SlotKey::Type) ==> settings.chip_type == Some(
                    part_value(parts[i]),
                )
        }),
{
    let parts = split(slot, ',');
    let n = parts.len() as int;
    lemma_readable(slot, catalog);
    lemma_set_where_named(slot, parts, SlotKey::File, catalog, home);
    lemma_set_where_named(slot, parts, SlotKey::Type, catalog, home);
    lemma_set_where_named(slot, parts, SlotKey::Cs1, catalog, home);
    lemma_set_where_named(slot, parts, SlotKey::Cs2, catalog, home);
    lemma_set_where_named(slot, parts, SlotKey::Cs3, catalog, home);
    lemma_set_where_named(slot, parts, SlotKey::Force16Bit, catalog, home);
    lemma_last_part(slot, parts, n, SlotKey::Type, catalog, home);
}

/// The chip type that an argument asks for: the one of the last part that names it.
pub open spec fn asks_for(slot: Seq<char>, i: int, name: Seq<char>, catalog: Catalog) -> bool {
    let parts = split(slot, ',');
    &&& is_readable(slot, catalog)
    &&& names_last(parts, i, parts.len() as int, SlotKey::Type)
    &&& part_value(parts[i]) == name
}

/// An argument is accepted exactly where its parts can be read, they name a chip type, and they
/// fit that and the board.
pub proof fn law_accepted_slots(
    slot: Seq<char>,
    board: Board,
    catalog: Catalog,
    home: Option<Seq<char>>,
)
    ensures
        slot_of(slot, board, catalog, home) is Ok <==> exists|i: int, chip: ChipTypeView|
            {
                &&& #[trigger] asks_for(slot, i, part_value(split(slot, ',')[i]), catalog)
                &&& chip_named(chip_views(catalog.chip_types@), part_value(split(slot, ',')[i]))
                    == Some(chip)
                &&& #[trigger] fits(split(slot, ','), chip, board)
            },
{
    let parts = split(slot, ',');
    let n = parts.len() as int;
    lemma_readable(slot, catalog);
    if slot_of(slot, board, catalog, home) is Ok {
        lemma_what_is_set(slot, catalog, home);
        let i = lemma_named_last(parts, n, SlotKey::Type);
        assert(names_last(parts, i, n, SlotKey::Type));
        let chip = chip_named(chip_views(catalog.chip_types@), part_value(parts[i]))->0;
        lemma_fits(slot, chip, board, catalog, home);
        assert(asks_for(slot, i, part_value(split(slot, ',')[i]), catalog));
        assert(fits(split(slot, ','), chip, board));
    }
    if exists|i: int, chip: ChipTypeView|
        {
            &&& #[trigger] asks_for(slot, i, part_value(split(slot, ',')[i]), catalog)
            &&& chip_named(chip_views(catalog.chip_types@), part_value(split(slot, ',')[i]))
                == Some(chip)
            &&& #[trigger] fits(split(slot, ','), chip, board)
        } {
        let (i, chip) = choose|i: int, chip: ChipTypeView|
            {
                &&& #[trigger] asks_for(slot, i, part_value(split(slot, ',')[i]), catalog)
                &&& chip_named(chip_views(catalog.chip_types@), part_value(split(slot, ',')[i]))
                    == Some(chip)
                &&& #[trigger] fits(split(slot, ','), chip, board)
            };
        lemma_what_is_set(slot, catalog, home);
        lemma_fits(slot, chip, board, catalog, home);
    }
}

proof fn lemma_fits(
    slot: Seq<char>,
    chip: ChipTypeView,
    board: Board,
    catalog: Catalog,
    home: Option<Seq<char>>,
)
    requires
        is_readable(slot, catalog),
    ensures
        ({
            let parts = split(slot, ',');
            let settings = settings_of(slot, parts, parts.len() as int, catalog, home);
            fits(parts, chip, board) <==> chip_error(slot, settings, chip, board, catalog) is None
        }),
{
    let parts = split(slot, ',');
    lemma_what_is_set(slot, catalog, home);
    lemma_lines(slot, parts, chip, chip.control_lines.len() as int);
    assert(chip_has_line(chip, "cs1"@) == has_line(chip, "cs1"@));
    assert(chip_has_line(chip, "cs2"@) == has_line(chip, "cs2"@));
    assert(chip_has_line(chip, "cs3"@) == has_line(chip, "cs3"@));
}

/// Each thing that an accepted argument says is what the last part that names it says, and it says
/// nothing of what no part names.
pub proof fn law_last_part_counts(
    slot: Seq<char>,
    i: int,
    board: Board,
    catalog: Catalog,
    home: Option<Seq<char>>,
)
    requires
        slot_of(slot, board, catalog, home) is Ok,
    ensures
        ({
            let parts = split(slot, ',');
            let n = parts.len() as int;
            let spec = slot_of(slot, board, catalog, home)->Ok_0;
            let key = part_key(parts[i]);
            let value = part_value(parts[i]);
            let low = value == "0"@ || value == "active_low"@;
            let high = value == "1"@ || value == "active_high"@;
            &&& names_last(parts, i, n, SlotKey::File) ==> spec.file == Some(
                expanded(value, home),
            )
            &&& names_last(parts, i, n, SlotKey::Type) ==> chip_named(
                chip_views(catalog.chip_types@),
                value,
            ) == Some(spec.chip_type)
            &&& names_last(parts, i, n, SlotKey::Cs1) ==> (low && spec.cs1 == Some(
                "active_low"@,
            )) || (high && spec.cs1 == Some("active_high"@))
            &&& names_last(parts, i, n, SlotKey::Cs2) ==> (low && spec.cs2 == Some(
                "active_low"@,
            )) || (high && spec.cs2 == Some("active_high"@))
            &&& names_last(parts, i, n, SlotKey::Cs3) ==> (low && spec.cs3 == Some(
                "active_low"@,
            )) || (high && spec.cs3 == Some("active_high"@))
            &&& names_last(parts, i, n, SlotKey::SizeHandling) ==> spec.size_handling is Some
                && size_handling_of_value(slot, value, catalog.size_handlings) == Ok::<
                Seq<char>,
                ErrorView,
            >(spec.size_handling->0)
            &&& names_last(parts, i, n, SlotKey::CpuFreq) ==> spec.cpu_freq is Some && cpu_freq_of(
                slot,
                key,
                value,
                catalog.cpu_freqs,
            ) == Ok::<FireCpuFreq, ErrorView>(spec.cpu_freq->0)
            &&& names_last(parts, i, n, SlotKey::Vreg) ==> spec.vreg is Some && vreg_of(
                slot,
                key,
                value,
                vreg_views(catalog.vregs.levels@),
            ) == Ok::<FireVregView, ErrorView>(spec.vreg->0)
            &&& names_last(parts, i, n, SlotKey::Led) ==> spec.led is Some && bool_of(
                slot,
                key,
                value,
            ) == Ok::<bool, ErrorView>(spec.led->0)
            &&& names_last(parts, i, n, SlotKey::Force16Bit) ==> spec.force_16bit is Some
                && bool_of(slot, key, value) == Ok::<bool, ErrorView>(spec.force_16bit->0)
        }),
{
    let parts = split(slot, ',');
    let n = parts.len() as int;
    lemma_readable(slot, catalog);
    lemma_last_part(slot, parts, n, SlotKey::File, catalog, home);
    lemma_last_part(slot, parts, n, SlotKey::Type, catalog, home);
    lemma_last_part(slot, parts, n, SlotKey::Cs1, catalog, home);
    lemma_last_part(slot, parts, n, SlotKey::Cs2, catalog, home);
    lemma_last_part(slot, parts, n, SlotKey::Cs3, catalog, home);
    lemma_last_part(slot, parts, n, SlotKey::SizeHandling, catalog, home);
    lemma_last_part(slot, parts, n, SlotKey::CpuFreq, catalog, home);
    lemma_last_part(slot, parts, n, SlotKey::Vreg, catalog, home);
    lemma_last_part(slot, parts, n, SlotKey::Led, catalog, home);
    lemma_last_part(slot, parts, n, SlotKey::Force16Bit, catalog, home);
    law_polarities(slot, part_key(parts[i]), part_value(parts[i]));
    if 0 <= i < n {
        assert(is_acceptable(slot, parts[i], catalog));
    }
}

/// An accepted argument says nothing of what none of its parts names.
pub proof fn law_nothing_else_is_said(
    slot: Seq<char>,
    board: Board,
    catalog: Catalog,
    home: Option<Seq<char>>,
)
    requires
        slot_of(slot, board, catalog, home) is Ok,
    ensures
        ({
            let parts = split(slot, ',');
            let spec = slot_of(slot, board, catalog, home)->Ok_0;
            &&& named(parts, SlotKey::Type)
            &&& spec.file is Some <==> named(parts, SlotKey::File)
            &&& spec.cs1 is Some <==> named(parts, SlotKey::Cs1)
            &&& spec.cs2 is Some <==> named(parts, SlotKey::Cs2)
            &&& spec.cs3 is Some <==> named(parts, SlotKey::Cs3)
            &&& spec.size_handling is Some <==> named(parts, SlotKey::SizeHandling)
            &&& spec.cpu_freq is Some <==> named(parts, SlotKey::CpuFreq)
            &&& spec.vreg is Some <==> named(parts, SlotKey::Vreg)
            &&& spec.led is Some <==> named(parts, SlotKey::Led)
            &&& spec.force_16bit is Some <==> named(parts, SlotKey::Force16Bit)
        }),
{
    let parts = split(slot, ',');
    lemma_readable(slot, catalog);
    lemma_what_is_set(slot, catalog, home);
    lemma_set_where_named(slot, parts, SlotKey::SizeHandling, catalog, home);
    lemma_set_where_named(slot, parts, SlotKey::CpuFreq, catalog, home);
    lemma_set_where_named(slot, parts, SlotKey::Vreg, catalog, home);
    lemma_set_where_named(slot, parts, SlotKey::Led, catalog, home);
}

/// The error of a result, if it is one.
pub open spec fn failure<T>(r: Result<T, ErrorView>, e: ErrorView) -> bool {
    r == Err::<T, ErrorView>(e)
}

/// The first part with which something is wrong decides how an argument is refused: for want of a
/// value, for a key that came before, for a key that is not known, or for its value.
pub proof fn law_part_errors(
    slot: Seq<char>,
    i: int,
    e: ErrorView,
    board: Board,
    catalog: Catalog,
    home: Option<Seq<char>>,
)
    requires
        0 <= i < split(slot, ',').len(),
        keys_differ(split(slot, ','), i),
        forall|j: int|
            0 <= j < i ==> is_acceptable(slot, #[trigger] split(slot, ',')[j], catalog),
    ensures
        ({
            let parts = split(slot, ',');
            let part = parts[i];
            let key = part_key(part);
            let value = part_value(part);
            let result = slot_of(slot, board, catalog, home);
            let again = exists|j: int| 0 <= j < i && part_key(#[trigger] parts[j]) == key;
            let checked_alone = part.contains('=') && !again;
            &&& !part.contains('=') ==> failure(
                result,
                slot_refusal(
                    "Slot key '"@ + part + "' is missing a value - expected '"@ + part
                        + "=<value>'"@,
                    slot,
                    ""@,
                ),
            )
            &&& part.contains('=') && again ==> failure(
                result,
                slot_refusal("Duplicate slot key '"@ + key + "' found."@, slot, ""@),
            )
            &&& checked_alone && slot_key(key) is None ==> failure(
                result,
                slot_refusal(
                    "Unrecognised slot key '"@ + key + "'"@,
                    slot,
                    "\n  Supported keys: file, type, cs1, cs2, cs3, size_handling, size, cpu-freq, cpu-vreg, led, force_16bit"@,
                ),
            )
            &&& checked_alone && (names(part, SlotKey::Cs1) || names(part, SlotKey::Cs2) || names(
                part,
                SlotKey::Cs3,
            )) && failure(cs_logic_of(slot, key, value), e) ==> failure(result, e)
            &&& checked_alone && names(part, SlotKey::SizeHandling) && failure(
                size_handling_of_value(slot, value, catalog.size_handlings),
                e,
            ) ==> failure(result, e)
            &&& checked_alone && names(part, SlotKey::CpuFreq) && failure(
                cpu_freq_of(slot, key, value, catalog.cpu_freqs),
                e,
            ) ==> failure(result, e)
            &&& checked_alone && names(part, SlotKey::Vreg) && failure(
                vreg_of(slot, key, value, vreg_views(catalog.vregs.levels@)),
                e,
            ) ==> failure(result, e)
            &&& checked_alone && (names(part, SlotKey::Led) || names(part, SlotKey::Force16Bit))
                && failure(bool_of(slot, key, value), e) ==> failure(result, e)
        }),
{
    let parts = split(slot, ',');
    let n = parts.len() as int;
    law_parts(slot, parts, i, catalog);
    assert forall|j: int| 0 <= j < i implies is_right(slot, #[trigger] parts[j], catalog) by {
        lemma_acceptable(slot, parts[j], catalog);
    }
    assert(parts_error(slot, parts, i, catalog) is None);
    assert(parts_error(slot, parts, i + 1, catalog) == part_error(slot, parts, i, catalog));
    lemma_split_once_parts(parts[i], '=');
    match split_once(parts[i], '=') {
        Some((key, value)) => {
            assert(parts[i][key.len() as int] == '=');
        },
        None => {},
    }
    if part_error(slot, parts, i, catalog) is Some {
        lemma_parts_error_stays(slot, parts, i + 1, n, catalog);
    }
}

/// An argument that can be read is refused where it names no chip type, or one that is not known.
pub proof fn law_chip_type_errors(
    slot: Seq<char>,
    i: int,
    board: Board,
    catalog: Catalog,
    home: Option<Seq<char>>,
)
    requires
        is_readable(slot, catalog),
    ensures
        ({
            let parts = split(slot, ',');
            let name = part_value(parts[i]);
            let result = slot_of(slot, board, catalog, home);
            &&& !named(parts, SlotKey::Type) ==> failure(
                result,
                slot_refusal("slot missing 'type' key"@, slot, ""@),
            )
            &&& names_last(parts, i, parts.len() as int, SlotKey::Type) && chip_named(
                chip_views(catalog.chip_types@),
                name,
            ) is None ==> failure(
                result,
                ErrorView::UnsupportedChipType(name, supported_names(board, catalog)),
            )
        }),
{
    lemma_readable(slot, catalog);
    lemma_what_is_set(slot, catalog, home);
}

/// An argument that names a known chip type is refused first where the board does not support it,
/// then where the file is missing, then for the first line whose polarity is missing or too much,
/// then for the first line that the chip does not have, and last for 16-bit mode.
pub proof fn law_fit_errors(
    slot: Seq<char>,
    i: int,
    chip: ChipTypeView,
    line: int,
    board: Board,
    catalog: Catalog,
    home: Option<Seq<char>>,
)
    requires
        asks_for(slot, i, part_value(split(slot, ',')[i]), catalog),
        chip_named(chip_views(catalog.chip_types@), part_value(split(slot, ',')[i])) == Some(chip),
    ensures
        ({
            let parts = split(slot, ',');
            let result = slot_of(slot, board, catalog, home);
            let lines = chip.control_lines;
            let filed = chip.function == ChipFunction::Ram || named(parts, SlotKey::File);
            let all_fit = forall|j: int|
                0 <= j < lines.len() ==> #[trigger] line_fits(parts, chip, j);
            let no_line = |name: Seq<char>|
                slot_refusal("Chip type "@ + chip.name + " has no "@ + name + " line"@, slot, ""@);
            let lacks1 = named(parts, SlotKey::Cs1) && !chip_has_line(chip, "cs1"@);
            let lacks2 = named(parts, SlotKey::Cs2) && !chip_has_line(chip, "cs2"@);
            let lacks3 = named(parts, SlotKey::Cs3) && !chip_has_line(chip, "cs3"@);
            &&& !supports(board, chip) ==> failure(
                result,
                ErrorView::UnsupportedBoardChipType(
                    chip.name,
                    join(chip.aliases, ", "@),
                    supported_names(board, catalog),
                ),
            )
            &&& supports(board, chip) && !filed ==> failure(
                result,
                slot_refusal("Missing 'file' key for ROM chip."@, slot, ""@),
            )
            &&& supports(board, chip) && filed && 0 <= line < lines.len() && !line_fits(
                parts,
                chip,
                line,
            ) && (forall|j: int| 0 <= j < line ==> #[trigger] line_fits(parts, chip, j))
                ==> failure(
                result,
                slot_refusal(
                    if lines[line].line_type == ControlLineType::Configurable {
                        "Chip type "@ + chip.name + " requires "@ + lines[line].name
                            + " to be specified"@
                    } else {
                        "Chip type "@ + chip.name + " has fixed active-low "@ + lines[line].name
                            + ", do not specify it"@
                    },
                    slot,
                    ""@,
                ),
            )
            &&& supports(board, chip) && filed && all_fit ==> {
                &&& lacks1 ==> failure(result, no_line("cs1"@))
                &&& !lacks1 && lacks2 ==> failure(result, no_line("cs2"@))
                &&& !lacks1 && !lacks2 && lacks3 ==> failure(result, no_line("cs3"@))
                &&& !lacks1 && !lacks2 && !lacks3 && named(parts, SlotKey::Force16Bit)
                    && board.chip_pins != 40 ==> failure(
                    result,
                    slot_refusal("force_16bit is only valid on 40-pin boards"@, slot, ""@),
                )
            }
        }),
{
    let parts = split(slot, ',');
    let settings = settings_of(slot, parts, parts.len() as int, catalog, home);
    lemma_readable(slot, catalog);
    lemma_what_is_set(slot, catalog, home);
    lemma_lines(slot, parts, chip, chip.control_lines.len() as int);
    lemma_cs_literals();
    assert(chip_has_line(chip, "cs1"@) == has_line(chip, "cs1"@));
    assert(chip_has_line(chip, "cs2"@) == has_line(chip, "cs2"@));
    assert(chip_has_line(chip, "cs3"@) == has_line(chip, "cs3"@));
    let (cs1, cs2, cs3) = (
        named(parts, SlotKey::Cs1),
        named(parts, SlotKey::Cs2),
        named(parts, SlotKey::Cs3),
    );
    if 0 <= line < chip.control_lines.len() && !line_fits(parts, chip, line) && (forall|j: int|
        0 <= j < line ==> #[trigger] line_fits(parts, chip, j)) {
        lemma_lines(slot, parts, chip, line);
        lemma_lines(slot, parts, chip, line + 1);
        assert(lines_error(slot, chip, line + 1, cs1, cs2, cs3) is Some);
        lemma_lines_error_stays(
            slot,
            chip,
            line + 1,
            chip.control_lines.len() as int,
            cs1,
            cs2,
            cs3,
        );
    }
    assert(slot_of(slot, board, catalog, home) == match chip_error(
        slot,
        settings,
        chip,
        board,
        catalog,
    ) {
        Some(e) => Err::<SlotSpecView, ErrorView>(e),
        None => checked(slot, settings, board, catalog),
    });
}

} // verus!
