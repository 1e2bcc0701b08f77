//! What holds of `--slot` arguments as a whole.
use vstd::prelude::*;

use crate::catalog::{
    chip_named, chip_views, is_named, spelled, spelling_views, supports, vreg_named, vreg_views,
    Board, Catalog, ChipFunction, ChipTypeView, ControlLineType, CpuFreqRange, FireCpuFreq,
    FireVregView, SizeHandlings,
};
use crate::error::ErrorView;
use crate::json::{is_plain, unescaped};
use crate::number::{decimal, is_digit, law_u16_of_decimal, lemma_decimal};
use crate::order::{lemma_text_order, sorted_texts, text_le};
use crate::slot::{
    checked, cs_error, has_line, is_given, lemma_slots_error_stays, line_error, lines_error,
    no_settings, part_key, part_value, parts_error, setting_of, settings_of, slot_key, slot_of,
    slots_error, slots_of, supported_names, value_error, with_setting, with_value, Setting,
    SettingsView, SlotKey, SlotSpecView,
};
use crate::slot_value::{
    bool_of, cpu_freq_of, is_ascii, size_handling_of_value, two_places, vreg_name, vreg_of,
    without_mhz, without_volt,
};
use crate::text::{
    ascii_lower, join, lemma_split_once_at, same_ignoring_case, split, split_once, texts,
};

verus! {

/// Whether what is set comes from the catalog.
pub open spec fn settings_are_offered(settings: SettingsView, catalog: Catalog) -> bool {
    &&& settings.cs1 matches Some(logic) ==> logic == "active_low"@ || logic == "active_high"@
    &&& settings.cs2 matches Some(logic) ==> logic == "active_low"@ || logic == "active_high"@
    &&& settings.cs3 matches Some(logic) ==> logic == "active_low"@ || logic == "active_high"@
    &&& settings.size_handling matches Some(name) ==> exists|text: Seq<char>| #[trigger]
        spelled(spelling_views(catalog.size_handlings.spellings@), text) == Some(name)
    &&& settings.cpu_freq matches Some(freq) ==> catalog.cpu_freqs.min_mhz <= freq.value
        <= catalog.cpu_freqs.max_mhz
    &&& settings.vreg matches Some(vreg) ==> vreg_views(catalog.vregs.levels@).contains(vreg)
}

/// A voltage that is found by name is one of those to choose from.
proof fn lemma_vreg_named(levels: Seq<FireVregView>, name: Seq<char>)
    ensures
        vreg_named(levels, name) matches Some(vreg) ==> levels.contains(vreg) && vreg.name == name,
    decreases levels.len(),
{
    if levels.len() > 0 {
        if levels[0].name == name {
            assert(levels.contains(levels[0]));
        } else {
            lemma_vreg_named(levels.drop_first(), name);
            match vreg_named(levels, name) {
                Some(vreg) => {
                    let i = choose|i: int|
                        0 <= i < levels.drop_first().len() && levels.drop_first()[i] == vreg;
                    assert(levels[i + 1] == vreg);
                },
                None => {},
            }
        }
    }
}

proof fn lemma_vreg_offered(
    slot: Seq<char>,
    key: Seq<char>,
    value: Seq<char>,
    levels: Seq<FireVregView>,
)
    ensures
        vreg_of(slot, key, value, levels) matches Ok(vreg) ==> levels.contains(vreg),
{
    match split_once(without_volt(value), '.') {
        Some((whole, frac)) => {
            match unescaped(vreg_name(whole, frac)) {
                Some(name) => {
                    lemma_vreg_named(levels, name);
                },
                None => {},
            }
        },
        None => {},
    }
}

/// The parts of an argument set only what the catalog offers.
proof fn lemma_settings_offered(
    slot: Seq<char>,
    parts: Seq<Seq<char>>,
    n: int,
    catalog: Catalog,
    home: Option<Seq<char>>,
)
    requires
        parts_error(slot, parts, n, catalog) is None,
    ensures
        settings_are_offered(settings_of(slot, parts, n, catalog, home), catalog),
    decreases n,
{
    if n > 0 {
        lemma_settings_offered(slot, parts, n - 1, catalog, home);
        let key = part_key(parts[n - 1]);
        let value = part_value(parts[n - 1]);
        lemma_vreg_offered(slot, key, value, vreg_views(catalog.vregs.levels@));
        match unescaped(value) {
            Some(text) => {
                assert(spelled(spelling_views(catalog.size_handlings.spellings@), text)
                    == spelled(spelling_views(catalog.size_handlings.spellings@), text));
            },
            None => {},
        }
    }
}

/// Where nothing is wrong with any of a chip's lines before `n`, nothing is wrong with each.
proof fn lemma_lines_are_right(
    slot: Seq<char>,
    chip: ChipTypeView,
    n: int,
    cs1: bool,
    cs2: bool,
    cs3: bool,
    i: int,
)
    requires
        lines_error(slot, chip, n, cs1, cs2, cs3) is None,
        0 <= i < n,
    ensures
        line_error(
            slot,
            chip,
            chip.control_lines[i],
            is_given(chip.control_lines[i].name, cs1, cs2, cs3),
        ) is None,
    decreases n,
{
    if i < n - 1 {
        lemma_lines_are_right(slot, chip, n - 1, cs1, cs2, cs3, i);
    }
}

/// Whether the polarity of a line is given in a slot.
pub open spec fn gives(slot: SlotSpecView, line: Seq<char>) -> bool {
    is_given(line, slot.cs1 is Some, slot.cs2 is Some, slot.cs3 is Some)
}

/// In an accepted slot the polarity of every configurable line is given, that of no other line
/// is, and none is given that the chip does not have.
pub proof fn law_control_lines(
    slot: Seq<char>,
    board: Board,
    catalog: Catalog,
    home: Option<Seq<char>>,
)
    requires
        slot_of(slot, board, catalog, home) is Ok,
    ensures
        ({
            let spec = slot_of(slot, board, catalog, home)->Ok_0;
            let lines = spec.chip_type.control_lines;
            &&& forall|i: int|
                0 <= i < lines.len() ==> (gives(spec, (#[trigger] lines[i]).name)
                    <==> lines[i].line_type == ControlLineType::Configurable)
            &&& spec.cs1 is Some ==> has_line(spec.chip_type, "cs1"@)
            &&& spec.cs2 is Some ==> has_line(spec.chip_type, "cs2"@)
            &&& spec.cs3 is Some ==> has_line(spec.chip_type, "cs3"@)
        }),
{
    let spec = slot_of(slot, board, catalog, home)->Ok_0;
    let chip = spec.chip_type;
    let (cs1, cs2, cs3) = (spec.cs1 is Some, spec.cs2 is Some, spec.cs3 is Some);
    assert(cs_error(slot, chip, cs1, cs2, cs3) is None);
    assert forall|i: int| 0 <= i < chip.control_lines.len() implies (gives(
        spec,
        (#[trigger] chip.control_lines[i]).name,
    ) <==> chip.control_lines[i].line_type == ControlLineType::Configurable) by {
        lemma_lines_are_right(
            slot,
            chip,
            chip.control_lines.len() as int,
            cs1,
            cs2,
            cs3,
            i,
        );
    }
}

/// An accepted slot has a chip type that the board supports, a file unless the chip is a RAM, and
/// sets 16-bit mode only on a board for chips with 40 pins.
pub proof fn law_board_fits(
    slot: Seq<char>,
    board: Board,
    catalog: Catalog,
    home: Option<Seq<char>>,
)
    requires
        slot_of(slot, board, catalog, home) is Ok,
    ensures
        ({
            let spec = slot_of(slot, board, catalog, home)->Ok_0;
            &&& chip_views(catalog.chip_types@).contains(spec.chip_type)
            &&& supports(board, spec.chip_type)
            &&& spec.chip_type.function != ChipFunction::Ram ==> spec.file is Some
            &&& spec.force_16bit is Some ==> board.chip_pins == 40
        }),
{
    let parts = split(slot, ',');
    let settings = settings_of(slot, parts, parts.len() as int, catalog, home);
    lemma_chip_named(chip_views(catalog.chip_types@), settings.chip_type->0);
}

/// A chip type that is found by name is one of those to choose from.
proof fn lemma_chip_named(chips: Seq<ChipTypeView>, s: Seq<char>)
    ensures
        chip_named(chips, s) matches Some(chip) ==> chips.contains(chip),
    decreases chips.len(),
{
    if chips.len() > 0 {
        assert(chips.contains(chips[0]));
        lemma_chip_named(chips.drop_first(), s);
        match chip_named(chips.drop_first(), s) {
            Some(chip) => {
                let i = choose|i: int|
                    0 <= i < chips.drop_first().len() && chips.drop_first()[i] == chip;
                assert(chips[i + 1] == chip);
            },
            None => {},
        }
    }
}

/// An accepted slot holds only what the catalog offers: polarities are written in one of two
/// ways, the CPU frequency is in range, and the voltage is one of those to choose from.
pub proof fn law_values_are_offered(
    slot: Seq<char>,
    board: Board,
    catalog: Catalog,
    home: Option<Seq<char>>,
)
    requires
        slot_of(slot, board, catalog, home) is Ok,
    ensures
        ({
            let spec = slot_of(slot, board, catalog, home)->Ok_0;
            &&& spec.cs1 matches Some(logic) ==> logic == "active_low"@ || logic
                == "active_high"@
            &&& spec.cs2 matches Some(logic) ==> logic == "active_low"@ || logic
                == "active_high"@
            &&& spec.cs3 matches Some(logic) ==> logic == "active_low"@ || logic
                == "active_high"@
            &&& spec.size_handling matches Some(name) ==> exists|text: Seq<char>| #[trigger]
                spelled(spelling_views(catalog.size_handlings.spellings@), text) == Some(name)
            &&& spec.cpu_freq matches Some(freq) ==> catalog.cpu_freqs.min_mhz <= freq.value
                <= catalog.cpu_freqs.max_mhz
            &&& spec.vreg matches Some(vreg) ==> vreg_views(catalog.vregs.levels@).contains(vreg)
        }),
{
    let parts = split(slot, ',');
    lemma_settings_offered(slot, parts, parts.len() as int, catalog, home);
}

/// Whether a part has a value, a key that is known, and a value that is right for it.
pub open spec fn is_right(slot: Seq<char>, part: Seq<char>, catalog: Catalog) -> bool {
    &&& split_once(part, '=') is Some
    &&& slot_key(part_key(part)) matches Some(sets) && value_error(
        slot,
        part_key(part),
        part_value(part),
        sets,
        catalog,
    ) is None
}

/// Whether no two of the parts before `n` have the same key.
pub open spec fn keys_differ(parts: Seq<Seq<char>>, n: int) -> bool {
    forall|i: int, j: int|
        0 <= i < j < n ==> part_key(#[trigger] parts[i]) != part_key(#[trigger] parts[j])
}

/// Nothing is wrong with parts exactly where each is right by itself and no key comes twice.
pub proof fn law_parts(slot: Seq<char>, parts: Seq<Seq<char>>, n: int, catalog: Catalog)
    requires
        0 <= n <= parts.len(),
    ensures
        parts_error(slot, parts, n, catalog) is None <==> keys_differ(parts, n) && forall|i: int|
            0 <= i < n ==> is_right(slot, #[trigger] parts[i], catalog),
    decreases n,
{
    if n > 0 {
        law_parts(slot, parts, n - 1, catalog);
        let last = parts[n - 1];
        if keys_differ(parts, n) {
            assert(keys_differ(parts, n - 1));
            assert forall|j: int| 0 <= j < n - 1 implies part_key(#[trigger] parts[j]) != part_key(
                last,
            ) by {}
        }
        if parts_error(slot, parts, n, catalog) is None {
            assert forall|i: int, j: int|
                0 <= i < j < n implies part_key(#[trigger] parts[i]) != part_key(
                #[trigger] parts[j],
            ) by {}
        }
    }
}

/// What is said of a value in an error depends on the argument that it stands in and on the name
/// of its key; whether it is right, and what it sets, does not.
proof fn lemma_value_stands_alone(
    settings: SettingsView,
    slot: Seq<char>,
    other: Seq<char>,
    key: Seq<char>,
    other_key: Seq<char>,
    value: Seq<char>,
    sets: SlotKey,
    catalog: Catalog,
    home: Option<Seq<char>>,
)
    requires
        value_error(slot, key, value, sets, catalog) is None,
    ensures
        value_error(other, other_key, value, sets, catalog) is None,
        with_value(settings, slot, key, value, sets, catalog, home) == with_value(
            settings,
            other,
            other_key,
            value,
            sets,
            catalog,
            home,
        ),
{
}

/// Whether two parts give the same thing the same value, by any names of its key.
pub open spec fn says_the_same(a: Seq<char>, b: Seq<char>) -> bool {
    &&& split_once(a, '=') is Some
    &&& split_once(b, '=') is Some
    &&& slot_key(part_key(a)) == slot_key(part_key(b))
    &&& part_value(a) == part_value(b)
}

/// What is set after a part.
#[verifier::opaque]
spec fn with_part(
    settings: SettingsView,
    slot: Seq<char>,
    part: Seq<char>,
    catalog: Catalog,
    home: Option<Seq<char>>,
) -> SettingsView {
    with_value(
        settings,
        slot,
        part_key(part),
        part_value(part),
        slot_key(part_key(part))->0,
        catalog,
        home,
    )
}

proof fn lemma_next_part(
    slot: Seq<char>,
    parts: Seq<Seq<char>>,
    n: int,
    catalog: Catalog,
    home: Option<Seq<char>>,
)
    requires
        0 < n,
    ensures
        settings_of(slot, parts, n, catalog, home) == with_part(
            settings_of(slot, parts, n - 1, catalog, home),
            slot,
            parts[n - 1],
            catalog,
            home,
        ),
{
    reveal(with_part);
}

proof fn lemma_part_stands_alone(
    settings: SettingsView,
    slot: Seq<char>,
    other: Seq<char>,
    part: Seq<char>,
    same: Seq<char>,
    catalog: Catalog,
    home: Option<Seq<char>>,
)
    requires
        is_right(slot, part, catalog),
        says_the_same(part, same),
    ensures
        is_right(other, same, catalog),
        with_part(settings, slot, part, catalog, home) == with_part(
            settings,
            other,
            same,
            catalog,
            home,
        ),
{
    reveal(with_part);
    lemma_value_stands_alone(
        settings,
        slot,
        other,
        part_key(part),
        part_key(same),
        part_value(part),
        slot_key(part_key(part))->0,
        catalog,
        home,
    );
}

/// What a setting is made for.
pub open spec fn kind_of(setting: Setting) -> SlotKey {
    match setting {
        Setting::File(_) => SlotKey::File,
        Setting::Type(_) => SlotKey::Type,
        Setting::Cs1(_) => SlotKey::Cs1,
        Setting::Cs2(_) => SlotKey::Cs2,
        Setting::Cs3(_) => SlotKey::Cs3,
        Setting::SizeHandling(_) => SlotKey::SizeHandling,
        Setting::CpuFreq(_) => SlotKey::CpuFreq,
        Setting::Vreg(_) => SlotKey::Vreg,
        Setting::Led(_) => SlotKey::Led,
        Setting::Force16Bit(_) => SlotKey::Force16Bit,
    }
}

pub(crate) proof fn lemma_kind_of(
    slot: Seq<char>,
    key: Seq<char>,
    value: Seq<char>,
    sets: SlotKey,
    catalog: Catalog,
    home: Option<Seq<char>>,
)
    ensures
        kind_of(setting_of(slot, key, value, sets, catalog, home)) == sets,
{
}

/// Settings of different things can be made in either order.
proof fn lemma_settings_commute(settings: SettingsView, x: Setting, y: Setting)
    requires
        kind_of(x) != kind_of(y),
    ensures
        with_setting(with_setting(settings, x), y) == with_setting(with_setting(settings, y), x),
{
}

/// Values of keys that set different things can be given in either order.
proof fn lemma_values_commute(
    settings: SettingsView,
    slot: Seq<char>,
    x: Seq<char>,
    y: Seq<char>,
    catalog: Catalog,
    home: Option<Seq<char>>,
)
    requires
        slot_key(part_key(x)) is Some,
        slot_key(part_key(y)) is Some,
        slot_key(part_key(x)) != slot_key(part_key(y)),
    ensures
        with_part(with_part(settings, slot, x, catalog, home), slot, y, catalog, home)
            == with_part(with_part(settings, slot, y, catalog, home), slot, x, catalog, home),
{
    reveal(with_part);
    let sets_x = slot_key(part_key(x))->0;
    let sets_y = slot_key(part_key(y))->0;
    let a = setting_of(slot, part_key(x), part_value(x), sets_x, catalog, home);
    let b = setting_of(slot, part_key(y), part_value(y), sets_y, catalog, home);
    lemma_kind_of(slot, part_key(x), part_value(x), sets_x, catalog, home);
    lemma_kind_of(slot, part_key(y), part_value(y), sets_y, catalog, home);
    lemma_settings_commute(settings, a, b);
}

/// The same parts set the same things in another argument, and so they do where two neighbours
/// that set different things change places.
proof fn lemma_swapped_settings(
    slot: Seq<char>,
    other: Seq<char>,
    parts: Seq<Seq<char>>,
    k: int,
    n: int,
    catalog: Catalog,
    home: Option<Seq<char>>,
)
    requires
        0 <= k < parts.len() - 1,
        0 <= n <= parts.len(),
        n != k + 1,
        forall|i: int| 0 <= i < parts.len() ==> is_right(slot, #[trigger] parts[i], catalog),
        slot_key(part_key(parts[k])) != slot_key(part_key(parts[k + 1])),
    ensures
        settings_of(slot, parts, n, catalog, home) == settings_of(
            other,
            swapped(parts, k),
            n,
            catalog,
            home,
        ),
    decreases n,
{
    let moved = swapped(parts, k);
    if n == k + 2 {
        lemma_swapped_settings(slot, other, parts, k, k, catalog, home);
        let x = parts[k];
        let y = parts[k + 1];
        let before = settings_of(slot, parts, k, catalog, home);
        assert(is_right(slot, x, catalog) && is_right(slot, y, catalog));
        lemma_next_part(slot, parts, k + 1, catalog, home);
        lemma_next_part(slot, parts, k + 2, catalog, home);
        lemma_next_part(other, moved, k + 1, catalog, home);
        lemma_next_part(other, moved, k + 2, catalog, home);
        assert(moved[k] == y && moved[k + 1] == x);
        lemma_part_stands_alone(before, slot, other, y, y, catalog, home);
        lemma_part_stands_alone(
            with_part(before, slot, y, catalog, home),
            slot,
            other,
            x,
            x,
            catalog,
            home,
        );
        lemma_values_commute(before, slot, x, y, catalog, home);
    } else if n > 0 {
        lemma_swapped_settings(slot, other, parts, k, n - 1, catalog, home);
        let part = parts[n - 1];
        assert(is_right(slot, part, catalog));
        assert(moved[n - 1] == part);
        lemma_next_part(slot, parts, n, catalog, home);
        lemma_next_part(other, moved, n, catalog, home);
        lemma_part_stands_alone(
            settings_of(slot, parts, n - 1, catalog, home),
            slot,
            other,
            part,
            part,
            catalog,
            home,
        );
    }
}

/// A sequence in which the items at `k` and after it have changed places.
pub open spec fn swapped(parts: Seq<Seq<char>>, k: int) -> Seq<Seq<char>> {
    parts.update(k, parts[k + 1]).update(k + 1, parts[k])
}

/// The order of parts that set different things does not matter: an argument is accepted, and
/// says the same, where two neighbours among them have changed places.
pub proof fn law_order_of_parts(
    slot: Seq<char>,
    other: Seq<char>,
    k: int,
    board: Board,
    catalog: Catalog,
    home: Option<Seq<char>>,
)
    requires
        0 <= k < split(slot, ',').len() - 1,
        split(other, ',') == swapped(split(slot, ','), k),
        slot_key(part_key(split(slot, ',')[k])) != slot_key(part_key(split(slot, ',')[k + 1])),
        slot_of(slot, board, catalog, home) is Ok,
    ensures
        slot_of(other, board, catalog, home) == slot_of(slot, board, catalog, home),
{
    let parts = split(slot, ',');
    let moved = split(other, ',');
    let n = parts.len() as int;
    law_parts(slot, parts, n, catalog);
    assert forall|i: int| 0 <= i < n implies is_right(other, #[trigger] moved[i], catalog) by {
        let from = if i == k {
            k + 1
        } else if i == k + 1 {
            k
        } else {
            i
        };
        let part = parts[from];
        assert(is_right(slot, part, catalog));
        lemma_part_stands_alone(no_settings(), slot, other, part, part, catalog, home);
    }
    assert(keys_differ(moved, n)) by {
        assert forall|i: int, j: int|
            0 <= i < j < n implies part_key(#[trigger] moved[i]) != part_key(
            #[trigger] moved[j],
        ) by {
            let a = if i == k {
                k + 1
            } else if i == k + 1 {
                k
            } else {
                i
            };
            let b = if j == k {
                k + 1
            } else if j == k + 1 {
                k
            } else {
                j
            };
            assert(moved[i] == parts[a] && moved[j] == parts[b]);
        }
    }
    law_parts(other, moved, n, catalog);
    lemma_swapped_settings(slot, other, parts, k, n, catalog, home);
    lemma_check_stands_alone(
        slot,
        other,
        settings_of(slot, parts, n, catalog, home),
        board,
        catalog,
    );
}

/// Settings that are accepted in an argument are accepted in another, and amount to the same.
proof fn lemma_check_stands_alone(
    slot: Seq<char>,
    other: Seq<char>,
    settings: SettingsView,
    board: Board,
    catalog: Catalog,
)
    requires
        checked(slot, settings, board, catalog) is Ok,
    ensures
        checked(other, settings, board, catalog) == checked(slot, settings, board, catalog),
{
    let chip = chip_named(chip_views(catalog.chip_types@), settings.chip_type->0)->0;
    let (cs1, cs2, cs3) = (settings.cs1 is Some, settings.cs2 is Some, settings.cs3 is Some);
    lemma_lines_stand_alone(
        slot,
        other,
        chip,
        chip.control_lines.len() as int,
        cs1,
        cs2,
        cs3,
    );
}

proof fn lemma_lines_stand_alone(
    slot: Seq<char>,
    other: Seq<char>,
    chip: ChipTypeView,
    n: int,
    cs1: bool,
    cs2: bool,
    cs3: bool,
)
    requires
        lines_error(slot, chip, n, cs1, cs2, cs3) is None,
    ensures
        lines_error(other, chip, n, cs1, cs2, cs3) is None,
    decreases n,
{
    if n > 0 {
        lemma_lines_stand_alone(slot, other, chip, n - 1, cs1, cs2, cs3);
    }
}

/// Parts that say the same, one by one, set the same things.
proof fn lemma_same_settings(
    slot: Seq<char>,
    other: Seq<char>,
    parts: Seq<Seq<char>>,
    same: Seq<Seq<char>>,
    n: int,
    catalog: Catalog,
    home: Option<Seq<char>>,
)
    requires
        0 <= n <= parts.len(),
        n <= same.len(),
        forall|i: int| 0 <= i < n ==> is_right(slot, #[trigger] parts[i], catalog),
        forall|i: int| 0 <= i < n ==> says_the_same(#[trigger] parts[i], same[i]),
    ensures
        settings_of(slot, parts, n, catalog, home) == settings_of(other, same, n, catalog, home),
    decreases n,
{
    if n > 0 {
        lemma_same_settings(slot, other, parts, same, n - 1, catalog, home);
        lemma_next_part(slot, parts, n, catalog, home);
        lemma_next_part(other, same, n, catalog, home);
        lemma_part_stands_alone(
            settings_of(slot, parts, n - 1, catalog, home),
            slot,
            other,
            parts[n - 1],
            same[n - 1],
            catalog,
            home,
        );
    }
}

/// All names of a key say the same: an argument is accepted, and says the same, where keys have
/// been replaced by other names of theirs, as long as no name comes twice.
pub proof fn law_key_names(
    slot: Seq<char>,
    other: Seq<char>,
    board: Board,
    catalog: Catalog,
    home: Option<Seq<char>>,
)
    requires
        split(other, ',').len() == split(slot, ',').len(),
        forall|i: int|
            0 <= i < split(slot, ',').len() ==> says_the_same(
                #[trigger] split(slot, ',')[i],
                split(other, ',')[i],
            ),
        keys_differ(split(other, ','), split(other, ',').len() as int),
        slot_of(slot, board, catalog, home) is Ok,
    ensures
        slot_of(other, board, catalog, home) == slot_of(slot, board, catalog, home),
{
    let parts = split(slot, ',');
    let same = split(other, ',');
    let n = parts.len() as int;
    law_parts(slot, parts, n, catalog);
    assert forall|i: int| 0 <= i < n implies is_right(other, #[trigger] same[i], catalog) by {
        assert(says_the_same(parts[i], same[i]));
        lemma_part_stands_alone(no_settings(), slot, other, parts[i], same[i], catalog, home);
    }
    law_parts(other, same, n, catalog);
    lemma_same_settings(slot, other, parts, same, n, catalog, home);
    lemma_check_stands_alone(
        slot,
        other,
        settings_of(slot, parts, n, catalog, home),
        board,
        catalog,
    );
}

/// Whether no two parts set the same thing.
pub open spec fn things_differ(parts: Seq<Seq<char>>) -> bool {
    forall|i: int, j: int|
        0 <= i < j < parts.len() ==> slot_key(part_key(#[trigger] parts[i])) != slot_key(
            part_key(#[trigger] parts[j]),
        )
}

/// Whether each part has a key that is known.
spec fn keys_known(parts: Seq<Seq<char>>) -> bool {
    forall|i: int| 0 <= i < parts.len() ==> slot_key(part_key(#[trigger] parts[i])) is Some
}

/// The parts before `n` alone decide what they set.
proof fn lemma_first_parts(
    slot: Seq<char>,
    a: Seq<Seq<char>>,
    b: Seq<Seq<char>>,
    n: int,
    catalog: Catalog,
    home: Option<Seq<char>>,
)
    requires
        0 <= n <= a.len(),
        n <= b.len(),
        forall|i: int| 0 <= i < n ==> #[trigger] a[i] == b[i],
    ensures
        settings_of(slot, a, n, catalog, home) == settings_of(slot, b, n, catalog, home),
    decreases n,
{
    if n > 0 {
        lemma_first_parts(slot, a, b, n - 1, catalog, home);
        assert(a[n - 1] == b[n - 1]);
    }
}

/// Where parts set different things, any one of them may as well come last.
proof fn lemma_part_comes_last(
    slot: Seq<char>,
    parts: Seq<Seq<char>>,
    i: int,
    n: int,
    catalog: Catalog,
    home: Option<Seq<char>>,
)
    requires
        0 <= i < n <= parts.len(),
        keys_known(parts),
        things_differ(parts),
    ensures
        settings_of(slot, parts, n, catalog, home) == with_part(
            settings_of(slot, parts.remove(i), n - 1, catalog, home),
            slot,
            parts[i],
            catalog,
            home,
        ),
    decreases n,
{
    let rest = parts.remove(i);
    lemma_next_part(slot, parts, n, catalog, home);
    if n == i + 1 {
        lemma_first_parts(slot, parts, rest, i, catalog, home);
    } else {
        lemma_part_comes_last(slot, parts, i, n - 1, catalog, home);
        lemma_next_part(slot, rest, n - 1, catalog, home);
        assert(rest[n - 2] == parts[n - 1]);
        lemma_values_commute(
            settings_of(slot, rest, n - 2, catalog, home),
            slot,
            parts[i],
            parts[n - 1],
            catalog,
            home,
        );
    }
}

/// The same parts in another order are known, and set different things, where they did.
proof fn lemma_reordered_parts(parts: Seq<Seq<char>>, moved: Seq<Seq<char>>)
    requires
        parts.to_multiset() == moved.to_multiset(),
    ensures
        parts.len() == moved.len(),
        forall|part: Seq<char>| parts.contains(part) <==> #[trigger] moved.contains(part),
        keys_known(parts) ==> keys_known(moved),
        things_differ(parts) ==> things_differ(moved),
{
    parts.to_multiset_ensures();
    moved.to_multiset_ensures();
    assert forall|part: Seq<char>| parts.contains(part) <==> #[trigger] moved.contains(part) by {
        assert(parts.contains(part) <==> parts.to_multiset().count(part) > 0);
        assert(moved.contains(part) <==> moved.to_multiset().count(part) > 0);
    }
    if keys_known(parts) {
        assert forall|i: int| 0 <= i < moved.len() implies slot_key(
            part_key(#[trigger] moved[i]),
        ) is Some by {
            assert(moved.contains(moved[i]));
            let a = choose|a: int| 0 <= a < parts.len() && parts[a] == moved[i];
            assert(slot_key(part_key(parts[a])) is Some);
        }
    }
    if things_differ(parts) {
        assert(parts.no_duplicates()) by {
            assert forall|i: int, j: int|
                0 <= i < parts.len() && 0 <= j < parts.len() && i != j implies parts[i]
                != parts[j] by {
                if i < j {
                    assert(slot_key(part_key(parts[i])) != slot_key(part_key(parts[j])));
                } else {
                    assert(slot_key(part_key(parts[j])) != slot_key(part_key(parts[i])));
                }
            }
        }
        parts.lemma_multiset_has_no_duplicates();
        moved.lemma_multiset_has_no_duplicates_conv();
        assert forall|i: int, j: int| 0 <= i < j < moved.len() implies slot_key(
            part_key(#[trigger] moved[i]),
        ) != slot_key(part_key(#[trigger] moved[j])) by {
            assert(moved.contains(moved[i]) && moved.contains(moved[j]));
            let a = choose|a: int| 0 <= a < parts.len() && parts[a] == moved[i];
            let b = choose|b: int| 0 <= b < parts.len() && parts[b] == moved[j];
            assert(moved[i] != moved[j]);
            if a < b {
                assert(slot_key(part_key(parts[a])) != slot_key(part_key(parts[b])));
            } else {
                assert(slot_key(part_key(parts[b])) != slot_key(part_key(parts[a])));
            }
        }
    }
}

/// Parts that set different things set the same in any order.
proof fn lemma_reordered_settings(
    slot: Seq<char>,
    parts: Seq<Seq<char>>,
    moved: Seq<Seq<char>>,
    catalog: Catalog,
    home: Option<Seq<char>>,
)
    requires
        parts.to_multiset() == moved.to_multiset(),
        keys_known(parts),
        things_differ(parts),
    ensures
        settings_of(slot, parts, parts.len() as int, catalog, home) == settings_of(
            slot,
            moved,
            moved.len() as int,
            catalog,
            home,
        ),
    decreases parts.len(),
{
    lemma_reordered_parts(parts, moved);
    let n = parts.len() as int;
    if n > 0 {
        assert(parts.contains(parts[n - 1]));
        assert(moved.contains(parts[n - 1]));
        let i = choose|i: int| 0 <= i < moved.len() && moved[i] == parts[n - 1];
        let before = parts.remove(n - 1);
        assert(things_differ(before)) by {
            assert(forall|j: int| 0 <= j < n - 1 ==> before[j] == parts[j]);
        }
        assert(keys_known(before));
        assert(before.to_multiset() == moved.remove(i).to_multiset()) by {
            parts.to_multiset_ensures();
            moved.to_multiset_ensures();
        }
        lemma_reordered_settings(slot, before, moved.remove(i), catalog, home);
        lemma_part_comes_last(slot, parts, n - 1, n, catalog, home);
        lemma_part_comes_last(slot, moved, i, n, catalog, home);
    }
}

/// Where no two parts set the same thing, their order does not matter at all: an argument of the
/// same parts in any other order is accepted, and says the same.
pub proof fn law_any_order_of_parts(
    slot: Seq<char>,
    other: Seq<char>,
    board: Board,
    catalog: Catalog,
    home: Option<Seq<char>>,
)
    requires
        split(other, ',').to_multiset() == split(slot, ',').to_multiset(),
        things_differ(split(slot, ',')),
        slot_of(slot, board, catalog, home) is Ok,
    ensures
        slot_of(other, board, catalog, home) == slot_of(slot, board, catalog, home),
{
    let parts = split(slot, ',');
    let moved = split(other, ',');
    let n = parts.len() as int;
    law_parts(slot, parts, n, catalog);
    assert(keys_known(parts)) by {
        assert forall|i: int| 0 <= i < n implies slot_key(
            part_key(#[trigger] parts[i]),
        ) is Some by {
            assert(is_right(slot, parts[i], catalog));
        }
    }
    lemma_reordered_parts(parts, moved);
    assert forall|i: int| 0 <= i < n implies is_right(slot, #[trigger] moved[i], catalog)
        && is_right(other, moved[i], catalog) by {
        assert(moved.contains(moved[i]));
        let a = choose|a: int| 0 <= a < n && parts[a] == moved[i];
        assert(is_right(slot, parts[a], catalog));
        lemma_part_stands_alone(
            no_settings(),
            slot,
            other,
            moved[i],
            moved[i],
            catalog,
            home,
        );
    }
    assert(keys_differ(moved, n)) by {
        assert forall|i: int, j: int| 0 <= i < j < n implies part_key(#[trigger] moved[i])
            != part_key(#[trigger] moved[j]) by {
            assert(slot_key(part_key(moved[i])) != slot_key(part_key(moved[j])));
        }
    }
    law_parts(other, moved, n, catalog);
    lemma_reordered_settings(slot, parts, moved, catalog, home);
    lemma_same_settings(slot, other, moved, moved, n, catalog, home);
    lemma_check_stands_alone(
        slot,
        other,
        settings_of(slot, parts, n, catalog, home),
        board,
        catalog,
    );
}

/// Where all arguments are accepted, what they say comes in their order; otherwise the first one
/// that is not accepted gives the error.
pub proof fn law_first_slot_error(
    list: Seq<Seq<char>>,
    i: int,
    board: Board,
    catalog: Catalog,
    home: Option<Seq<char>>,
)
    requires
        0 <= i <= list.len(),
        forall|j: int| 0 <= j < i ==> slot_of(#[trigger] list[j], board, catalog, home) is Ok,
        i < list.len() ==> slot_of(list[i], board, catalog, home) is Err,
    ensures
        if i < list.len() {
            slots_of(list, board, catalog, home) == Err::<Seq<SlotSpecView>, ErrorView>(
                slot_of(list[i], board, catalog, home)->Err_0,
            )
        } else {
            &&& slots_of(list, board, catalog, home) is Ok
            &&& slots_of(list, board, catalog, home)->Ok_0.len() == list.len()
            &&& forall|j: int|
                0 <= j < list.len() ==> slot_of(list[j], board, catalog, home) == Ok::<
                    SlotSpecView,
                    ErrorView,
                >(#[trigger] slots_of(list, board, catalog, home)->Ok_0[j])
        },
{
    lemma_no_slot_error(list, i, board, catalog, home);
    if i < list.len() {
        lemma_slots_error_stays(list, i + 1, list.len() as int, board, catalog, home);
    }
}

proof fn lemma_no_slot_error(
    list: Seq<Seq<char>>,
    i: int,
    board: Board,
    catalog: Catalog,
    home: Option<Seq<char>>,
)
    requires
        0 <= i <= list.len(),
        forall|j: int| 0 <= j < i ==> slot_of(#[trigger] list[j], board, catalog, home) is Ok,
    ensures
        slots_error(list, i, board, catalog, home) is None,
    decreases i,
{
    if i > 0 {
        lemma_no_slot_error(list, i - 1, board, catalog, home);
        assert(slot_of(list[i - 1], board, catalog, home) is Ok);
    }
}

/// A number of MHz says itself, with or without the unit, where it is in range.
pub proof fn law_cpu_freq_forms(slot: Seq<char>, key: Seq<char>, mhz: u16, range: CpuFreqRange)
    requires
        range.min_mhz <= mhz <= range.max_mhz,
    ensures
        cpu_freq_of(slot, key, decimal(mhz as nat), range) == Ok::<FireCpuFreq, ErrorView>(
            FireCpuFreq { value: mhz },
        ),
        cpu_freq_of(slot, key, decimal(mhz as nat) + "MHz"@, range) == Ok::<
            FireCpuFreq,
            ErrorView,
        >(FireCpuFreq { value: mhz }),
{
    let digits = decimal(mhz as nat);
    let n = digits.len() as int;
    lemma_decimal(mhz as nat);
    law_u16_of_decimal(mhz);
    reveal_strlit("mhz");
    reveal_strlit("MHz");
    if n >= 3 {
        assert(is_digit(digits[n - 3]));
        assert(digits.skip(n - 3)[0] == digits[n - 3]);
        assert(ascii_lower(digits.skip(n - 3)[0]) != ascii_lower("mhz"@[0]));
    }
    assert(without_mhz(digits) == digits);
    let value = digits + "MHz"@;
    assert(value.skip(n) =~= "MHz"@);
    assert(value.take(n) =~= digits);
    assert(same_ignoring_case(value.skip(n), "mhz"@));
    assert(without_mhz(value) == digits);
}

/// A voltage with one decimal place says the same as with a zero behind it, and with the unit,
/// capital or not.
pub proof fn law_vreg_forms(
    slot: Seq<char>,
    key: Seq<char>,
    whole: Seq<char>,
    place: char,
    levels: Seq<FireVregView>,
)
    requires
        !whole.contains('.'),
        place != 'v' && place != 'V',
    ensures
        ({
            let short = whole + seq!['.'] + seq![place];
            let long = whole + seq!['.'] + seq![place, '0'];
            let vreg = |value: Seq<char>|
                match vreg_of(slot, key, value, levels) {
                    Ok(vreg) => Some(vreg),
                    Err(_) => None,
                };
            &&& vreg(short) == vreg(long)
            &&& vreg(long) == vreg(long.push('V'))
            &&& vreg(long) == vreg(long.push('v'))
            &&& vreg(long) == vreg(short.push('V'))
            &&& vreg(long) == vreg(short.push('v'))
        }),
{
    let short = whole + seq!['.'] + seq![place];
    let long = whole + seq!['.'] + seq![place, '0'];
    reveal_strlit("0");
    lemma_split_once_at(whole, '.', seq![place]);
    lemma_split_once_at(whole, '.', seq![place, '0']);
    assert(without_volt(short) == short);
    assert(without_volt(long) == long);
    assert(long.push('V').drop_last() =~= long);
    assert(long.push('v').drop_last() =~= long);
    assert(short.push('V').drop_last() =~= short);
    assert(short.push('v').drop_last() =~= short);
    assert(two_places(seq![place]) =~= seq![place, '0']);
    assert(is_ascii(seq![place]) == is_ascii(seq![place, '0'])) by {
        assert(seq![place][0] == place);
        assert(seq![place, '0'][0] == place);
    }
}

/// The name of a voltage says that voltage, where it has two decimal places.
pub proof fn law_vreg_name_reads_back(
    slot: Seq<char>,
    key: Seq<char>,
    whole: Seq<char>,
    frac: Seq<char>,
    levels: Seq<FireVregView>,
)
    requires
        !whole.contains('.'),
        frac.len() == 2,
        is_ascii(frac),
        forall|i: int| 0 <= i < whole.len() ==> is_plain(#[trigger] whole[i]),
        forall|i: int| 0 <= i < frac.len() ==> is_plain(#[trigger] frac[i]),
        vreg_named(levels, vreg_name(whole, frac)) is Some,
    ensures
        vreg_of(slot, key, vreg_name(whole, frac), levels) == Ok::<FireVregView, ErrorView>(
            vreg_named(levels, vreg_name(whole, frac))->0,
        ),
{
    let name = vreg_name(whole, frac);
    reveal_strlit(".");
    reveal_strlit("V");
    assert("."@ =~= seq!['.']);
    assert(name.drop_last() =~= whole + seq!['.'] + frac);
    lemma_split_once_at(whole, '.', frac);
    assert forall|i: int| 0 <= i < name.len() implies is_plain(#[trigger] name[i]) by {
        if i < whole.len() {
            assert(name[i] == whole[i]);
        } else if whole.len() < i < whole.len() + 3 {
            assert(name[i] == frac[i - whole.len() - 1]);
        }
    }
    assert(!name.contains('\\'));
}

/// What a text spells is the value of one of the spellings.
proof fn lemma_spelled(spellings: Seq<(Seq<char>, Seq<char>)>, text: Seq<char>)
    ensures
        spelled(spellings, text) matches Some(value) ==> exists|i: int|
            0 <= i < spellings.len() && (#[trigger] spellings[i]).1 == value,
    decreases spellings.len(),
{
    if spellings.len() > 0 && spellings[0].0 != text {
        let rest = spellings.drop_first();
        lemma_spelled(rest, text);
        match spelled(rest, text) {
            Some(value) => {
                let i = choose|i: int| 0 <= i < rest.len() && (#[trigger] rest[i]).1 == value;
                assert(spellings[i + 1].1 == value);
            },
            None => {},
        }
    }
}

/// A value that something spells says itself.
pub proof fn law_size_handling_says_itself(
    slot: Seq<char>,
    text: Seq<char>,
    names: SizeHandlings,
)
    requires
        names.values_spell_themselves(),
        spelled(spelling_views(names.spellings@), text) is Some,
    ensures
        ({
            let name = spelled(spelling_views(names.spellings@), text)->0;
            size_handling_of_value(slot, name, names) == Ok::<Seq<char>, ErrorView>(name)
        }),
{
    let spellings = spelling_views(names.spellings@);
    let name = spelled(spellings, text)->0;
    lemma_spelled(spellings, text);
    let i = choose|i: int| 0 <= i < spellings.len() && (#[trigger] spellings[i]).1 == name;
    assert(spellings[i].1 == name);
    assert(!name.contains('\\'));
    assert(unescaped(name) == Some(name));
}

/// What is read of a `size_handling` is in its normal form: read again, in whichever argument, it
/// gives itself.
pub proof fn law_size_handling_is_normal(
    slot: Seq<char>,
    other: Seq<char>,
    value: Seq<char>,
    names: SizeHandlings,
)
    requires
        names.values_spell_themselves(),
        size_handling_of_value(slot, value, names) is Ok,
    ensures
        ({
            let name = size_handling_of_value(slot, value, names)->Ok_0;
            size_handling_of_value(other, name, names) == Ok::<Seq<char>, ErrorView>(name)
        }),
{
    law_size_handling_says_itself(other, unescaped(value)->0, names);
}

/// A truth value in ASCII says the same in capital letters and small ones.
pub proof fn law_bool_ignores_case(slot: Seq<char>, key: Seq<char>, a: Seq<char>, b: Seq<char>)
    requires
        is_ascii(a),
        same_ignoring_case(a, b),
    ensures
        bool_of(slot, key, a) == bool_of(slot, key, b),
{
    assert forall|i: int| 0 <= i < b.len() implies (#[trigger] b[i]) as u32 <= 0x7f by {
        assert(a[i] as u32 <= 0x7f);
        assert(ascii_lower(a[i]) == ascii_lower(b[i]));
    }
    assert(a.map_values(|c: char| ascii_lower(c)) =~= b.map_values(|c: char| ascii_lower(c)));
}

/// A chip type is found by each of its names in capital letters and small ones.
pub proof fn law_chip_names_ignore_case(chips: Seq<ChipTypeView>, a: Seq<char>, b: Seq<char>)
    requires
        same_ignoring_case(a, b),
    ensures
        chip_named(chips, a) == chip_named(chips, b),
    decreases chips.len(),
{
    if chips.len() > 0 {
        let names = chips[0].aliases;
        assert forall|i: int| 0 <= i < names.len() implies same_ignoring_case(
            #[trigger] names[i],
            a,
        ) == same_ignoring_case(names[i], b) by {
            assert forall|j: int|
                0 <= j < a.len() && a.len() == names[i].len() implies (ascii_lower(
                #[trigger] names[i][j],
            ) == ascii_lower(a[j])) == (ascii_lower(names[i][j]) == ascii_lower(b[j])) by {
                assert(ascii_lower(a[j]) == ascii_lower(b[j]));
            }
        }
        assert(is_named(chips[0], a) == is_named(chips[0], b));
        law_chip_names_ignore_case(chips.drop_first(), a, b);
    }
}

/// The names that an error lists are those of the board and of the plugin types, in ascending
/// order.
pub proof fn law_supported_names(board: Board, catalog: Catalog)
    ensures
        ({
            let names = texts(board.chip_type_names@) + texts(catalog.plugin_names@);
            let listed = sorted_texts(names);
            &&& supported_names(board, catalog) == join(listed, ", "@)
            &&& listed.to_multiset() == names.to_multiset()
            &&& forall|i: int, j: int|
                0 <= i < j < listed.len() ==> text_le(#[trigger] listed[i], #[trigger] listed[j])
        }),
{
    let names = texts(board.chip_type_names@) + texts(catalog.plugin_names@);
    let leq = |a: Seq<char>, b: Seq<char>| text_le(a, b);
    lemma_text_order();
    names.lemma_sort_by_ensures(leq);
    let listed = sorted_texts(names);
    assert forall|i: int, j: int| 0 <= i < j < listed.len() implies text_le(
        #[trigger] listed[i],
        #[trigger] listed[j],
    ) by {
        assert(leq(listed[i], listed[j]));
    }
}

} // verus!
