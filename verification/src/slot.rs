//! `--slot` arguments: parts of the form `key=value` between commas, such as
//! `file=basic.bin,type=2364,cs1=0`.
use vstd::prelude::*;

use crate::catalog::{
    chip_named, chip_views, supports, vreg_views, Board, Catalog, ChipFunction, ChipType,
    ChipTypeView, ControlLineType, ControlLineView, FireCpuFreq, FireVreg, FireVregView,
};
use crate::error::{Error, ErrorView};
use crate::order::{sort_strings, sorted_texts};
use crate::slot_value::{
    bad_slot, bool_of, cpu_freq_of, cs_logic_of, expand_tilde, expanded, parse_bool,
    parse_cpu_freq, parse_cs_logic, parse_size_handling, parse_vreg, size_handling_of_value,
    slot_error, vreg_of,
};
use crate::text::{
    concat3, concat5, contains, cut, join, join_strings, opt_str, opt_text, pieces, same, split,
    split_once, str_texts, texts, trim, trimmed,
};

verus! {

/// What a `--slot` argument says, once it has been checked.
pub struct SlotSpec {
    pub file: Option<String>,
    pub chip_type: ChipType,
    pub cs1: Option<String>,
    pub cs2: Option<String>,
    pub cs3: Option<String>,
    pub size_handling: Option<String>,
    pub cpu_freq: Option<FireCpuFreq>,
    pub vreg: Option<FireVreg>,
    pub led: Option<bool>,
    pub force_16bit: Option<bool>,
}

/// What a `--slot` argument says, as a mathematical value.
#[verifier::ext_equal]
pub struct SlotSpecView {
    pub file: Option<Seq<char>>,
    pub chip_type: ChipTypeView,
    pub cs1: Option<Seq<char>>,
    pub cs2: Option<Seq<char>>,
    pub cs3: Option<Seq<char>>,
    pub size_handling: Option<Seq<char>>,
    pub cpu_freq: Option<FireCpuFreq>,
    pub vreg: Option<FireVregView>,
    pub led: Option<bool>,
    pub force_16bit: Option<bool>,
}

/// The voltage that an optional value holds.
pub open spec fn opt_vreg(vreg: Option<FireVreg>) -> Option<FireVregView> {
    match vreg {
        Some(v) => Some(v@),
        None => None,
    }
}

impl View for SlotSpec {
    type V = SlotSpecView;

    open spec fn view(&self) -> SlotSpecView {
        SlotSpecView {
            file: opt_text(self.file),
            chip_type: self.chip_type@,
            cs1: opt_text(self.cs1),
            cs2: opt_text(self.cs2),
            cs3: opt_text(self.cs3),
            size_handling: opt_text(self.size_handling),
            cpu_freq: self.cpu_freq,
            vreg: opt_vreg(self.vreg),
            led: self.led,
            force_16bit: self.force_16bit,
        }
    }
}

/// What a sequence of slots says.
pub open spec fn slot_views(slots: Seq<SlotSpec>) -> Seq<SlotSpecView> {
    Seq::new(slots.len(), |i: int| slots[i]@)
}

/// What a key sets.
#[derive(Debug, Clone, Copy)]
pub enum SlotKey {
    File,
    Type,
    Cs1,
    Cs2,
    Cs3,
    SizeHandling,
    CpuFreq,
    Vreg,
    Led,
    Force16Bit,
}

/// What the parts of a `--slot` argument have set.
struct Settings {
    file: Option<String>,
    chip_type: Option<String>,
    cs1: Option<String>,
    cs2: Option<String>,
    cs3: Option<String>,
    size_handling: Option<String>,
    cpu_freq: Option<FireCpuFreq>,
    vreg: Option<FireVreg>,
    led: Option<bool>,
    force_16bit: Option<bool>,
}

/// What the parts of a `--slot` argument have set, as a mathematical value.
#[verifier::ext_equal]
pub struct SettingsView {
    pub file: Option<Seq<char>>,
    pub chip_type: Option<Seq<char>>,
    pub cs1: Option<Seq<char>>,
    pub cs2: Option<Seq<char>>,
    pub cs3: Option<Seq<char>>,
    pub size_handling: Option<Seq<char>>,
    pub cpu_freq: Option<FireCpuFreq>,
    pub vreg: Option<FireVregView>,
    pub led: Option<bool>,
    pub force_16bit: Option<bool>,
}

impl View for Settings {
    type V = SettingsView;

    closed spec fn view(&self) -> SettingsView {
        SettingsView {
            file: opt_text(self.file),
            chip_type: opt_text(self.chip_type),
            cs1: opt_text(self.cs1),
            cs2: opt_text(self.cs2),
            cs3: opt_text(self.cs3),
            size_handling: opt_text(self.size_handling),
            cpu_freq: self.cpu_freq,
            vreg: opt_vreg(self.vreg),
            led: self.led,
            force_16bit: self.force_16bit,
        }
    }
}

/// What a key sets, by any of its names.
pub open spec fn slot_key(key: Seq<char>) -> Option<SlotKey> {
    if key == "file"@ || key == "path"@ || key == "url"@ {
        Some(SlotKey::File)
    } else if key == "type"@ || key == "rom-type"@ || key == "rom_type"@ || key == "chip_type"@
        || key == "chip-type"@ {
        Some(SlotKey::Type)
    } else if key == "cs1"@ {
        Some(SlotKey::Cs1)
    } else if key == "cs2"@ {
        Some(SlotKey::Cs2)
    } else if key == "cs3"@ {
        Some(SlotKey::Cs3)
    } else if key == "size_handling"@ || key == "size"@ {
        Some(SlotKey::SizeHandling)
    } else if key == "cpu"@ || key == "freq"@ || key == "frequency"@ || key == "cpu-freq"@ || key
        == "cpu_freq"@ || key == "cpu_frequency"@ || key == "cpu-frequency"@ {
        Some(SlotKey::CpuFreq)
    } else if key == "vreg"@ || key == "cpu-vreg"@ || key == "cpu_vreg"@ {
        Some(SlotKey::Vreg)
    } else if key == "led"@ || key == "status_led"@ || key == "status-led"@ {
        Some(SlotKey::Led)
    } else if key == "16bit"@ || key == "force_16bit"@ || key == "force_16_bit"@ || key
        == "force-16bit"@ || key == "force-16-bit"@ {
        Some(SlotKey::Force16Bit)
    } else {
        None
    }
}

/// The key of a part: what stands before its first equals sign, without white space around it.
pub open spec fn part_key(part: Seq<char>) -> Seq<char> {
    match split_once(part, '=') {
        Some((key, _)) => trim(key),
        None => part,
    }
}

/// The value of a part: what stands behind its first equals sign.
pub open spec fn part_value(part: Seq<char>) -> Seq<char> {
    match split_once(part, '=') {
        Some((_, value)) => value,
        None => Seq::empty(),
    }
}

/// The error of a result.
pub open spec fn error_of<T>(r: Result<T, ErrorView>) -> Option<ErrorView> {
    match r {
        Ok(_) => None,
        Err(e) => Some(e),
    }
}

/// What is wrong with the value of a key.
pub open spec fn value_error(
    slot: Seq<char>,
    key: Seq<char>,
    value: Seq<char>,
    sets: SlotKey,
    catalog: Catalog,
) -> Option<ErrorView> {
    match sets {
        SlotKey::File => None,
        SlotKey::Type => None,
        SlotKey::Cs1 => error_of(cs_logic_of(slot, key, value)),
        SlotKey::Cs2 => error_of(cs_logic_of(slot, key, value)),
        SlotKey::Cs3 => error_of(cs_logic_of(slot, key, value)),
        SlotKey::SizeHandling => error_of(
            size_handling_of_value(slot, value, catalog.size_handlings),
        ),
        SlotKey::CpuFreq => error_of(cpu_freq_of(slot, key, value, catalog.cpu_freqs)),
        SlotKey::Vreg => error_of(vreg_of(slot, key, value, vreg_views(catalog.vregs.levels@))),
        SlotKey::Led => error_of(bool_of(slot, key, value)),
        SlotKey::Force16Bit => error_of(bool_of(slot, key, value)),
    }
}

/// What is wrong with the part at `i`, after parts with which nothing is.
pub open spec fn part_error(
    slot: Seq<char>,
    parts: Seq<Seq<char>>,
    i: int,
    catalog: Catalog,
) -> Option<ErrorView> {
    let part = parts[i];
    let key = part_key(part);
    if split_once(part, '=') is None {
        Some(
            slot_error(
                "Slot key '"@ + part + "' is missing a value - expected '"@ + part
                    + "=<value>'"@,
                slot,
                ""@,
            ),
        )
    } else if exists|j: int| 0 <= j < i && part_key(#[trigger] parts[j]) == key {
        Some(slot_error("Duplicate slot key '"@ + key + "' found."@, slot, ""@))
    } else {
        match slot_key(key) {
            Some(sets) => value_error(slot, key, part_value(part), sets, catalog),
            None => Some(
                slot_error(
                    "Unrecognised slot key '"@ + key + "'"@,
                    slot,
                    "\n  Supported keys: file, type, cs1, cs2, cs3, size_handling, size, cpu-freq, cpu-vreg, led, force_16bit"@,
                ),
            ),
        }
    }
}

/// What is wrong with the first of the parts before `n` with which something is.
pub open spec fn parts_error(
    slot: Seq<char>,
    parts: Seq<Seq<char>>,
    n: int,
    catalog: Catalog,
) -> Option<ErrorView>
    decreases n,
{
    if n <= 0 {
        None
    } else if parts_error(slot, parts, n - 1, catalog) is Some {
        parts_error(slot, parts, n - 1, catalog)
    } else {
        part_error(slot, parts, n - 1, catalog)
    }
}

/// Nothing set.
pub open spec fn no_settings() -> SettingsView {
    SettingsView {
        file: None,
        chip_type: None,
        cs1: None,
        cs2: None,
        cs3: None,
        size_handling: None,
        cpu_freq: None,
        vreg: None,
        led: None,
        force_16bit: None,
    }
}

/// Something that a part sets, and what to.
#[verifier::ext_equal]
pub enum Setting {
    File(Seq<char>),
    Type(Seq<char>),
    Cs1(Seq<char>),
    Cs2(Seq<char>),
    Cs3(Seq<char>),
    SizeHandling(Seq<char>),
    CpuFreq(FireCpuFreq),
    Vreg(FireVregView),
    Led(bool),
    Force16Bit(bool),
}

/// What a key with a value sets, and what to, where nothing is wrong with the value.
pub open spec fn setting_of(
    slot: Seq<char>,
    key: Seq<char>,
    value: Seq<char>,
    sets: SlotKey,
    catalog: Catalog,
    home: Option<Seq<char>>,
) -> Setting {
    match sets {
        SlotKey::File => Setting::File(expanded(value, home)),
        SlotKey::Type => Setting::Type(value),
        SlotKey::Cs1 => Setting::Cs1(cs_logic_of(slot, key, value)->Ok_0),
        SlotKey::Cs2 => Setting::Cs2(cs_logic_of(slot, key, value)->Ok_0),
        SlotKey::Cs3 => Setting::Cs3(cs_logic_of(slot, key, value)->Ok_0),
        SlotKey::SizeHandling => Setting::SizeHandling(
            size_handling_of_value(slot, value, catalog.size_handlings)->Ok_0,
        ),
        SlotKey::CpuFreq => Setting::CpuFreq(
            cpu_freq_of(slot, key, value, catalog.cpu_freqs)->Ok_0,
        ),
        SlotKey::Vreg => Setting::Vreg(
            vreg_of(slot, key, value, vreg_views(catalog.vregs.levels@))->Ok_0,
        ),
        SlotKey::Led => Setting::Led(bool_of(slot, key, value)->Ok_0),
        SlotKey::Force16Bit => Setting::Force16Bit(bool_of(slot, key, value)->Ok_0),
    }
}

/// Settings with one of them made.
pub open spec fn with_setting(settings: SettingsView, setting: Setting) -> SettingsView {
    match setting {
        Setting::File(file) => SettingsView { file: Some(file), ..settings },
        Setting::Type(name) => SettingsView { chip_type: Some(name), ..settings },
        Setting::Cs1(logic) => SettingsView { cs1: Some(logic), ..settings },
        Setting::Cs2(logic) => SettingsView { cs2: Some(logic), ..settings },
        Setting::Cs3(logic) => SettingsView { cs3: Some(logic), ..settings },
        Setting::SizeHandling(name) => SettingsView { size_handling: Some(name), ..settings },
        Setting::CpuFreq(freq) => SettingsView { cpu_freq: Some(freq), ..settings },
        Setting::Vreg(vreg) => SettingsView { vreg: Some(vreg), ..settings },
        Setting::Led(on) => SettingsView { led: Some(on), ..settings },
        Setting::Force16Bit(on) => SettingsView { force_16bit: Some(on), ..settings },
    }
}

/// What is set once a key has been given a value, with which nothing is wrong.
pub open spec fn with_value(
    settings: SettingsView,
    slot: Seq<char>,
    key: Seq<char>,
    value: Seq<char>,
    sets: SlotKey,
    catalog: Catalog,
    home: Option<Seq<char>>,
) -> SettingsView {
    with_setting(settings, setting_of(slot, key, value, sets, catalog, home))
}

/// What the parts before `n` set, where nothing is wrong with any of them. Where two keys set the
/// same thing, the later one counts.
pub open spec fn settings_of(
    slot: Seq<char>,
    parts: Seq<Seq<char>>,
    n: int,
    catalog: Catalog,
    home: Option<Seq<char>>,
) -> SettingsView
    decreases n,
{
    if n <= 0 {
        no_settings()
    } else {
        with_value(
            settings_of(slot, parts, n - 1, catalog, home),
            slot,
            part_key(parts[n - 1]),
            part_value(parts[n - 1]),
            slot_key(part_key(parts[n - 1]))->0,
            catalog,
            home,
        )
    }
}

/// The names of the chip types for a board and of the plugin types, in order.
pub open spec fn supported_names(board: Board, catalog: Catalog) -> Seq<char> {
    join(
        sorted_texts(texts(board.chip_type_names@) + texts(catalog.plugin_names@)),
        ", "@,
    )
}

/// Whether the polarity of a line was given.
pub open spec fn is_given(line: Seq<char>, cs1: bool, cs2: bool, cs3: bool) -> bool {
    if line == "cs1"@ {
        cs1
    } else if line == "cs2"@ {
        cs2
    } else if line == "cs3"@ {
        cs3
    } else {
        false
    }
}

/// What is wrong with giving or not giving the polarity of a line: it must be given where the
/// line is configurable, and must not be where it is not.
pub open spec fn line_error(
    slot: Seq<char>,
    chip: ChipTypeView,
    line: ControlLineView,
    given: bool,
) -> Option<ErrorView> {
    match line.line_type {
        ControlLineType::Configurable => if given {
            None
        } else {
            Some(
                slot_error(
                    "Chip type "@ + chip.name + " requires "@ + line.name + " to be specified"@,
                    slot,
                    ""@,
                ),
            )
        },
        ControlLineType::FixedActiveLow => if given {
            Some(
                slot_error(
                    "Chip type "@ + chip.name + " has fixed active-low "@ + line.name
                        + ", do not specify it"@,
                    slot,
                    ""@,
                ),
            )
        } else {
            None
        },
    }
}

/// What is wrong with the first of a chip's lines before `n` with which something is.
pub open spec fn lines_error(
    slot: Seq<char>,
    chip: ChipTypeView,
    n: int,
    cs1: bool,
    cs2: bool,
    cs3: bool,
) -> Option<ErrorView>
    decreases n,
{
    if n <= 0 {
        None
    } else if lines_error(slot, chip, n - 1, cs1, cs2, cs3) is Some {
        lines_error(slot, chip, n - 1, cs1, cs2, cs3)
    } else {
        line_error(
            slot,
            chip,
            chip.control_lines[n - 1],
            is_given(chip.control_lines[n - 1].name, cs1, cs2, cs3),
        )
    }
}

/// Whether a chip has a line of the given name.
pub open spec fn has_line(chip: ChipTypeView, name: Seq<char>) -> bool {
    exists|i: int|
        0 <= i < chip.control_lines.len() && (#[trigger] chip.control_lines[i]).name == name
}

/// What is wrong with giving the polarity of a line: the chip must have it.
pub open spec fn no_line_error(
    slot: Seq<char>,
    chip: ChipTypeView,
    name: Seq<char>,
    given: bool,
) -> Option<ErrorView> {
    if given && !has_line(chip, name) {
        Some(slot_error("Chip type "@ + chip.name + " has no "@ + name + " line"@, slot, ""@))
    } else {
        None
    }
}

/// What is wrong with the polarities that were given for a chip: first of the chip's lines, then
/// of those that it does not have.
pub open spec fn cs_error(
    slot: Seq<char>,
    chip: ChipTypeView,
    cs1: bool,
    cs2: bool,
    cs3: bool,
) -> Option<ErrorView> {
    if lines_error(slot, chip, chip.control_lines.len() as int, cs1, cs2, cs3) is Some {
        lines_error(slot, chip, chip.control_lines.len() as int, cs1, cs2, cs3)
    } else if no_line_error(slot, chip, "cs1"@, cs1) is Some {
        no_line_error(slot, chip, "cs1"@, cs1)
    } else if no_line_error(slot, chip, "cs2"@, cs2) is Some {
        no_line_error(slot, chip, "cs2"@, cs2)
    } else {
        no_line_error(slot, chip, "cs3"@, cs3)
    }
}

/// What is wrong with settings for a chip type on a board.
pub open spec fn chip_error(
    slot: Seq<char>,
    settings: SettingsView,
    chip: ChipTypeView,
    board: Board,
    catalog: Catalog,
) -> Option<ErrorView> {
    let cs = cs_error(
        slot,
        chip,
        settings.cs1 is Some,
        settings.cs2 is Some,
        settings.cs3 is Some,
    );
    if !supports(board, chip) {
        Some(
            ErrorView::UnsupportedBoardChipType(
                chip.name,
                join(chip.aliases, ", "@),
                supported_names(board, catalog),
            ),
        )
    } else if chip.function != ChipFunction::Ram && settings.file is None {
        Some(slot_error("Missing 'file' key for ROM chip."@, slot, ""@))
    } else if cs is Some {
        cs
    } else if settings.force_16bit is Some && board.chip_pins != 40 {
        Some(slot_error("force_16bit is only valid on 40-pin boards"@, slot, ""@))
    } else {
        None
    }
}

/// The slot that settings amount to, for a chip type with which nothing is wrong.
pub open spec fn slot_with(settings: SettingsView, chip: ChipTypeView) -> SlotSpecView {
    SlotSpecView {
        file: settings.file,
        chip_type: chip,
        cs1: settings.cs1,
        cs2: settings.cs2,
        cs3: settings.cs3,
        size_handling: settings.size_handling,
        cpu_freq: settings.cpu_freq,
        vreg: settings.vreg,
        led: settings.led,
        force_16bit: settings.force_16bit,
    }
}

/// The slot that settings amount to on a board, or what is wrong with them.
pub open spec fn checked(
    slot: Seq<char>,
    settings: SettingsView,
    board: Board,
    catalog: Catalog,
) -> Result<SlotSpecView, ErrorView> {
    match settings.chip_type {
        None => Err(slot_error("slot missing 'type' key"@, slot, ""@)),
        Some(name) => match chip_named(chip_views(catalog.chip_types@), name) {
            None => Err(ErrorView::UnsupportedChipType(name, supported_names(board, catalog))),
            Some(chip) => match chip_error(slot, settings, chip, board, catalog) {
                Some(e) => Err(e),
                None => Ok(slot_with(settings, chip)),
            },
        },
    }
}

/// What a `--slot` argument says on a board, where `home` is the home directory.
pub open spec fn slot_of(
    slot: Seq<char>,
    board: Board,
    catalog: Catalog,
    home: Option<Seq<char>>,
) -> Result<SlotSpecView, ErrorView> {
    let parts = split(slot, ',');
    let n = parts.len() as int;
    match parts_error(slot, parts, n, catalog) {
        Some(e) => Err(e),
        None => checked(slot, settings_of(slot, parts, n, catalog, home), board, catalog),
    }
}

/// What is wrong with the first of the arguments before `n` with which something is.
pub open spec fn slots_error(
    list: Seq<Seq<char>>,
    n: int,
    board: Board,
    catalog: Catalog,
    home: Option<Seq<char>>,
) -> Option<ErrorView>
    decreases n,
{
    if n <= 0 {
        None
    } else if slots_error(list, n - 1, board, catalog, home) is Some {
        slots_error(list, n - 1, board, catalog, home)
    } else {
        error_of(slot_of(list[n - 1], board, catalog, home))
    }
}

/// What `--slot` arguments say, in their order, or the first error.
pub open spec fn slots_of(
    list: Seq<Seq<char>>,
    board: Board,
    catalog: Catalog,
    home: Option<Seq<char>>,
) -> Result<Seq<SlotSpecView>, ErrorView> {
    match slots_error(list, list.len() as int, board, catalog, home) {
        Some(e) => Err(e),
        None => Ok(Seq::new(list.len(), |i: int| slot_of(list[i], board, catalog, home)->Ok_0)),
    }
}

/// Whether a slot has a CPU frequency above the stock one.
pub open spec fn is_overclocked(slot: SlotSpecView, catalog: Catalog) -> bool {
    slot.cpu_freq matches Some(freq) && freq.above(catalog.cpu_freqs.stock)
}

/// Whether a slot has a voltage above the stock one.
pub open spec fn is_overvolted(slot: SlotSpecView, catalog: Catalog) -> bool {
    slot.vreg matches Some(vreg) && vreg.above(catalog.vregs.stock)
}

/// What the user must confirm before slots are built.
pub struct ConfirmationsRequired {
    /// A slot has a CPU frequency above the stock one.
    pub cpu_freq: bool,
    /// A slot has a voltage above the stock one.
    pub vreg: bool,
}

/// What must be confirmed of the given slots.
pub open spec fn confirmations_of(
    slots: Seq<SlotSpecView>,
    catalog: Catalog,
) -> ConfirmationsRequired {
    ConfirmationsRequired {
        cpu_freq: exists|i: int|
            0 <= i < slots.len() && is_overclocked(#[trigger] slots[i], catalog),
        vreg: exists|i: int| 0 <= i < slots.len() && is_overvolted(#[trigger] slots[i], catalog),
    }
}

/// What must be confirmed of the slots that `--slot` arguments say, or the first error.
pub open spec fn slot_confirmations_of(
    list: Seq<Seq<char>>,
    board: Board,
    catalog: Catalog,
    home: Option<Seq<char>>,
) -> Result<ConfirmationsRequired, ErrorView> {
    match slots_of(list, board, catalog, home) {
        Ok(slots) => Ok(confirmations_of(slots, catalog)),
        Err(e) => Err(e),
    }
}

/// What a key sets, by any of its names.
fn find_key(key: &str) -> (r: Option<SlotKey>)
    ensures
        r == slot_key(key@),
{
    if same(key, "file") || same(key, "path") || same(key, "url") {
        Some(SlotKey::File)
    } else if same(key, "type") || same(key, "rom-type") || same(key, "rom_type") || same(
        key,
        "chip_type",
    ) || same(key, "chip-type") {
        Some(SlotKey::Type)
    } else if same(key, "cs1") {
        Some(SlotKey::Cs1)
    } else if same(key, "cs2") {
        Some(SlotKey::Cs2)
    } else if same(key, "cs3") {
        Some(SlotKey::Cs3)
    } else if same(key, "size_handling") || same(key, "size") {
        Some(SlotKey::SizeHandling)
    } else if same(key, "cpu") || same(key, "freq") || same(key, "frequency") || same(
        key,
        "cpu-freq",
    ) || same(key, "cpu_freq") || same(key, "cpu_frequency") || same(key, "cpu-frequency") {
        Some(SlotKey::CpuFreq)
    } else if same(key, "vreg") || same(key, "cpu-vreg") || same(key, "cpu_vreg") {
        Some(SlotKey::Vreg)
    } else if same(key, "led") || same(key, "status_led") || same(key, "status-led") {
        Some(SlotKey::Led)
    } else if same(key, "16bit") || same(key, "force_16bit") || same(key, "force_16_bit") || same(
        key,
        "force-16bit",
    ) || same(key, "force-16-bit") {
        Some(SlotKey::Force16Bit)
    } else {
        None
    }
}

impl Settings {
    /// Nothing set.
    fn new() -> (r: Settings)
        ensures
            r@ == no_settings(),
    {
        Settings {
            file: None,
            chip_type: None,
            cs1: None,
            cs2: None,
            cs3: None,
            size_handling: None,
            cpu_freq: None,
            vreg: None,
            led: None,
            force_16bit: None,
        }
    }

    /// Gives a key a value.
    fn set(
        &mut self,
        slot: &str,
        key: &str,
        value: &str,
        sets: SlotKey,
        catalog: &Catalog,
        home: Option<&str>,
    ) -> (r: Result<(), Error>)
        ensures
            match r {
                Ok(_) => {
                    &&& value_error(slot@, key@, value@, sets, *catalog) is None
                    &&& final(self)@ == with_value(
                        old(self)@,
                        slot@,
                        key@,
                        value@,
                        sets,
                        *catalog,
                        opt_str(home),
                    )
                },
                Err(e) => {
                    &&& value_error(slot@, key@, value@, sets, *catalog) == Some(e@)
                    &&& final(self)@ == old(self)@
                },
            },
    {
        match sets {
            SlotKey::File => {
                self.file = Some(expand_tilde(value, home));
            },
            SlotKey::Type => {
                self.chip_type = Some(value.to_owned());
            },
            SlotKey::Cs1 => {
                match parse_cs_logic(slot, key, value) {
                    Ok(logic) => {
                        self.cs1 = Some(logic);
                    },
                    Err(e) => {
                        return Err(e);
                    },
                }
            },
            SlotKey::Cs2 => {
                match parse_cs_logic(slot, key, value) {
                    Ok(logic) => {
                        self.cs2 = Some(logic);
                    },
                    Err(e) => {
                        return Err(e);
                    },
                }
            },
            SlotKey::Cs3 => {
                match parse_cs_logic(slot, key, value) {
                    Ok(logic) => {
                        self.cs3 = Some(logic);
                    },
                    Err(e) => {
                        return Err(e);
                    },
                }
            },
            SlotKey::SizeHandling => {
                match parse_size_handling(slot, value, &catalog.size_handlings) {
                    Ok(handling) => {
                        self.size_handling = Some(handling);
                    },
                    Err(e) => {
                        return Err(e);
                    },
                }
            },
            SlotKey::CpuFreq => {
                match parse_cpu_freq(slot, key, value, &catalog.cpu_freqs) {
                    Ok(freq) => {
                        self.cpu_freq = Some(freq);
                    },
                    Err(e) => {
                        return Err(e);
                    },
                }
            },
            SlotKey::Vreg => {
                match parse_vreg(slot, key, value, &catalog.vregs) {
                    Ok(vreg) => {
                        self.vreg = Some(vreg);
                    },
                    Err(e) => {
                        return Err(e);
                    },
                }
            },
            SlotKey::Led => {
                match parse_bool(slot, key, value) {
                    Ok(on) => {
                        self.led = Some(on);
                    },
                    Err(e) => {
                        return Err(e);
                    },
                }
            },
            SlotKey::Force16Bit => {
                match parse_bool(slot, key, value) {
                    Ok(on) => {
                        self.force_16bit = Some(on);
                    },
                    Err(e) => {
                        return Err(e);
                    },
                }
            },
        }
        Ok(())
    }
}

/// An error among some parts is the error of more of them.
pub(crate) proof fn lemma_parts_error_stays(
    slot: Seq<char>,
    parts: Seq<Seq<char>>,
    i: int,
    n: int,
    catalog: Catalog,
)
    requires
        i <= n,
        parts_error(slot, parts, i, catalog) is Some,
    ensures
        parts_error(slot, parts, n, catalog) == parts_error(slot, parts, i, catalog),
    decreases n,
{
    if i < n {
        lemma_parts_error_stays(slot, parts, i, n - 1, catalog);
    }
}

/// Reads the parts of a `--slot` argument.
fn parse_parts(slot: &str, catalog: &Catalog, home: Option<&str>) -> (r: Result<Settings, Error>)
    ensures
        ({
            let parts = split(slot@, ',');
            let n = parts.len() as int;
            match r {
                Ok(settings) => {
                    &&& parts_error(slot@, parts, n, *catalog) is None
                    &&& settings@ == settings_of(slot@, parts, n, *catalog, opt_str(home))
                },
                Err(e) => parts_error(slot@, parts, n, *catalog) == Some(e@),
            }
        }),
{
    let list: Vec<&str> = pieces(slot, ',');
    let ghost parts = split(slot@, ',');
    let mut settings: Settings = Settings::new();
    let mut seen: Vec<&str> = Vec::new();
    let mut i: usize = 0;
    while i < list.len()
        invariant
            i <= list.len(),
            parts == str_texts(list@),
            parts == split(slot@, ','),
            seen@.len() == i,
            forall|j: int| 0 <= j < i ==> (#[trigger] seen@[j])@ == part_key(parts[j]),
            parts_error(slot@, parts, i as int, *catalog) is None,
            settings@ == settings_of(slot@, parts, i as int, *catalog, opt_str(home)),
        decreases list.len() - i,
    {
        let part: &str = list[i];
        proof {
            assert(parts[i as int] == part@);
            if parts_error(slot@, parts, i + 1, *catalog) is Some {
                lemma_parts_error_stays(slot@, parts, i + 1, parts.len() as int, *catalog);
            }
        }
        let (untrimmed, value): (&str, &str) = match cut(part, '=') {
            Some(both) => both,
            None => {
                return Err(
                    bad_slot(
                        concat5(
                            "Slot key '",
                            part,
                            "' is missing a value - expected '",
                            part,
                            "=<value>'",
                        ).as_str(),
                        slot,
                        "",
                    ),
                );
            },
        };
        let key: &str = trimmed(untrimmed);
        let repeated: bool = contains(&seen, key);
        proof {
            if repeated {
                let j = choose|j: int| 0 <= j < seen@.len() && str_texts(seen@)[j] == key@;
                assert(part_key(parts[j]) == seen@[j]@);
            } else {
                assert forall|j: int| 0 <= j < i implies part_key(#[trigger] parts[j]) != key@ by {
                    assert(str_texts(seen@)[j] == seen@[j]@);
                }
            }
        }
        if repeated {
            return Err(
                bad_slot(concat3("Duplicate slot key '", key, "' found.").as_str(), slot, ""),
            );
        }
        seen.push(key);
        match find_key(key) {
            Some(sets) => {
                match settings.set(slot, key, value, sets, catalog, home) {
                    Ok(_) => {},
                    Err(e) => {
                        return Err(e);
                    },
                }
            },
            None => {
                return Err(
                    bad_slot(
                        concat3("Unrecognised slot key '", key, "'").as_str(),
                        slot,
                        "\n  Supported keys: file, type, cs1, cs2, cs3, size_handling, size, cpu-freq, cpu-vreg, led, force_16bit",
                    ),
                );
            },
        }
        i = i + 1;
    }
    Ok(settings)
}

/// The names of the chip types for a board and of the plugin types, in order.
pub fn supported_chip_names_for_board(board: &Board, catalog: &Catalog) -> (r: String)
    ensures
        r@ == supported_names(*board, *catalog),
{
    let mut names: Vec<String> = Vec::new();
    push_all(&mut names, &board.chip_type_names);
    push_all(&mut names, &catalog.plugin_names);
    assert(texts(names@) =~= texts(board.chip_type_names@) + texts(catalog.plugin_names@));
    join_strings(&sort_strings(names), ", ")
}

/// An error among some lines is the error of more of them.
pub(crate) proof fn lemma_lines_error_stays(
    slot: Seq<char>,
    chip: ChipTypeView,
    i: int,
    n: int,
    cs1: bool,
    cs2: bool,
    cs3: bool,
)
    requires
        i <= n,
        lines_error(slot, chip, i, cs1, cs2, cs3) is Some,
    ensures
        lines_error(slot, chip, n, cs1, cs2, cs3) == lines_error(slot, chip, i, cs1, cs2, cs3),
    decreases n,
{
    if i < n {
        lemma_lines_error_stays(slot, chip, i, n - 1, cs1, cs2, cs3);
    }
}

/// Checks that a chip has a line, where its polarity was given.
fn check_line_exists(slot: &str, chip_type: &ChipType, name: &str, given: bool) -> (r: Result<
    (),
    Error,
>)
    ensures
        match r {
            Ok(_) => no_line_error(slot@, chip_type@, name@, given) is None,
            Err(e) => no_line_error(slot@, chip_type@, name@, given) == Some(e@),
        },
{
    if !given {
        return Ok(());
    }
    let lines = &chip_type.control_lines;
    let mut i: usize = 0;
    while i < lines.len()
        invariant
            i <= lines.len(),
            lines == chip_type.control_lines,
            forall|j: int|
                0 <= j < i ==> (#[trigger] chip_type@.control_lines[j]).name != name@,
        decreases lines.len() - i,
    {
        assert(chip_type@.control_lines[i as int].name == lines@[i as int].name@);
        if same(lines[i].name.as_str(), name) {
            return Ok(());
        }
        i = i + 1;
    }
    Err(
        bad_slot(
            concat5("Chip type ", chip_type.name.as_str(), " has no ", name, " line").as_str(),
            slot,
            "",
        ),
    )
}

/// Checks that the polarity of a line was given for each line that is configurable, for none that
/// is not, and for none that the chip does not have.
pub fn validate_cs_lines(
    slot: &str,
    chip_type: &ChipType,
    cs1: Option<&str>,
    cs2: Option<&str>,
    cs3: Option<&str>,
) -> (r: Result<(), Error>)
    ensures
        match r {
            Ok(_) => cs_error(slot@, chip_type@, cs1 is Some, cs2 is Some, cs3 is Some) is None,
            Err(e) => cs_error(slot@, chip_type@, cs1 is Some, cs2 is Some, cs3 is Some) == Some(
                e@,
            ),
        },
{
    let lines = &chip_type.control_lines;
    let ghost chip = chip_type@;
    let mut i: usize = 0;
    while i < lines.len()
        invariant
            i <= lines.len(),
            lines == chip_type.control_lines,
            chip == chip_type@,
            lines_error(slot@, chip, i as int, cs1 is Some, cs2 is Some, cs3 is Some) is None,
        decreases lines.len() - i,
    {
        let name: &str = lines[i].name.as_str();
        proof {
            assert(chip.control_lines[i as int] == lines@[i as int]@);
            if lines_error(slot@, chip, i + 1, cs1 is Some, cs2 is Some, cs3 is Some) is Some {
                lemma_lines_error_stays(
                    slot@,
                    chip,
                    i + 1,
                    chip.control_lines.len() as int,
                    cs1 is Some,
                    cs2 is Some,
                    cs3 is Some,
                );
            }
        }
        let given: bool = if same(name, "cs1") {
            cs1.is_some()
        } else if same(name, "cs2") {
            cs2.is_some()
        } else if same(name, "cs3") {
            cs3.is_some()
        } else {
            false
        };
        match lines[i].line_type {
            ControlLineType::Configurable => {
                if !given {
                    return Err(
                        bad_slot(
                            concat5(
                                "Chip type ",
                                chip_type.name.as_str(),
                                " requires ",
                                name,
                                " to be specified",
                            ).as_str(),
                            slot,
                            "",
                        ),
                    );
                }
            },
            ControlLineType::FixedActiveLow => {
                if given {
                    return Err(
                        bad_slot(
                            concat5(
                                "Chip type ",
                                chip_type.name.as_str(),
                                " has fixed active-low ",
                                name,
                                ", do not specify it",
                            ).as_str(),
                            slot,
                            "",
                        ),
                    );
                }
            },
        }
        i = i + 1;
    }
    match check_line_exists(slot, chip_type, "cs1", cs1.is_some()) {
        Ok(_) => {},
        Err(e) => {
            return Err(e);
        },
    }
    match check_line_exists(slot, chip_type, "cs2", cs2.is_some()) {
        Ok(_) => {},
        Err(e) => {
            return Err(e);
        },
    }
    check_line_exists(slot, chip_type, "cs3", cs3.is_some())
}

/// A string as a slice.
fn as_slice(string: &Option<String>) -> (r: Option<&str>)
    ensures
        opt_str(r) == opt_text(*string),
{
    match string {
        Some(s) => Some(s.as_str()),
        None => None,
    }
}

/// Checks settings, and makes a slot of them.
fn check_settings(slot: &str, settings: Settings, board: &Board, catalog: &Catalog) -> (r: Result<
    SlotSpec,
    Error,
>)
    ensures
        match r {
            Ok(spec) => checked(slot@, settings@, *board, *catalog) == Ok::<
                SlotSpecView,
                ErrorView,
            >(spec@),
            Err(e) => checked(slot@, settings@, *board, *catalog) == Err::<
                SlotSpecView,
                ErrorView,
            >(e@),
        },
{
    let chip_type_name: String = match &settings.chip_type {
        Some(name) => name.clone(),
        None => {
            return Err(bad_slot("slot missing 'type' key", slot, ""));
        },
    };
    let chip_type: &ChipType = match catalog.find_chip_type(chip_type_name.as_str()) {
        Some(chip_type) => chip_type,
        None => {
            return Err(
                Error::UnsupportedChipType(
                    chip_type_name,
                    supported_chip_names_for_board(board, catalog),
                ),
            );
        },
    };
    if !board.supports_chip_type(chip_type) {
        return Err(
            Error::UnsupportedBoardChipType(
                chip_type.name.clone(),
                join_strings(&chip_type.aliases, ", "),
                supported_chip_names_for_board(board, catalog),
            ),
        );
    }
    if chip_type.function != ChipFunction::Ram && settings.file.is_none() {
        return Err(bad_slot("Missing 'file' key for ROM chip.", slot, ""));
    }
    match validate_cs_lines(
        slot,
        chip_type,
        as_slice(&settings.cs1),
        as_slice(&settings.cs2),
        as_slice(&settings.cs3),
    ) {
        Ok(_) => {},
        Err(e) => {
            return Err(e);
        },
    }
    if settings.force_16bit.is_some() && board.chip_pins != 40 {
        return Err(bad_slot("force_16bit is only valid on 40-pin boards", slot, ""));
    }
    Ok(
        SlotSpec {
            file: settings.file,
            chip_type: chip_type.copy(),
            cs1: settings.cs1,
            cs2: settings.cs2,
            cs3: settings.cs3,
            size_handling: settings.size_handling,
            cpu_freq: settings.cpu_freq,
            vreg: settings.vreg,
            led: settings.led,
            force_16bit: settings.force_16bit,
        },
    )
}

/// Reads one `--slot` argument, for a board. `home` is the home directory, if it is known.
pub fn parse_slot(slot: &str, board: &Board, catalog: &Catalog, home: Option<&str>) -> (r: Result<
    SlotSpec,
    Error,
>)
    ensures
        match r {
            Ok(spec) => slot_of(slot@, *board, *catalog, opt_str(home)) == Ok::<
                SlotSpecView,
                ErrorView,
            >(spec@),
            Err(e) => slot_of(slot@, *board, *catalog, opt_str(home)) == Err::<
                SlotSpecView,
                ErrorView,
            >(e@),
        },
{
    match parse_parts(slot, catalog, home) {
        Ok(settings) => check_settings(slot, settings, board, catalog),
        Err(e) => Err(e),
    }
}

/// An error among some arguments is the error of more of them.
pub(crate) proof fn lemma_slots_error_stays(
    list: Seq<Seq<char>>,
    i: int,
    n: int,
    board: Board,
    catalog: Catalog,
    home: Option<Seq<char>>,
)
    requires
        i <= n,
        slots_error(list, i, board, catalog, home) is Some,
    ensures
        slots_error(list, n, board, catalog, home) == slots_error(list, i, board, catalog, home),
    decreases n,
{
    if i < n {
        lemma_slots_error_stays(list, i, n - 1, board, catalog, home);
    }
}

/// Reads all `--slot` arguments, for a board.
pub fn parse_slots(
    slots: &[String],
    board: &Board,
    catalog: &Catalog,
    home: Option<&str>,
) -> (r: Result<Vec<SlotSpec>, Error>)
    ensures
        match r {
            Ok(specs) => slots_of(texts(slots@), *board, *catalog, opt_str(home)) == Ok::<
                Seq<SlotSpecView>,
                ErrorView,
            >(slot_views(specs@)),
            Err(e) => slots_of(texts(slots@), *board, *catalog, opt_str(home)) == Err::<
                Seq<SlotSpecView>,
                ErrorView,
            >(e@),
        },
{
    let ghost list = texts(slots@);
    let mut specs: Vec<SlotSpec> = Vec::new();
    let mut i: usize = 0;
    while i < slots.len()
        invariant
            i <= slots.len(),
            list == texts(slots@),
            specs@.len() == i,
            slots_error(list, i as int, *board, *catalog, opt_str(home)) is None,
            forall|j: int|
                0 <= j < i ==> (#[trigger] specs@[j])@ == slot_of(
                    list[j],
                    *board,
                    *catalog,
                    opt_str(home),
                )->Ok_0,
        decreases slots.len() - i,
    {
        assert(list[i as int] == slots@[i as int]@);
        match parse_slot(slots[i].as_str(), board, catalog, home) {
            Ok(spec) => {
                specs.push(spec);
            },
            Err(e) => {
                proof {
                    lemma_slots_error_stays(
                        list,
                        i + 1,
                        list.len() as int,
                        *board,
                        *catalog,
                        opt_str(home),
                    );
                }
                return Err(e);
            },
        }
        i = i + 1;
    }
    assert(slot_views(specs@) =~= slots_of(list, *board, *catalog, opt_str(home))->Ok_0);
    Ok(specs)
}

/// What must be confirmed before the given slots are built.
pub fn check_confirmations(slots: &[SlotSpec], catalog: &Catalog) -> (r: ConfirmationsRequired)
    ensures
        r == confirmations_of(slot_views(slots@), *catalog),
{
    let ghost all = slot_views(slots@);
    let mut cpu_freq: bool = false;
    let mut vreg: bool = false;
    let mut i: usize = 0;
    while i < slots.len()
        invariant
            i <= slots.len(),
            all == slot_views(slots@),
            cpu_freq == exists|j: int|
                0 <= j < i && is_overclocked(#[trigger] all[j], *catalog),
            vreg == exists|j: int| 0 <= j < i && is_overvolted(#[trigger] all[j], *catalog),
        decreases slots.len() - i,
    {
        assert(all[i as int] == slots@[i as int]@);
        match &slots[i].cpu_freq {
            Some(freq) => {
                if freq.is_above(&catalog.cpu_freqs.stock) {
                    assert(is_overclocked(all[i as int], *catalog));
                    cpu_freq = true;
                }
            },
            None => {},
        }
        match &slots[i].vreg {
            Some(v) => {
                if v.is_above(catalog.vregs.stock) {
                    assert(is_overvolted(all[i as int], *catalog));
                    vreg = true;
                }
            },
            None => {},
        }
        i = i + 1;
    }
    ConfirmationsRequired { cpu_freq, vreg }
}

/// Reads `--slot` arguments only to find out what must be confirmed before they are built.
pub fn check_slot_confirmations(
    slots: &[String],
    board: &Board,
    catalog: &Catalog,
    home: Option<&str>,
) -> (r: Result<ConfirmationsRequired, Error>)
    ensures
        match r {
            Ok(required) => slots_of(texts(slots@), *board, *catalog, opt_str(home)) is Ok
                && required == confirmations_of(
                slots_of(texts(slots@), *board, *catalog, opt_str(home))->Ok_0,
                *catalog,
            ),
            Err(e) => slots_of(texts(slots@), *board, *catalog, opt_str(home)) == Err::<
                Seq<SlotSpecView>,
                ErrorView,
            >(e@),
        },
        match r {
            Ok(required) => slot_confirmations_of(texts(slots@), *board, *catalog, opt_str(home))
                == Ok::<ConfirmationsRequired, ErrorView>(required),
            Err(e) => slot_confirmations_of(texts(slots@), *board, *catalog, opt_str(home))
                == Err::<ConfirmationsRequired, ErrorView>(e@),
        },
{
    match parse_slots(slots, board, catalog, home) {
        Ok(parsed) => Ok(check_confirmations(parsed.as_slice(), catalog)),
        Err(e) => Err(e),
    }
}

/// Adds strings to the end of a list.
fn push_all(list: &mut Vec<String>, more: &Vec<String>)
    ensures
        texts(final(list)@) == texts(old(list)@) + texts(more@),
{
    let ghost before = texts(list@);
    let mut i: usize = 0;
    assert(texts(list@) =~= before + texts(more@).take(0));
    while i < more.len()
        invariant
            i <= more.len(),
            texts(list@) == before + texts(more@).take(i as int),
        decreases more.len() - i,
    {
        let ghost so_far = texts(list@);
        list.push(more[i].clone());
        assert(texts(list@) =~= so_far.push(more@[i as int]@));
        assert(texts(more@).take(i + 1) =~= texts(more@).take(i as int).push(more@[i as int]@));
        assert(texts(list@) =~= before + texts(more@).take(i + 1));
        i = i + 1;
    }
    assert(texts(more@).take(i as int) =~= texts(more@));
}

} // verus!
