//! Boards, chips and firmware settings: what there is to choose from.
//!
//! A [`Catalog`] and a [`Board`] are plain values. They hold what the One ROM tooling knows of
//! chip types, of the settings of the Fire firmware, and of a board.
use vstd::prelude::*;

use crate::json::is_plain;
use crate::text::{same, same_except_case, same_ignoring_case, texts};

verus! {

/// What a chip is.
#[derive(Debug, Clone, Copy, PartialEq, Eq, Structural)]
pub enum ChipFunction {
    /// Read-only memory.
    Rom,
    /// Random-access memory.
    Ram,
    /// A plugin, which is no chip.
    Plugin,
}

/// How a control line behaves.
#[derive(Debug, Clone, Copy, PartialEq, Eq, Structural)]
pub enum ControlLineType {
    /// The user says whether it is active low or active high.
    Configurable,
    /// It is always active low.
    FixedActiveLow,
}

/// A control line of a chip.
#[derive(Debug)]
pub struct ControlLine {
    /// The name, such as `cs1` or `oe`.
    pub name: String,
    pub line_type: ControlLineType,
}

/// A type of chip.
#[derive(Debug)]
pub struct ChipType {
    /// The name, such as `2364`.
    pub name: String,
    /// All names: the one above, and those that stand for it.
    pub aliases: Vec<String>,
    pub function: ChipFunction,
    pub control_lines: Vec<ControlLine>,
}

/// A control line as a mathematical value.
#[verifier::ext_equal]
pub struct ControlLineView {
    pub name: Seq<char>,
    pub line_type: ControlLineType,
}

/// A type of chip as a mathematical value.
#[verifier::ext_equal]
pub struct ChipTypeView {
    pub name: Seq<char>,
    pub aliases: Seq<Seq<char>>,
    pub function: ChipFunction,
    pub control_lines: Seq<ControlLineView>,
}

impl View for ControlLine {
    type V = ControlLineView;

    open spec fn view(&self) -> ControlLineView {
        ControlLineView { name: self.name@, line_type: self.line_type }
    }
}

impl View for ChipType {
    type V = ChipTypeView;

    open spec fn view(&self) -> ChipTypeView {
        ChipTypeView {
            name: self.name@,
            aliases: texts(self.aliases@),
            function: self.function,
            control_lines: Seq::new(
                self.control_lines@.len(),
                |i: int| self.control_lines@[i]@,
            ),
        }
    }
}

/// A board.
#[derive(Debug)]
pub struct Board {
    /// The number of pins of the chips that it takes the place of.
    pub chip_pins: u8,
    /// The names of the chip types that it supports, each by the one that is its own.
    pub supported_chip_types: Vec<String>,
    /// All names of chip types that are listed for it.
    pub chip_type_names: Vec<String>,
}

/// A CPU frequency of the Fire firmware, in MHz. Two values stand for none and for the stock
/// frequency.
#[derive(Debug, Clone, Copy)]
pub struct FireCpuFreq {
    pub value: u16,
}

/// The CPU frequencies to choose from, in MHz.
#[derive(Debug, Clone, Copy)]
pub struct CpuFreqRange {
    pub min_mhz: u16,
    pub max_mhz: u16,
    /// What the stock frequency is.
    pub stock: FireCpuFreq,
}

/// A voltage of the Fire firmware's regulator.
#[derive(Debug)]
pub struct FireVreg {
    /// The name in configurations, such as `1.10V`.
    pub name: String,
    /// The code, by which voltages are in order. One code stands for the stock voltage.
    pub code: u8,
}

/// A voltage as a mathematical value.
#[verifier::ext_equal]
pub struct FireVregView {
    pub name: Seq<char>,
    pub code: u8,
}

impl View for FireVreg {
    type V = FireVregView;

    open spec fn view(&self) -> FireVregView {
        FireVregView { name: self.name@, code: self.code }
    }
}

/// The voltages to choose from.
#[derive(Debug)]
pub struct VregLevels {
    pub levels: Vec<FireVreg>,
    /// The code of what the stock voltage is.
    pub stock: u8,
}

/// A way to write a `size_handling`.
#[derive(Debug)]
pub struct Spelling {
    /// What may be written.
    pub text: String,
    /// The value that it stands for.
    pub value: String,
}

/// The ways to handle images that do not have the size of their chip.
#[derive(Debug)]
pub struct SizeHandlings {
    /// The values.
    pub values: Vec<String>,
    /// What may be written for them.
    pub spellings: Vec<Spelling>,
    /// What is said of anything else.
    pub mismatch: String,
}

/// What there is to choose from on any board.
#[derive(Debug)]
pub struct Catalog {
    pub chip_types: Vec<ChipType>,
    /// The names of the plugin types, which every board supports.
    pub plugin_names: Vec<String>,
    pub size_handlings: SizeHandlings,
    pub cpu_freqs: CpuFreqRange,
    pub vregs: VregLevels,
}

/// The types of chips in a list, as mathematical values.
pub open spec fn chip_views(chips: Seq<ChipType>) -> Seq<ChipTypeView> {
    Seq::new(chips.len(), |i: int| chips[i]@)
}

/// The voltages in a list, as mathematical values.
pub open spec fn vreg_views(levels: Seq<FireVreg>) -> Seq<FireVregView> {
    Seq::new(levels.len(), |i: int| levels[i]@)
}

/// The names of voltages.
pub open spec fn vreg_names(levels: Seq<FireVregView>) -> Seq<Seq<char>> {
    Seq::new(levels.len(), |i: int| levels[i].name)
}

/// The spellings in a list, each with what it stands for.
pub open spec fn spelling_views(spellings: Seq<Spelling>) -> Seq<(Seq<char>, Seq<char>)> {
    Seq::new(spellings.len(), |i: int| (spellings[i].text@, spellings[i].value@))
}

/// Whether `s` is one of a chip type's names, in capital letters or not.
pub open spec fn is_named(chip: ChipTypeView, s: Seq<char>) -> bool {
    exists|i: int| 0 <= i < chip.aliases.len() && same_ignoring_case(#[trigger] chip.aliases[i], s)
}

/// The first chip type of which `s` is a name.
pub open spec fn chip_named(chips: Seq<ChipTypeView>, s: Seq<char>) -> Option<ChipTypeView>
    decreases chips.len(),
{
    if chips.len() == 0 {
        None
    } else if is_named(chips[0], s) {
        Some(chips[0])
    } else {
        chip_named(chips.drop_first(), s)
    }
}

/// The first voltage that has the given name.
pub open spec fn vreg_named(levels: Seq<FireVregView>, name: Seq<char>) -> Option<FireVregView>
    decreases levels.len(),
{
    if levels.len() == 0 {
        None
    } else if levels[0].name == name {
        Some(levels[0])
    } else {
        vreg_named(levels.drop_first(), name)
    }
}

/// What the first spelling with the given text stands for.
pub open spec fn spelled(spellings: Seq<(Seq<char>, Seq<char>)>, text: Seq<char>) -> Option<
    Seq<char>,
>
    decreases spellings.len(),
{
    if spellings.len() == 0 {
        None
    } else if spellings[0].0 == text {
        Some(spellings[0].1)
    } else {
        spelled(spellings.drop_first(), text)
    }
}

/// Whether a board supports a chip type.
pub open spec fn supports(board: Board, chip: ChipTypeView) -> bool {
    texts(board.supported_chip_types@).contains(chip.name)
}

impl FireCpuFreq {
    /// Whether this is a frequency, and none of the values that stand for something else.
    pub open spec fn is_frequency(self) -> bool {
        self.value != 0 && self.value != 0xffff
    }

    /// Whether this and `other` are frequencies and this one is higher.
    pub open spec fn above(self, other: FireCpuFreq) -> bool {
        self.is_frequency() && other.is_frequency() && self.value > other.value
    }

    /// Whether this and `other` are frequencies and this one is higher.
    pub fn is_above(&self, other: &FireCpuFreq) -> (r: bool)
        ensures
            r == self.above(*other),
    {
        self.value != 0 && self.value != 0xffff && other.value != 0 && other.value != 0xffff
            && self.value > other.value
    }
}

impl FireVregView {
    /// Whether this is a voltage above that with the given code; the code that stands for the
    /// stock voltage is neither above nor below any.
    pub open spec fn above(self, code: u8) -> bool {
        self.code != 0xff && code != 0xff && self.code > code
    }
}

impl FireVreg {
    /// Whether this is a voltage above that with the given code.
    pub fn is_above(&self, code: u8) -> (r: bool)
        ensures
            r == self@.above(code),
    {
        self.code != 0xff && code != 0xff && self.code > code
    }

    /// Another value of the same voltage.
    pub fn copy(&self) -> (r: FireVreg)
        ensures
            r@ == self@,
    {
        FireVreg { name: self.name.clone(), code: self.code }
    }
}

/// Another list of the same strings.
fn copy_strings(list: &Vec<String>) -> (r: Vec<String>)
    ensures
        texts(r@) == texts(list@),
{
    let mut out: Vec<String> = Vec::new();
    let mut i: usize = 0;
    while i < list.len()
        invariant
            i <= list.len(),
            out@.len() == i,
            forall|j: int| 0 <= j < i ==> (#[trigger] out@[j])@ == list@[j]@,
        decreases list.len() - i,
    {
        out.push(list[i].clone());
        i = i + 1;
    }
    assert(texts(out@) =~= texts(list@));
    out
}

impl ChipType {
    /// Another value of the same chip type.
    pub fn copy(&self) -> (r: ChipType)
        ensures
            r@ == self@,
    {
        let mut lines: Vec<ControlLine> = Vec::new();
        let mut i: usize = 0;
        while i < self.control_lines.len()
            invariant
                i <= self.control_lines.len(),
                lines@.len() == i,
                forall|j: int| 0 <= j < i ==> (#[trigger] lines@[j])@ == self.control_lines@[j]@,
            decreases self.control_lines.len() - i,
        {
            lines.push(
                ControlLine {
                    name: self.control_lines[i].name.clone(),
                    line_type: self.control_lines[i].line_type,
                },
            );
            i = i + 1;
        }
        let r = ChipType {
            name: self.name.clone(),
            aliases: copy_strings(&self.aliases),
            function: self.function,
            control_lines: lines,
        };
        assert(r@.control_lines =~= self@.control_lines);
        r
    }

    /// Whether `s` is one of this chip type's names, in capital letters or not.
    pub fn has_name(&self, s: &str) -> (r: bool)
        ensures
            r == is_named(self@, s@),
    {
        let mut i: usize = 0;
        while i < self.aliases.len()
            invariant
                i <= self.aliases.len(),
                forall|j: int|
                    0 <= j < i ==> !same_ignoring_case(#[trigger] self@.aliases[j], s@),
            decreases self.aliases.len() - i,
        {
            assert(self@.aliases[i as int] == self.aliases@[i as int]@);
            if same_except_case(self.aliases[i].as_str(), s) {
                return true;
            }
            i = i + 1;
        }
        false
    }
}

impl Catalog {
    /// The first chip type of which `s` is a name.
    pub fn find_chip_type(&self, s: &str) -> (r: Option<&ChipType>)
        ensures
            match r {
                Some(chip) => chip_named(chip_views(self.chip_types@), s@) == Some(chip@),
                None => chip_named(chip_views(self.chip_types@), s@) is None,
            },
    {
        let ghost all = chip_views(self.chip_types@);
        let mut i: usize = 0;
        assert(all.skip(0) =~= all);
        while i < self.chip_types.len()
            invariant
                i <= self.chip_types.len(),
                all == chip_views(self.chip_types@),
                chip_named(all.skip(i as int), s@) == chip_named(all, s@),
            decreases self.chip_types.len() - i,
        {
            assert(all.skip(i as int)[0] == self.chip_types@[i as int]@);
            assert(all.skip(i as int).drop_first() =~= all.skip(i + 1));
            if self.chip_types[i].has_name(s) {
                return Some(&self.chip_types[i]);
            }
            i = i + 1;
        }
        None
    }
}

impl VregLevels {
    /// The first voltage that has the given name.
    pub fn find(&self, name: &str) -> (r: Option<&FireVreg>)
        ensures
            match r {
                Some(vreg) => vreg_named(vreg_views(self.levels@), name@) == Some(vreg@),
                None => vreg_named(vreg_views(self.levels@), name@) is None,
            },
    {
        let ghost all = vreg_views(self.levels@);
        let mut i: usize = 0;
        assert(all.skip(0) =~= all);
        while i < self.levels.len()
            invariant
                i <= self.levels.len(),
                all == vreg_views(self.levels@),
                vreg_named(all.skip(i as int), name@) == vreg_named(all, name@),
            decreases self.levels.len() - i,
        {
            assert(all.skip(i as int)[0] == self.levels@[i as int]@);
            assert(all.skip(i as int).drop_first() =~= all.skip(i + 1));
            if same(self.levels[i].name.as_str(), name) {
                return Some(&self.levels[i]);
            }
            i = i + 1;
        }
        None
    }

    /// The names of all voltages.
    pub fn names(&self) -> (r: Vec<String>)
        ensures
            texts(r@) == vreg_names(vreg_views(self.levels@)),
    {
        let mut out: Vec<String> = Vec::new();
        let mut i: usize = 0;
        while i < self.levels.len()
            invariant
                i <= self.levels.len(),
                out@.len() == i,
                forall|j: int| 0 <= j < i ==> (#[trigger] out@[j])@ == self.levels@[j].name@,
            decreases self.levels.len() - i,
        {
            out.push(self.levels[i].name.clone());
            i = i + 1;
        }
        assert(texts(out@) =~= vreg_names(vreg_views(self.levels@)));
        out
    }
}

impl SizeHandlings {
    /// Whether each value may be written as it stands: it is one of its own spellings, and its
    /// characters stand for themselves in a JSON string.
    pub open spec fn values_spell_themselves(self) -> bool {
        let spellings = spelling_views(self.spellings@);
        forall|i: int|
            #![trigger spellings[i]]
            0 <= i < spellings.len() ==> {
                let value = spellings[i].1;
                &&& spelled(spellings, value) == Some(value)
                &&& forall|j: int| 0 <= j < value.len() ==> is_plain(#[trigger] value[j])
            }
    }

    /// What the first spelling with the given text stands for.
    pub fn find(&self, text: &str) -> (r: Option<String>)
        ensures
            match r {
                Some(value) => spelled(spelling_views(self.spellings@), text@) == Some(value@),
                None => spelled(spelling_views(self.spellings@), text@) is None,
            },
    {
        let ghost all = spelling_views(self.spellings@);
        let mut i: usize = 0;
        assert(all.skip(0) =~= all);
        while i < self.spellings.len()
            invariant
                i <= self.spellings.len(),
                all == spelling_views(self.spellings@),
                spelled(all.skip(i as int), text@) == spelled(all, text@),
            decreases self.spellings.len() - i,
        {
            assert(all.skip(i as int)[0].0 == self.spellings@[i as int].text@);
            assert(all.skip(i as int)[0].1 == self.spellings@[i as int].value@);
            assert(all.skip(i as int).drop_first() =~= all.skip(i + 1));
            if same(self.spellings[i].text.as_str(), text) {
                return Some(self.spellings[i].value.clone());
            }
            i = i + 1;
        }
        None
    }
}

impl Board {
    /// Whether this board supports a chip type.
    pub fn supports_chip_type(&self, chip: &ChipType) -> (r: bool)
        ensures
            r == supports(*self, chip@),
    {
        let mut i: usize = 0;
        while i < self.supported_chip_types.len()
            invariant
                i <= self.supported_chip_types.len(),
                forall|j: int|
                    0 <= j < i ==> (#[trigger] self.supported_chip_types@[j])@ != chip.name@,
            decreases self.supported_chip_types.len() - i,
        {
            if same(self.supported_chip_types[i].as_str(), chip.name.as_str()) {
                assert(texts(self.supported_chip_types@)[i as int] == chip.name@);
                return true;
            }
            i = i + 1;
        }
        proof {
            if supports(*self, chip@) {
                let j = choose|j: int|
                    0 <= j < self.supported_chip_types@.len() && texts(
                        self.supported_chip_types@,
                    )[j] == chip.name@;
                assert(self.supported_chip_types@[j]@ == chip.name@);
            }
        }
        false
    }
}

} // verus!
