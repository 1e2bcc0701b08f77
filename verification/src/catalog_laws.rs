//! What holds of looking things up in a catalog.
use vstd::prelude::*;

use crate::catalog::{
    chip_named, chip_views, spelled, spelling_views, supports, vreg_named, vreg_names, vreg_views,
    Board, ChipType, ChipTypeView, ControlLine, FireCpuFreq, FireVreg, FireVregView, Spelling,
};
use crate::text::{same_ignoring_case, texts};

verus! {

/// Lists of catalog entries hold them in the same order.
pub proof fn law_entries(
    chips: Seq<ChipType>,
    levels: Seq<FireVreg>,
    named: Seq<FireVregView>,
    spellings: Seq<Spelling>,
)
    ensures
        chip_views(chips).len() == chips.len(),
        forall|i: int| 0 <= i < chips.len() ==> #[trigger] chip_views(chips)[i] == chips[i]@,
        vreg_views(levels).len() == levels.len(),
        forall|i: int| 0 <= i < levels.len() ==> #[trigger] vreg_views(levels)[i] == levels[i]@,
        vreg_names(named).len() == named.len(),
        forall|i: int| 0 <= i < named.len() ==> #[trigger] vreg_names(named)[i] == named[i].name,
        spelling_views(spellings).len() == spellings.len(),
        forall|i: int|
            0 <= i < spellings.len() ==> (#[trigger] spelling_views(spellings)[i]).0
                == spellings[i].text@ && spelling_views(spellings)[i].1 == spellings[i].value@,
{
}

/// The mathematical value of a catalog entry has all that the entry has.
pub proof fn law_entry_values(chip: ChipType, line: ControlLine, level: FireVreg)
    ensures
        chip@.name == chip.name@,
        chip@.aliases.len() == chip.aliases@.len(),
        forall|i: int|
            0 <= i < chip.aliases@.len() ==> #[trigger] chip@.aliases[i] == chip.aliases@[i]@,
        chip@.function == chip.function,
        chip@.control_lines.len() == chip.control_lines@.len(),
        forall|i: int|
            0 <= i < chip.control_lines@.len() ==> #[trigger] chip@.control_lines[i]
                == chip.control_lines@[i]@,
        line@.name == line.name@,
        line@.line_type == line.line_type,
        level@.name == level.name@,
        level@.code == level.code,
{
}

/// Whether one of a chip type's names is `s`, but for capital letters.
pub open spec fn goes_by(chip: ChipTypeView, s: Seq<char>) -> bool {
    exists|i: int| 0 <= i < chip.aliases.len() && same_ignoring_case(#[trigger] chip.aliases[i], s)
}

/// A chip type that is found goes by the name, and no earlier one does. Where none is found, none
/// goes by it.
pub proof fn law_first_chip_type(chips: Seq<ChipTypeView>, s: Seq<char>)
    ensures
        match chip_named(chips, s) {
            Some(chip) => exists|i: int|
                0 <= i < chips.len() && #[trigger] chips[i] == chip && goes_by(chips[i], s)
                    && forall|j: int| 0 <= j < i ==> !goes_by(#[trigger] chips[j], s),
            None => forall|j: int| 0 <= j < chips.len() ==> !goes_by(#[trigger] chips[j], s),
        },
    decreases chips.len(),
{
    if chips.len() > 0 {
        let rest = chips.drop_first();
        law_first_chip_type(rest, s);
        if goes_by(chips[0], s) {
            assert(chip_named(chips, s) == Some(chips[0]));
        } else {
            match chip_named(rest, s) {
                Some(chip) => {
                    let i = choose|i: int|
                        0 <= i < rest.len() && #[trigger] rest[i] == chip && goes_by(rest[i], s)
                            && forall|j: int| 0 <= j < i ==> !goes_by(#[trigger] rest[j], s);
                    assert(chips[i + 1] == chip);
                    assert forall|j: int| 0 <= j < i + 1 implies !goes_by(
                        #[trigger] chips[j],
                        s,
                    ) by {
                        if j > 0 {
                            assert(chips[j] == rest[j - 1]);
                        }
                    }
                },
                None => {
                    assert forall|j: int| 0 <= j < chips.len() implies !goes_by(
                        #[trigger] chips[j],
                        s,
                    ) by {
                        if j > 0 {
                            assert(chips[j] == rest[j - 1]);
                        }
                    }
                },
            }
        }
    }
}

/// A voltage that is found has the name, and no earlier one does. Where none is found, none has
/// it.
pub proof fn law_first_vreg(levels: Seq<FireVregView>, name: Seq<char>)
    ensures
        match vreg_named(levels, name) {
            Some(vreg) => exists|i: int|
                0 <= i < levels.len() && #[trigger] levels[i] == vreg && levels[i].name == name
                    && forall|j: int| 0 <= j < i ==> (#[trigger] levels[j]).name != name,
            None => forall|j: int| 0 <= j < levels.len() ==> (#[trigger] levels[j]).name != name,
        },
    decreases levels.len(),
{
    if levels.len() > 0 {
        let rest = levels.drop_first();
        law_first_vreg(rest, name);
        if levels[0].name == name {
            assert(vreg_named(levels, name) == Some(levels[0]));
        } else {
            match vreg_named(rest, name) {
                Some(vreg) => {
                    let i = choose|i: int|
                        0 <= i < rest.len() && #[trigger] rest[i] == vreg && rest[i].name == name
                            && forall|j: int| 0 <= j < i ==> (#[trigger] rest[j]).name != name;
                    assert(levels[i + 1] == vreg);
                    assert forall|j: int| 0 <= j < i + 1 implies (#[trigger] levels[j]).name
                        != name by {
                        if j > 0 {
                            assert(levels[j] == rest[j - 1]);
                        }
                    }
                },
                None => {
                    assert forall|j: int| 0 <= j < levels.len() implies (#[trigger] levels[j]).name
                        != name by {
                        if j > 0 {
                            assert(levels[j] == rest[j - 1]);
                        }
                    }
                },
            }
        }
    }
}

/// What a text spells is the value of the first spelling with that text. Where it spells nothing,
/// no spelling has it.
pub proof fn law_first_spelling(spellings: Seq<(Seq<char>, Seq<char>)>, text: Seq<char>)
    ensures
        match spelled(spellings, text) {
            Some(value) => exists|i: int|
                0 <= i < spellings.len() && #[trigger] spellings[i] == (text, value) && forall|
                    j: int,
                |
                    0 <= j < i ==> (#[trigger] spellings[j]).0 != text,
            None => forall|j: int| 0 <= j < spellings.len() ==> (#[trigger] spellings[j]).0 != text,
        },
    decreases spellings.len(),
{
    if spellings.len() > 0 {
        let rest = spellings.drop_first();
        law_first_spelling(rest, text);
        if spellings[0].0 == text {
            assert(spellings[0] == (text, spellings[0].1));
        } else {
            match spelled(rest, text) {
                Some(value) => {
                    let i = choose|i: int|
                        0 <= i < rest.len() && #[trigger] rest[i] == (text, value) && forall|
                            j: int,
                        |
                            0 <= j < i ==> (#[trigger] rest[j]).0 != text;
                    assert(spellings[i + 1] == (text, value));
                    assert forall|j: int| 0 <= j < i + 1 implies (#[trigger] spellings[j]).0
                        != text by {
                        if j > 0 {
                            assert(spellings[j] == rest[j - 1]);
                        }
                    }
                },
                None => {
                    assert forall|j: int| 0 <= j < spellings.len() implies (
                    #[trigger] spellings[j]).0 != text by {
                        if j > 0 {
                            assert(spellings[j] == rest[j - 1]);
                        }
                    }
                },
            }
        }
    }
}

/// A board supports a chip type where it lists the type's own name.
pub proof fn law_supports(board: Board, chip: ChipTypeView)
    ensures
        supports(board, chip) <==> exists|i: int|
            0 <= i < board.supported_chip_types@.len() && (
            #[trigger] board.supported_chip_types@[i])@ == chip.name,
{
    let names = texts(board.supported_chip_types@);
    if supports(board, chip) {
        let i = choose|i: int| 0 <= i < names.len() && names[i] == chip.name;
        assert(board.supported_chip_types@[i]@ == chip.name);
    }
    if exists|i: int|
        0 <= i < board.supported_chip_types@.len() && (#[trigger] board.supported_chip_types@[i])@
            == chip.name {
        let i = choose|i: int|
            0 <= i < board.supported_chip_types@.len() && (
            #[trigger] board.supported_chip_types@[i])@ == chip.name;
        assert(names[i] == chip.name);
    }
}

/// A frequency is above another where its number is larger and neither stands for none or for the
/// stock frequency; voltages are compared by code, and the stock code with none.
pub proof fn law_above(a: FireCpuFreq, b: FireCpuFreq, vreg: FireVregView, code: u8)
    ensures
        a.above(b) <==> 0 < b.value < a.value < 0xffff,
        vreg.above(code) <==> code < vreg.code < 0xff,
{
}

} // verus!
