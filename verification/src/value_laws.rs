//! What the values of the keys of a `--slot` argument say, and how others are refused.
use vstd::prelude::*;

use crate::catalog::{
    spelled, spelling_views, vreg_named, vreg_names, CpuFreqRange, FireCpuFreq, FireVregView,
    SizeHandlings,
};
use crate::error::ErrorView;
use crate::json::unescaped;
use crate::number::{decimal, u16_of};
use crate::slot_value::{
    bool_of, bool_of_lowercase, cpu_freq_of, cs_logic_of, expanded, lowercase,
    size_handling_of_value, vreg_of, without_mhz, without_volt,
};
use crate::text::{
    ascii_lower, join, lemma_no_separator, lemma_split_once_at, same_ignoring_case, texts,
};
use crate::text_laws::law_strip_prefix;

verus! {

/// The error that refuses a `--slot` argument.
pub open spec fn slot_refusal(message: Seq<char>, slot: Seq<char>, note: Seq<char>) -> ErrorView {
    ErrorView::InvalidArgument("--slot"@, message + "\n    --slot '"@ + slot + "'"@ + note)
}

/// A polarity is low or high. Each has a name and a digit, and nothing else is a polarity.
pub proof fn law_polarities(slot: Seq<char>, key: Seq<char>, value: Seq<char>)
    ensures
        cs_logic_of(slot, key, value) == Ok::<Seq<char>, ErrorView>("active_low"@) <==> value
            == "0"@ || value == "active_low"@,
        cs_logic_of(slot, key, value) == Ok::<Seq<char>, ErrorView>("active_high"@) <==> value
            == "1"@ || value == "active_high"@,
        value != "0"@ && value != "active_low"@ && value != "1"@ && value != "active_high"@
            ==> cs_logic_of(slot, key, value) == Err::<Seq<char>, ErrorView>(
            ErrorView::InvalidArgument(
                "--slot"@,
                "Invalid CS logic '"@ + value + "': expected "@ + key
                    + "=active_low|active_high|0|1\n   --slot '"@ + slot + "'"@,
            ),
        ),
        "active_low"@ != "active_high"@,
{
    reveal_strlit("0");
    reveal_strlit("1");
    reveal_strlit("active_low");
    reveal_strlit("active_high");
    assert("0"@[0] == '0' && "1"@[0] == '1');
    assert("active_low"@.len() == 10 && "active_high"@.len() == 11);
}

/// The texts that stand for true and for false, and the refusal of any other.
pub open spec fn truth(slot: Seq<char>, key: Seq<char>, lower: Seq<char>) -> Result<
    bool,
    ErrorView,
> {
    if seq!["true"@, "on"@, "1"@].contains(lower) {
        Ok(true)
    } else if seq!["false"@, "off"@, "0"@].contains(lower) {
        Ok(false)
    } else {
        Err(
            slot_refusal(
                "Invalid boolean '"@ + lower + "': expected "@ + key + "=true|false|on|off|1|0"@,
                slot,
                ""@,
            ),
        )
    }
}

/// A truth value is read by its lower case, which is that of each letter where all characters are
/// ASCII.
pub proof fn law_truth_values(slot: Seq<char>, key: Seq<char>, value: Seq<char>)
    ensures
        (forall|i: int| 0 <= i < value.len() ==> (#[trigger] value[i]) as u32 <= 0x7f) ==> bool_of(
            slot,
            key,
            value,
        ) == truth(slot, key, Seq::new(value.len(), |i: int| ascii_lower(value[i]))),
        (exists|i: int| 0 <= i < value.len() && (#[trigger] value[i]) as u32 > 0x7f) ==> bool_of(
            slot,
            key,
            value,
        ) == truth(slot, key, lowercase(value)),
        (forall|i: int| 0 <= i < value.len() ==> (#[trigger] value[i]) as u32 <= 0x7f) && (
        same_ignoring_case(value, "true"@) || same_ignoring_case(value, "on"@) || value == "1"@)
            ==> bool_of(slot, key, value) == Ok::<bool, ErrorView>(true),
        (forall|i: int| 0 <= i < value.len() ==> (#[trigger] value[i]) as u32 <= 0x7f) && (
        same_ignoring_case(value, "false"@) || same_ignoring_case(value, "off"@) || value == "0"@)
            ==> bool_of(slot, key, value) == Ok::<bool, ErrorView>(false),
{
    let lower = Seq::new(value.len(), |i: int| ascii_lower(value[i]));
    assert(value.map_values(|c: char| ascii_lower(c)) =~= lower);
    lemma_truth(slot, key, lower);
    lemma_truth(slot, key, lowercase(value));
    reveal_strlit("true");
    reveal_strlit("on");
    reveal_strlit("1");
    reveal_strlit("false");
    reveal_strlit("off");
    reveal_strlit("0");
    lemma_lower(value, "true"@);
    lemma_lower(value, "on"@);
    lemma_lower(value, "1"@);
    lemma_lower(value, "false"@);
    lemma_lower(value, "off"@);
    lemma_lower(value, "0"@);
    assert("0"@[0] == '0' && "1"@[0] == '1');
    assert("true"@.len() == 4 && "on"@.len() == 2 && "1"@.len() == 1);
    assert("false"@.len() == 5 && "off"@.len() == 3 && "0"@.len() == 1);
}

proof fn lemma_truth(slot: Seq<char>, key: Seq<char>, lower: Seq<char>)
    ensures
        bool_of_lowercase(slot, key, lower) == truth(slot, key, lower),
{
    let yes = seq!["true"@, "on"@, "1"@];
    let no = seq!["false"@, "off"@, "0"@];
    assert(yes[0] == "true"@ && yes[1] == "on"@ && yes[2] == "1"@);
    assert(no[0] == "false"@ && no[1] == "off"@ && no[2] == "0"@);
    assert(yes.contains(lower) <==> lower == "true"@ || lower == "on"@ || lower == "1"@);
    assert(no.contains(lower) <==> lower == "false"@ || lower == "off"@ || lower == "0"@);
}

proof fn lemma_lower(value: Seq<char>, word: Seq<char>)
    requires
        forall|i: int| 0 <= i < word.len() ==> ascii_lower(#[trigger] word[i]) == word[i],
    ensures
        same_ignoring_case(value, word) || value == word ==> Seq::new(
            value.len(),
            |i: int| ascii_lower(value[i]),
        ) == word,
{
    let lower = Seq::new(value.len(), |i: int| ascii_lower(value[i]));
    if same_ignoring_case(value, word) || value == word {
        assert forall|i: int| 0 <= i < word.len() implies lower[i] == word[i] by {
            assert(ascii_lower(value[i]) == ascii_lower(word[i]));
        }
        assert(lower =~= word);
    }
}

/// A `size_handling` is read as a JSON string, and is what that text spells; one that spells
/// nothing is refused.
pub proof fn law_size_handlings(
    slot: Seq<char>,
    value: Seq<char>,
    text: Seq<char>,
    name: Seq<char>,
    names: SizeHandlings,
)
    ensures
        unescaped(value) == Some(text) && spelled(spelling_views(names.spellings@), text) == Some(
            name,
        ) ==> size_handling_of_value(slot, value, names) == Ok::<Seq<char>, ErrorView>(name),
        unescaped(value) is None || (unescaped(value) == Some(text) && spelled(
            spelling_views(names.spellings@),
            text,
        ) is None) ==> size_handling_of_value(slot, value, names) == Err::<Seq<char>, ErrorView>(
            slot_refusal(
                "Invalid size_handling '"@ + value + "': "@ + names.mismatch@,
                slot,
                "\n  Supported values "@ + join(texts(names.values@), ", "@),
            ),
        ),
{
}

/// The frequency that a number of MHz stands for: in range it is that number, and otherwise it is
/// refused, as is what is no number.
pub open spec fn frequency(
    slot: Seq<char>,
    key: Seq<char>,
    value: Seq<char>,
    number: Option<u16>,
    range: CpuFreqRange,
) -> Result<FireCpuFreq, ErrorView> {
    match number {
        Some(mhz) => if mhz < range.min_mhz || mhz > range.max_mhz {
            Err(
                slot_refusal(
                    "CPU frequency "@ + decimal(mhz as nat) + "MHz out of range ("@ + decimal(
                        range.min_mhz as nat,
                    ) + "-"@ + decimal(range.max_mhz as nat) + "MHz)"@,
                    slot,
                    ""@,
                ),
            )
        } else {
            Ok(FireCpuFreq { value: mhz })
        },
        None => Err(
            slot_refusal(
                "Invalid CPU frequency '"@ + value + "': expected formats "@ + key
                    + "=150|150MHz"@,
                slot,
                ""@,
            ),
        ),
    }
}

/// A frequency with the unit is the number before it, and one without it the number that it is.
pub proof fn law_cpu_freqs(
    slot: Seq<char>,
    key: Seq<char>,
    digits: Seq<char>,
    unit: Seq<char>,
    range: CpuFreqRange,
)
    ensures
        same_ignoring_case(unit, "mhz"@) ==> cpu_freq_of(slot, key, digits + unit, range)
            == frequency(slot, key, digits + unit, u16_of(digits), range),
        (forall|before: Seq<char>, after: Seq<char>| #[trigger]
            (before + after) == digits ==> !same_ignoring_case(after, "mhz"@)) ==> cpu_freq_of(
            slot,
            key,
            digits,
            range,
        ) == frequency(slot, key, digits, u16_of(digits), range),
{
    reveal_strlit("mhz");
    assert("mhz"@.len() == 3);
    if same_ignoring_case(unit, "mhz"@) {
        let value = digits + unit;
        assert(value.skip(digits.len() as int) =~= unit);
        assert(value.take(digits.len() as int) =~= digits);
        assert(without_mhz(value) == digits);
    }
    if digits.len() >= 3 {
        let n = digits.len() - 3;
        assert(digits.take(n) + digits.skip(n) =~= digits);
    }
}

/// The voltage that a name stands for, where it is read as a JSON string; a name that no voltage
/// has is refused.
pub open spec fn voltage(
    slot: Seq<char>,
    value: Seq<char>,
    name: Seq<char>,
    levels: Seq<FireVregView>,
) -> Result<FireVregView, ErrorView> {
    match unescaped(name) {
        Some(read) if vreg_named(levels, read) is Some => Ok(vreg_named(levels, read)->0),
        _ => Err(
            slot_refusal(
                "Unsupported VReg '"@ + value + "'"@,
                slot,
                "\n  Supported levels: "@ + join(vreg_names(levels), ", "@),
            ),
        ),
    }
}

/// A voltage is a whole part, a dot and at most two ASCII characters, with a `V` behind it or not.
/// It has the name with zeros up to two places and a `V`. What has no dot, or more places, is
/// refused.
pub proof fn law_vregs(
    slot: Seq<char>,
    key: Seq<char>,
    whole: Seq<char>,
    frac: Seq<char>,
    unit: Seq<char>,
    levels: Seq<FireVregView>,
)
    requires
        !whole.contains('.'),
        unit == seq!['v'] || unit == seq!['V'] || (unit.len() == 0 && (frac.len() > 0
            ==> frac.last() != 'v' && frac.last() != 'V')),
    ensures
        vreg_of(slot, key, whole, levels) == Err::<FireVregView, ErrorView>(
            slot_refusal(
                "Invalid VReg '"@ + whole + "': expected format "@ + key + "=1.1|1.10|1.10V"@,
                slot,
                ""@,
            ),
        ),
        ({
            let value = whole + seq!['.'] + frac + unit;
            let start = whole + seq!['.'] + frac;
            let ascii = forall|i: int|
                0 <= i < frac.len() ==> (#[trigger] frac[i]) as u32 <= 0x7f;
            &&& frac.len() == 0 ==> vreg_of(slot, key, value, levels) == voltage(
                slot,
                value,
                start + seq!['0', '0', 'V'],
                levels,
            )
            &&& frac.len() == 1 && ascii ==> vreg_of(slot, key, value, levels) == voltage(
                slot,
                value,
                start + seq!['0', 'V'],
                levels,
            )
            &&& frac.len() == 2 && ascii ==> vreg_of(slot, key, value, levels) == voltage(
                slot,
                value,
                start + seq!['V'],
                levels,
            )
            &&& frac.len() > 2 || !ascii ==> vreg_of(slot, key, value, levels) == Err::<
                FireVregView,
                ErrorView,
            >(
                slot_refusal(
                    "Invalid VReg '"@ + value + "': too many decimal places, max 2"@,
                    slot,
                    ""@,
                ),
            )
        }),
{
    reveal_strlit("0");
    reveal_strlit("00");
    reveal_strlit(".");
    reveal_strlit("V");
    let value = whole + seq!['.'] + frac + unit;
    let start = whole + seq!['.'] + frac;
    lemma_split_once_at(whole, '.', frac);
    if unit.len() == 0 {
        assert(value =~= start);
        if frac.len() > 0 {
            assert(start.last() == frac.last());
        } else {
            assert(start.last() == '.');
        }
    } else {
        assert(value.drop_last() =~= start);
    }
    assert(without_volt(value) == start);
    let stripped = without_volt(whole);
    assert(!stripped.contains('.')) by {
        assert(forall|i: int| 0 <= i < stripped.len() ==> stripped[i] == whole[i]);
    }
    lemma_no_separator(stripped, '.');
    if frac.len() == 0 {
        assert(whole + "."@ + "00"@ + "V"@ =~= start + seq!['0', '0', 'V']);
    } else if frac.len() == 1 {
        assert(whole + "."@ + (frac + "0"@) + "V"@ =~= start + seq!['0', 'V']);
    } else if frac.len() == 2 {
        assert(whole + "."@ + frac + "V"@ =~= start + seq!['V']);
    }
}

/// `~/` at the start of a path stands for the home directory and a slash. Any other path stays as
/// it is, and so do all where the home directory is not known.
pub proof fn law_home(path: Seq<char>, rest: Seq<char>, home: Seq<char>)
    ensures
        expanded(seq!['~', '/'] + rest, Some(home)) == home + seq!['/'] + rest,
        !seq!['~', '/'].is_prefix_of(path) ==> expanded(path, Some(home)) == path,
        expanded(path, None) == path,
{
    reveal_strlit("~/");
    reveal_strlit("/");
    assert("~/"@ =~= seq!['~', '/']);
    assert("/"@ =~= seq!['/']);
    law_strip_prefix(seq!['~', '/'] + rest, "~/"@, rest);
    law_strip_prefix(path, "~/"@, rest);
}

} // verus!
