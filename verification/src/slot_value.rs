//! The values of the keys of a `--slot` argument.
//!
//! Each function here reads one kind of value. It is given the whole argument and the key too,
//! which its errors show.
use vstd::prelude::*;

use crate::catalog::{
    spelled, spelling_views, vreg_named, vreg_names, vreg_views, CpuFreqRange, FireCpuFreq,
    FireVreg, FireVregView, SizeHandlings, VregLevels,
};
use crate::error::{Error, ErrorView};
use crate::json::{unescape, unescaped};
use crate::number::{decimal, parse_u16, to_decimal, u16_of};
use crate::text::{
    ascii_lower, concat3, concat5, concat7, cut, join, join_strings, opt_str, same,
    same_except_case, same_ignoring_case, split_once, strip_prefix, texts, without_prefix,
};

verus! {

/// What `str::to_lowercase` makes of a text.
pub uninterp spec fn lowercase(s: Seq<char>) -> Seq<char>;

/// Whether all characters of `s` are ASCII.
pub open spec fn is_ascii(s: Seq<char>) -> bool {
    forall|i: int| 0 <= i < s.len() ==> (#[trigger] s[i]) as u32 <= 0x7f
}

/// `s` in lower case.
pub open spec fn lowered(s: Seq<char>) -> Seq<char> {
    if is_ascii(s) {
        s.map_values(|c: char| ascii_lower(c))
    } else {
        lowercase(s)
    }
}

/// The error of a `--slot` argument: what is wrong, where, and what may follow.
pub open spec fn slot_error(message: Seq<char>, slot: Seq<char>, note: Seq<char>) -> ErrorView {
    ErrorView::InvalidArgument("--slot"@, message + "\n    --slot '"@ + slot + "'"@ + note)
}

/// The polarity that a value of a chip select line stands for.
pub open spec fn cs_logic_of(slot: Seq<char>, key: Seq<char>, value: Seq<char>) -> Result<
    Seq<char>,
    ErrorView,
> {
    if value == "active_low"@ || value == "0"@ {
        Ok("active_low"@)
    } else if value == "active_high"@ || value == "1"@ {
        Ok("active_high"@)
    } else {
        Err(
            ErrorView::InvalidArgument(
                "--slot"@,
                "Invalid CS logic '"@ + value + "': expected "@ + key
                    + "=active_low|active_high|0|1\n   --slot '"@ + slot + "'"@,
            ),
        )
    }
}

/// The truth value that a text in lower case stands for.
pub open spec fn bool_of_lowercase(slot: Seq<char>, key: Seq<char>, lower: Seq<char>) -> Result<
    bool,
    ErrorView,
> {
    if lower == "true"@ || lower == "on"@ || lower == "1"@ {
        Ok(true)
    } else if lower == "false"@ || lower == "off"@ || lower == "0"@ {
        Ok(false)
    } else {
        Err(
            slot_error(
                "Invalid boolean '"@ + lower + "': expected "@ + key + "=true|false|on|off|1|0"@,
                slot,
                ""@,
            ),
        )
    }
}

/// The truth value that a value stands for, in capital letters or not.
pub open spec fn bool_of(slot: Seq<char>, key: Seq<char>, value: Seq<char>) -> Result<
    bool,
    ErrorView,
> {
    bool_of_lowercase(slot, key, lowered(value))
}

/// The `size_handling` that a value stands for, where `read` is what it says as a JSON string.
pub open spec fn size_handling_of_string(
    slot: Seq<char>,
    value: Seq<char>,
    read: Option<Seq<char>>,
    names: SizeHandlings,
) -> Result<Seq<char>, ErrorView> {
    let found = match read {
        Some(text) => spelled(spelling_views(names.spellings@), text),
        None => None,
    };
    match found {
        Some(name) => Ok(name),
        None => Err(
            slot_error(
                "Invalid size_handling '"@ + value + "': "@ + names.mismatch@,
                slot,
                "\n  Supported values "@ + join(texts(names.values@), ", "@),
            ),
        ),
    }
}

/// The `size_handling` that a value stands for between the quotes of a JSON string.
pub open spec fn size_handling_of_value(
    slot: Seq<char>,
    value: Seq<char>,
    names: SizeHandlings,
) -> Result<Seq<char>, ErrorView> {
    size_handling_of_string(slot, value, unescaped(value), names)
}

/// `value` without `MHz` at its end, in capital letters or not.
pub open spec fn without_mhz(value: Seq<char>) -> Seq<char> {
    let n = value.len() as int - 3;
    if n >= 0 && same_ignoring_case(value.skip(n), "mhz"@) {
        value.take(n)
    } else {
        value
    }
}

/// The CPU frequency that a value stands for.
pub open spec fn cpu_freq_of(
    slot: Seq<char>,
    key: Seq<char>,
    value: Seq<char>,
    range: CpuFreqRange,
) -> Result<FireCpuFreq, ErrorView> {
    match u16_of(without_mhz(value)) {
        None => Err(
            slot_error(
                "Invalid CPU frequency '"@ + value + "': expected formats "@ + key
                    + "=150|150MHz"@,
                slot,
                ""@,
            ),
        ),
        Some(mhz) => if range.min_mhz <= mhz <= range.max_mhz {
            Ok(FireCpuFreq { value: mhz })
        } else {
            Err(
                slot_error(
                    "CPU frequency "@ + decimal(mhz as nat) + "MHz out of range ("@ + decimal(
                        range.min_mhz as nat,
                    ) + "-"@ + decimal(range.max_mhz as nat) + "MHz)"@,
                    slot,
                    ""@,
                ),
            )
        },
    }
}

/// `value` without a `V` at its end, capital or not.
pub open spec fn without_volt(value: Seq<char>) -> Seq<char> {
    if value.len() > 0 && (value.last() == 'v' || value.last() == 'V') {
        value.drop_last()
    } else {
        value
    }
}

/// A fraction with zeros behind it, so that it has two digits.
pub open spec fn two_places(frac: Seq<char>) -> Seq<char> {
    if frac.len() == 0 {
        "00"@
    } else if frac.len() == 1 {
        frac + "0"@
    } else {
        frac
    }
}

/// The name of a voltage as configurations write it.
pub open spec fn vreg_name(whole: Seq<char>, frac: Seq<char>) -> Seq<char> {
    whole + "."@ + two_places(frac) + "V"@
}

/// The voltage that a value stands for, where `read` is what the name made of it says as a JSON
/// string.
pub open spec fn vreg_of_string(
    slot: Seq<char>,
    value: Seq<char>,
    read: Option<Seq<char>>,
    levels: Seq<FireVregView>,
) -> Result<FireVregView, ErrorView> {
    let found = match read {
        Some(name) => vreg_named(levels, name),
        None => None,
    };
    match found {
        Some(vreg) => Ok(vreg),
        None => Err(
            slot_error(
                "Unsupported VReg '"@ + value + "'"@,
                slot,
                "\n  Supported levels: "@ + join(vreg_names(levels), ", "@),
            ),
        ),
    }
}

/// The voltage that a value stands for.
pub open spec fn vreg_of(
    slot: Seq<char>,
    key: Seq<char>,
    value: Seq<char>,
    levels: Seq<FireVregView>,
) -> Result<FireVregView, ErrorView> {
    match split_once(without_volt(value), '.') {
        None => Err(
            slot_error(
                "Invalid VReg '"@ + value + "': expected format "@ + key
                    + "=1.1|1.10|1.10V"@,
                slot,
                ""@,
            ),
        ),
        Some((whole, frac)) => if frac.len() > 2 || !is_ascii(frac) {
            Err(
                slot_error(
                    "Invalid VReg '"@ + value + "': too many decimal places, max 2"@,
                    slot,
                    ""@,
                ),
            )
        } else {
            vreg_of_string(slot, value, unescaped(vreg_name(whole, frac)), levels)
        },
    }
}

/// A path in which `~/` at the start stands for the home directory, if that is known.
pub open spec fn expanded(path: Seq<char>, home: Option<Seq<char>>) -> Seq<char> {
    match (strip_prefix(path, "~/"@), home) {
        (Some(rest), Some(home)) => home + "/"@ + rest,
        _ => path,
    }
}

/// `str::to_lowercase`: the result depends on the text alone, and a text of ASCII characters has
/// its capital letters replaced.
#[verifier::external_body]
fn to_lowercase(s: &str) -> (r: String)
    ensures
        r@ == lowercase(s@),
        is_ascii(s@) ==> r@ == s@.map_values(|c: char| ascii_lower(c)),
{
    s.to_lowercase()
}

/// The error of a `--slot` argument.
pub(crate) fn bad_slot(message: &str, slot: &str, note: &str) -> (r: Error)
    ensures
        r@ == slot_error(message@, slot@, note@),
{
    Error::invalid("--slot", concat5(message, "\n    --slot '", slot, "'", note))
}

/// Reads the polarity of a chip select line.
pub fn parse_cs_logic(slot: &str, key: &str, value: &str) -> (r: Result<String, Error>)
    ensures
        match r {
            Ok(text) => cs_logic_of(slot@, key@, value@) == Ok::<Seq<char>, ErrorView>(text@),
            Err(e) => cs_logic_of(slot@, key@, value@) == Err::<Seq<char>, ErrorView>(e@),
        },
{
    if same(value, "active_low") || same(value, "0") {
        Ok("active_low".to_owned())
    } else if same(value, "active_high") || same(value, "1") {
        Ok("active_high".to_owned())
    } else {
        Err(
            Error::invalid(
                "--slot",
                concat7(
                    "Invalid CS logic '",
                    value,
                    "': expected ",
                    key,
                    "=active_low|active_high|0|1\n   --slot '",
                    slot,
                    "'",
                ),
            ),
        )
    }
}

/// Reads a truth value that is in lower case already.
pub fn parse_lowercase_bool(slot: &str, key: &str, lower: &str) -> (r: Result<bool, Error>)
    ensures
        match r {
            Ok(b) => bool_of_lowercase(slot@, key@, lower@) == Ok::<bool, ErrorView>(b),
            Err(e) => bool_of_lowercase(slot@, key@, lower@) == Err::<bool, ErrorView>(e@),
        },
{
    if same(lower, "true") || same(lower, "on") || same(lower, "1") {
        Ok(true)
    } else if same(lower, "false") || same(lower, "off") || same(lower, "0") {
        Ok(false)
    } else {
        Err(
            bad_slot(
                concat5(
                    "Invalid boolean '",
                    lower,
                    "': expected ",
                    key,
                    "=true|false|on|off|1|0",
                ).as_str(),
                slot,
                "",
            ),
        )
    }
}

/// Reads a truth value.
pub fn parse_bool(slot: &str, key: &str, value: &str) -> (r: Result<bool, Error>)
    ensures
        match r {
            Ok(b) => bool_of(slot@, key@, value@) == Ok::<bool, ErrorView>(b),
            Err(e) => bool_of(slot@, key@, value@) == Err::<bool, ErrorView>(e@),
        },
{
    let lower: String = to_lowercase(value);
    parse_lowercase_bool(slot, key, lower.as_str())
}

/// Finds the `size_handling` that a value stands for, where `read` is what it says as a JSON
/// string.
pub fn find_size_handling(
    slot: &str,
    value: &str,
    read: Option<&str>,
    names: &SizeHandlings,
) -> (r: Result<String, Error>)
    ensures
        match r {
            Ok(text) => size_handling_of_string(slot@, value@, opt_str(read), *names) == Ok::<
                Seq<char>,
                ErrorView,
            >(text@),
            Err(e) => size_handling_of_string(slot@, value@, opt_str(read), *names) == Err::<
                Seq<char>,
                ErrorView,
            >(e@),
        },
{
    let found: Option<String> = match read {
        Some(text) => names.find(text),
        None => None,
    };
    match found {
        Some(name) => Ok(name),
        None => {
            let message: String = concat3("Invalid size_handling '", value, "': ");
            let note: String = "\n  Supported values ".to_owned();
            Err(
                bad_slot(
                    message.concat(names.mismatch.as_str()).as_str(),
                    slot,
                    note.concat(join_strings(&names.values, ", ").as_str()).as_str(),
                ),
            )
        },
    }
}

/// Reads a `size_handling`.
pub fn parse_size_handling(slot: &str, value: &str, names: &SizeHandlings) -> (r: Result<
    String,
    Error,
>)
    ensures
        match r {
            Ok(text) => size_handling_of_value(slot@, value@, *names) == Ok::<
                Seq<char>,
                ErrorView,
            >(text@),
            Err(e) => size_handling_of_value(slot@, value@, *names) == Err::<
                Seq<char>,
                ErrorView,
            >(e@),
        },
{
    match unescape(value) {
        Some(text) => find_size_handling(slot, value, Some(text.as_str()), names),
        None => find_size_handling(slot, value, None, names),
    }
}

/// Reads a CPU frequency.
pub fn parse_cpu_freq(slot: &str, key: &str, value: &str, range: &CpuFreqRange) -> (r: Result<
    FireCpuFreq,
    Error,
>)
    ensures
        match r {
            Ok(freq) => cpu_freq_of(slot@, key@, value@, *range) == Ok::<FireCpuFreq, ErrorView>(
                freq,
            ),
            Err(e) => cpu_freq_of(slot@, key@, value@, *range) == Err::<FireCpuFreq, ErrorView>(
                e@,
            ),
        },
{
    let n: usize = value.unicode_len();
    let mut digits: &str = value;
    if n >= 3 {
        let unit: &str = value.substring_char(n - 3, n);
        assert(unit@ =~= value@.skip(n - 3));
        if same_except_case(unit, "mhz") {
            digits = value.substring_char(0, n - 3);
            assert(digits@ =~= value@.take(n - 3));
        }
    }
    assert(digits@ == without_mhz(value@));
    match parse_u16(digits) {
        None => Err(
            bad_slot(
                concat5(
                    "Invalid CPU frequency '",
                    value,
                    "': expected formats ",
                    key,
                    "=150|150MHz",
                ).as_str(),
                slot,
                "",
            ),
        ),
        Some(mhz) => if range.min_mhz <= mhz && mhz <= range.max_mhz {
            Ok(FireCpuFreq { value: mhz })
        } else {
            Err(
                bad_slot(
                    concat7(
                        "CPU frequency ",
                        to_decimal(mhz as u64).as_str(),
                        "MHz out of range (",
                        to_decimal(range.min_mhz as u64).as_str(),
                        "-",
                        to_decimal(range.max_mhz as u64).as_str(),
                        "MHz)",
                    ).as_str(),
                    slot,
                    "",
                ),
            )
        },
    }
}

/// Finds the voltage that a value stands for, where `read` is what the name made of it says as a
/// JSON string.
pub fn find_vreg(slot: &str, value: &str, read: Option<&str>, vregs: &VregLevels) -> (r: Result<
    FireVreg,
    Error,
>)
    ensures
        match r {
            Ok(vreg) => vreg_of_string(slot@, value@, opt_str(read), vreg_views(vregs.levels@))
                == Ok::<FireVregView, ErrorView>(vreg@),
            Err(e) => vreg_of_string(slot@, value@, opt_str(read), vreg_views(vregs.levels@))
                == Err::<FireVregView, ErrorView>(e@),
        },
{
    let found: Option<&FireVreg> = match read {
        Some(name) => vregs.find(name),
        None => None,
    };
    match found {
        Some(vreg) => Ok(vreg.copy()),
        None => {
            let note: String = "\n  Supported levels: ".to_owned();
            Err(
                bad_slot(
                    concat3("Unsupported VReg '", value, "'").as_str(),
                    slot,
                    note.concat(join_strings(&vregs.names(), ", ").as_str()).as_str(),
                ),
            )
        },
    }
}

/// Reads a voltage.
pub fn parse_vreg(slot: &str, key: &str, value: &str, vregs: &VregLevels) -> (r: Result<
    FireVreg,
    Error,
>)
    ensures
        match r {
            Ok(vreg) => vreg_of(slot@, key@, value@, vreg_views(vregs.levels@)) == Ok::<
                FireVregView,
                ErrorView,
            >(vreg@),
            Err(e) => vreg_of(slot@, key@, value@, vreg_views(vregs.levels@)) == Err::<
                FireVregView,
                ErrorView,
            >(e@),
        },
{
    let n: usize = value.unicode_len();
    let mut stripped: &str = value;
    if n > 0 {
        let last: char = value.get_char(n - 1);
        if last == 'v' || last == 'V' {
            stripped = value.substring_char(0, n - 1);
            assert(stripped@ =~= value@.drop_last());
        }
    }
    assert(stripped@ == without_volt(value@));
    let (whole, frac): (&str, &str) = match cut(stripped, '.') {
        Some(parts) => parts,
        None => {
            return Err(
                bad_slot(
                    concat5(
                        "Invalid VReg '",
                        value,
                        "': expected format ",
                        key,
                        "=1.1|1.10|1.10V",
                    ).as_str(),
                    slot,
                    "",
                ),
            );
        },
    };
    let places: usize = frac.unicode_len();
    if places > 2 || !ascii(frac) {
        return Err(
            bad_slot(
                concat3("Invalid VReg '", value, "': too many decimal places, max 2").as_str(),
                slot,
                "",
            ),
        );
    }
    let padded: String = if places == 0 {
        "00".to_owned()
    } else if places == 1 {
        frac.to_owned().concat("0")
    } else {
        frac.to_owned()
    };
    let name: String = concat3(whole, ".", padded.as_str()).concat("V");
    match unescape(name.as_str()) {
        Some(text) => find_vreg(slot, value, Some(text.as_str()), vregs),
        None => find_vreg(slot, value, None, vregs),
    }
}

/// Whether all characters of `s` are ASCII.
fn ascii(s: &str) -> (r: bool)
    ensures
        r == is_ascii(s@),
{
    let n: usize = s.unicode_len();
    let mut i: usize = 0;
    while i < n
        invariant
            n == s@.len(),
            i <= n,
            forall|j: int| 0 <= j < i ==> (#[trigger] s@[j]) as u32 <= 0x7f,
        decreases n - i,
    {
        if s.get_char(i) as u32 > 0x7f {
            return false;
        }
        i = i + 1;
    }
    true
}

/// Expands `~/` at the start of a path, as the path does not pass through a shell by itself.
pub fn expand_tilde(path: &str, home: Option<&str>) -> (r: String)
    ensures
        r@ == expanded(path@, opt_str(home)),
{
    match (without_prefix(path, "~/"), home) {
        (Some(rest), Some(home)) => concat3(home, "/", rest),
        _ => path.to_owned(),
    }
}

} // verus!
