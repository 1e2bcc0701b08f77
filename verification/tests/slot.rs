use onerom_cli::catalog::{
    Board, Catalog, ChipFunction, ChipType, ControlLine, ControlLineType, CpuFreqRange,
    FireCpuFreq, FireVreg, SizeHandlings, Spelling, VregLevels,
};
use onerom_cli::error::Error;
use onerom_cli::slot::{
    check_confirmations, check_slot_confirmations, parse_slot, parse_slots,
    supported_chip_names_for_board, SlotSpec,
};
use onerom_cli::slot_value::{
    expand_tilde, parse_bool, parse_cpu_freq, parse_cs_logic, parse_size_handling, parse_vreg,
};

fn strings(list: &[&str]) -> Vec<String> {
    list.iter().map(|s| s.to_string()).collect()
}

fn chip(
    names: &[&str],
    function: ChipFunction,
    lines: &[(&str, ControlLineType)],
) -> ChipType {
    ChipType {
        name: names[0].to_string(),
        aliases: strings(names),
        function,
        control_lines: lines
            .iter()
            .map(|(name, line_type)| ControlLine {
                name: name.to_string(),
                line_type: *line_type,
            })
            .collect(),
    }
}

fn catalog() -> Catalog {
    let open = ControlLineType::Configurable;
    let fixed = ControlLineType::FixedActiveLow;
    let spelling = |text: &str, value: &str| Spelling {
        text: text.to_string(),
        value: value.to_string(),
    };
    let level = |name: &str, code: u8| FireVreg {
        name: name.to_string(),
        code,
    };
    Catalog {
        chip_types: vec![
            chip(&["2316", "9316"], ChipFunction::Rom, &[("cs1", open), ("cs2", open), ("cs3", open)]),
            chip(&["2364", "4764", "MCM68764"], ChipFunction::Rom, &[("cs1", open)]),
            chip(&["2732"], ChipFunction::Rom, &[("ce", fixed), ("oe", fixed)]),
            chip(&["6116", "2016"], ChipFunction::Ram, &[("ce", fixed), ("oe", fixed)]),
            chip(&["23QL384"], ChipFunction::Rom, &[("cs1", fixed), ("cs2", open)]),
            chip(&["27C400"], ChipFunction::Rom, &[("ce", fixed), ("oe", fixed)]),
            chip(&["SystemPlugin"], ChipFunction::Plugin, &[]),
        ],
        plugin_names: strings(&["SystemPlugin", "UserPlugin"]),
        size_handlings: SizeHandlings {
            values: strings(&["none", "duplicate", "truncate", "pad"]),
            spellings: vec![
                spelling("none", "none"),
                spelling("duplicate", "duplicate"),
                spelling("dup", "duplicate"),
                spelling("truncate", "truncate"),
                spelling("trunc", "truncate"),
                spelling("pad", "pad"),
            ],
            mismatch: "unknown variant `?`".to_string(),
        },
        cpu_freqs: CpuFreqRange {
            min_mhz: 16,
            max_mhz: 800,
            stock: FireCpuFreq { value: 150 },
        },
        vregs: VregLevels {
            levels: vec![
                level("1.00V", 9),
                level("1.05V", 10),
                level("1.10V", 11),
                level("1.30V", 15),
            ],
            stock: 11,
        },
    }
}

fn board(pins: u8) -> Board {
    if pins == 40 {
        Board {
            chip_pins: 40,
            supported_chip_types: strings(&["27C400", "SystemPlugin"]),
            chip_type_names: strings(&["27C400"]),
        }
    } else {
        Board {
            chip_pins: 24,
            supported_chip_types: strings(&[
                "2316",
                "2364",
                "2732",
                "6116",
                "23QL384",
                "SystemPlugin",
            ]),
            chip_type_names: strings(&["9316", "2364", "Ä1", "2316", "2016"]),
        }
    }
}

fn read(slot: &str) -> SlotSpec {
    read_on(slot, 24)
}

fn read_on(slot: &str, pins: u8) -> SlotSpec {
    match parse_slot(slot, &board(pins), &catalog(), Some("/home/me")) {
        Ok(spec) => spec,
        Err(e) => panic!("{e:?}"),
    }
}

fn error_on(slot: &str, pins: u8) -> Error {
    match parse_slot(slot, &board(pins), &catalog(), None) {
        Ok(_) => panic!("{slot} was accepted"),
        Err(e) => e,
    }
}

fn message(slot: &str) -> String {
    message_on(slot, 24)
}

fn message_on(slot: &str, pins: u8) -> String {
    match error_on(slot, pins) {
        Error::InvalidArgument(argument, message) => {
            assert_eq!(argument, "--slot");
            message
        }
        other => panic!("{other:?}"),
    }
}

#[test]
fn a_whole_slot() {
    let spec = read(
        "file=~/basic.bin,type=mcm68764,cs1=0,size=dup,cpu=200MHz,vreg=1.3,led=ON",
    );
    assert_eq!(spec.file.as_deref(), Some("/home/me/basic.bin"));
    assert_eq!(spec.chip_type.name, "2364");
    assert_eq!(spec.chip_type.aliases, ["2364", "4764", "MCM68764"]);
    assert_eq!(spec.cs1.as_deref(), Some("active_low"));
    assert_eq!(spec.cs2, None);
    assert_eq!(spec.cs3, None);
    assert_eq!(spec.size_handling.as_deref(), Some("duplicate"));
    assert_eq!(spec.cpu_freq.unwrap().value, 200);
    let vreg = spec.vreg.unwrap();
    assert_eq!(vreg.name, "1.30V");
    assert_eq!(vreg.code, 15);
    assert_eq!(spec.led, Some(true));
    assert_eq!(spec.force_16bit, None);
}

#[test]
fn the_order_of_parts_does_not_matter() {
    let a = read("file=x,type=2316,cs1=0,cs2=1,cs3=active_high,led=off");
    let b = read("led=off,cs3=active_high,type=2316,file=x,cs2=1,cs1=0");
    assert_eq!(a.file, b.file);
    assert_eq!(a.chip_type.name, b.chip_type.name);
    assert_eq!((&a.cs1, &a.cs2, &a.cs3), (&b.cs1, &b.cs2, &b.cs3));
    assert_eq!(a.led, b.led);
    assert_eq!(a.cs2.as_deref(), Some("active_high"));
}

#[test]
fn keys_have_other_names() {
    for key in ["file", "path", "url"] {
        assert_eq!(read(&format!("{key}=a,type=2732")).file.unwrap(), "a");
    }
    for key in ["type", "rom-type", "rom_type", "chip_type", "chip-type"] {
        assert_eq!(read(&format!("file=a,{key}=2732")).chip_type.name, "2732");
    }
    for key in ["size_handling", "size"] {
        assert_eq!(
            read(&format!("file=a,type=2732,{key}=pad")).size_handling.unwrap(),
            "pad"
        );
    }
    for key in [
        "cpu",
        "freq",
        "frequency",
        "cpu-freq",
        "cpu_freq",
        "cpu_frequency",
        "cpu-frequency",
    ] {
        let spec = read(&format!("file=a,type=2732,{key}=100"));
        assert_eq!(spec.cpu_freq.unwrap().value, 100);
    }
    for key in ["vreg", "cpu-vreg", "cpu_vreg"] {
        let spec = read(&format!("file=a,type=2732,{key}=1.00V"));
        assert_eq!(spec.vreg.unwrap().code, 9);
    }
    for key in ["led", "status_led", "status-led"] {
        assert_eq!(read(&format!("file=a,type=2732,{key}=0")).led, Some(false));
    }
    for key in ["16bit", "force_16bit", "force_16_bit", "force-16bit", "force-16-bit"] {
        let spec = read_on(&format!("file=a,type=27C400,{key}=true"), 40);
        assert_eq!(spec.force_16bit, Some(true));
    }
}

#[test]
fn other_names_of_keys_say_the_same() {
    let a = read("file=x,type=2732,size=dup,cpu=200,vreg=1.3,led=on");
    let b = read("url=x,chip-type=2732,size_handling=dup,frequency=200,cpu_vreg=1.3,status-led=on");
    assert_eq!(a.file, b.file);
    assert_eq!(a.chip_type.name, b.chip_type.name);
    assert_eq!(a.size_handling, b.size_handling);
    assert_eq!(a.cpu_freq.unwrap().value, b.cpu_freq.unwrap().value);
    assert_eq!(a.vreg.unwrap().code, b.vreg.unwrap().code);
    assert_eq!(a.led, b.led);
}

#[test]
fn the_later_of_two_names_counts() {
    assert_eq!(read("file=a,path=b,type=2732").file.unwrap(), "b");
    assert_eq!(read("url=c,file=a,type=2732").file.unwrap(), "a");
}

#[test]
fn keys_are_trimmed_and_values_are_not() {
    let spec = read(" file = a ,\u{2003}type\t=2732");
    assert_eq!(spec.file.unwrap(), " a ");
    assert_eq!(
        message("file=a, file =b,type=2732"),
        "Duplicate slot key 'file' found.\n    --slot 'file=a, file =b,type=2732'"
    );
}

#[test]
fn values_may_hold_equals_signs() {
    assert_eq!(read("file=a=b,type=2732").file.unwrap(), "a=b");
}

#[test]
fn part_errors() {
    assert_eq!(
        message("file=a,type"),
        "Slot key 'type' is missing a value - expected 'type=<value>'\n    --slot 'file=a,type'"
    );
    assert_eq!(
        message(""),
        "Slot key '' is missing a value - expected '=<value>'\n    --slot ''"
    );
    assert_eq!(
        message("led=on,led=on"),
        "Duplicate slot key 'led' found.\n    --slot 'led=on,led=on'"
    );
    assert_eq!(
        message("colour=red"),
        "Unrecognised slot key 'colour'\n    --slot 'colour=red'\n  Supported keys: file, type, cs1, cs2, cs3, size_handling, size, cpu-freq, cpu-vreg, led, force_16bit"
    );
    // The first part with which something is wrong gives the error.
    assert_eq!(
        message("cs1=2,led=maybe"),
        "Invalid CS logic '2': expected cs1=active_low|active_high|0|1\n   --slot 'cs1=2,led=maybe'"
    );
}

#[test]
fn missing_type_and_file() {
    assert_eq!(
        message("file=a"),
        "slot missing 'type' key\n    --slot 'file=a'"
    );
    assert_eq!(
        message("type=2732"),
        "Missing 'file' key for ROM chip.\n    --slot 'type=2732'"
    );
    assert_eq!(
        message("type=SystemPlugin"),
        "Missing 'file' key for ROM chip.\n    --slot 'type=SystemPlugin'"
    );
    assert_eq!(read("type=6116").file, None);
}

#[test]
fn chip_types_that_do_not_fit() {
    assert_eq!(
        format!("{:?}", error_on("file=a,type=nonsense", 24)),
        "UnsupportedChipType(\"nonsense\", \"2016, 2316, 2364, 9316, SystemPlugin, UserPlugin, Ä1\")"
    );
    assert_eq!(
        format!("{:?}", error_on("file=a,type=9316", 40)),
        "UnsupportedBoardChipType(\"2316\", \"2316, 9316\", \"27C400, SystemPlugin, UserPlugin\")"
    );
    // The board is checked before the file.
    assert!(matches!(
        error_on("type=2316", 40),
        Error::UnsupportedBoardChipType(_, _, _)
    ));
}

#[test]
fn supported_names_are_sorted() {
    assert_eq!(
        supported_chip_names_for_board(&board(24), &catalog()),
        "2016, 2316, 2364, 9316, SystemPlugin, UserPlugin, Ä1"
    );
    assert_eq!(
        supported_chip_names_for_board(&board(40), &catalog()),
        "27C400, SystemPlugin, UserPlugin"
    );
}

#[test]
fn chip_select_lines() {
    assert_eq!(
        message("file=a,type=2316,cs1=0,cs3=1"),
        "Chip type 2316 requires cs2 to be specified\n    --slot 'file=a,type=2316,cs1=0,cs3=1'"
    );
    assert_eq!(
        message("file=a,type=23QL384,cs1=0,cs2=0"),
        "Chip type 23QL384 has fixed active-low cs1, do not specify it\n    --slot 'file=a,type=23QL384,cs1=0,cs2=0'"
    );
    assert_eq!(
        message("file=a,type=2364,cs1=0,cs3=0,cs2=0"),
        "Chip type 2364 has no cs2 line\n    --slot 'file=a,type=2364,cs1=0,cs3=0,cs2=0'"
    );
    assert_eq!(
        message("file=a,type=2732,cs1=0"),
        "Chip type 2732 has no cs1 line\n    --slot 'file=a,type=2732,cs1=0'"
    );
    let spec = read("file=a,type=23QL384,cs2=active_low");
    assert_eq!(spec.cs1, None);
    assert_eq!(spec.cs2.as_deref(), Some("active_low"));
}

#[test]
fn sixteen_bit_mode_needs_forty_pins() {
    assert_eq!(
        message("file=a,type=2732,16bit=off"),
        "force_16bit is only valid on 40-pin boards\n    --slot 'file=a,type=2732,16bit=off'"
    );
    assert_eq!(
        read_on("file=a,type=27c400,16bit=off", 40).force_16bit,
        Some(false)
    );
}

#[test]
fn tildes() {
    assert_eq!(expand_tilde("~/x", Some("/h")), "/h/x");
    assert_eq!(expand_tilde("~/x", None), "~/x");
    assert_eq!(expand_tilde("~x", Some("/h")), "~x");
    assert_eq!(expand_tilde("a/~/x", Some("/h")), "a/~/x");
    assert_eq!(expand_tilde("~/", Some("/h")), "/h/");
    assert_eq!(expand_tilde("", Some("/h")), "");
}

#[test]
fn polarities() {
    assert_eq!(parse_cs_logic("s", "cs1", "0").unwrap(), "active_low");
    assert_eq!(parse_cs_logic("s", "cs1", "active_low").unwrap(), "active_low");
    assert_eq!(parse_cs_logic("s", "cs1", "1").unwrap(), "active_high");
    assert_eq!(parse_cs_logic("s", "cs1", "active_high").unwrap(), "active_high");
    assert!(parse_cs_logic("s", "cs1", "Active_High").is_err());
    assert!(parse_cs_logic("s", "cs1", "").is_err());
}

#[test]
fn truth_values() {
    for text in ["true", "TRUE", "on", "On", "1"] {
        assert!(parse_bool("s", "led", text).unwrap());
    }
    for text in ["false", "False", "off", "OFF", "0"] {
        assert!(!parse_bool("s", "led", text).unwrap());
    }
    match parse_bool("s", "led", "MÄYBE\u{130}") {
        Err(Error::InvalidArgument(_, message)) => assert_eq!(
            message,
            "Invalid boolean 'mäybei\u{307}': expected led=true|false|on|off|1|0\n    --slot 's'"
        ),
        other => panic!("{other:?}"),
    }
    assert!(parse_bool("s", "led", " on").is_err());
}

#[test]
fn size_handlings() {
    let names = catalog().size_handlings;
    for (text, value) in [
        ("none", "none"),
        ("dup", "duplicate"),
        ("trunc", "truncate"),
        ("pad", "pad"),
        // The value is read as a JSON string.
        ("p\\u0061d", "pad"),
    ] {
        assert_eq!(parse_size_handling("s", text, &names).unwrap(), value);
        assert_eq!(parse_size_handling("t", value, &names).unwrap(), value);
    }
    for text in ["Pad", "", "pad\"", "pa\td", "p\\ad", "?"] {
        match parse_size_handling("s", text, &names) {
            Err(Error::InvalidArgument(_, message)) => assert_eq!(
                message,
                format!(
                    "Invalid size_handling '{text}': unknown variant `?`\n    --slot 's'\n  Supported values none, duplicate, truncate, pad"
                )
            ),
            other => panic!("{other:?}"),
        }
    }
}

#[test]
fn cpu_frequencies() {
    let range = catalog().cpu_freqs;
    for (text, mhz) in [
        ("150", 150),
        ("150MHz", 150),
        ("150mhz", 150),
        ("150mHZ", 150),
        ("+16", 16),
        ("0000000800", 800),
    ] {
        assert_eq!(parse_cpu_freq("s", "cpu", text, &range).unwrap().value, mhz);
    }
    for text in ["15", "801", "0MHz", "65535"] {
        let digits = text.trim_end_matches("MHz");
        match parse_cpu_freq("s", "cpu", text, &range) {
            Err(Error::InvalidArgument(_, message)) => assert_eq!(
                message,
                format!("CPU frequency {digits}MHz out of range (16-800MHz)\n    --slot 's'")
            ),
            other => panic!("{other:?}"),
        }
    }
    for text in ["", "MHz", "65536", "-1", "+", "1 50", "150 MHz", "150Mhzz", "１５０", "99999999999999999999"] {
        match parse_cpu_freq("s", "cpu", text, &range) {
            Err(Error::InvalidArgument(_, message)) => assert_eq!(
                message,
                format!(
                    "Invalid CPU frequency '{text}': expected formats cpu=150|150MHz\n    --slot 's'"
                )
            ),
            other => panic!("{other:?}"),
        }
    }
}

#[test]
fn voltages() {
    let vregs = catalog().vregs;
    for (text, name) in [
        ("1.1", "1.10V"),
        ("1.10", "1.10V"),
        ("1.10V", "1.10V"),
        ("1.1v", "1.10V"),
        ("1.", "1.00V"),
        ("1.V", "1.00V"),
        ("1.05", "1.05V"),
        ("\\u0031.05", "1.05V"),
    ] {
        assert_eq!(parse_vreg("s", "vreg", text, &vregs).unwrap().name, name);
    }
    let text = |value: &str| match parse_vreg("s", "vreg", value, &vregs) {
        Err(Error::InvalidArgument(_, message)) => message,
        other => panic!("{other:?}"),
    };
    assert_eq!(
        text("1"),
        "Invalid VReg '1': expected format vreg=1.1|1.10|1.10V\n    --slot 's'"
    );
    assert_eq!(
        text("1.100"),
        "Invalid VReg '1.100': too many decimal places, max 2\n    --slot 's'"
    );
    assert_eq!(
        text("1.é"),
        "Invalid VReg '1.é': too many decimal places, max 2\n    --slot 's'"
    );
    assert_eq!(
        text("1.10VV"),
        "Invalid VReg '1.10VV': too many decimal places, max 2\n    --slot 's'"
    );
    assert_eq!(
        text("9.9"),
        "Unsupported VReg '9.9'\n    --slot 's'\n  Supported levels: 1.00V, 1.05V, 1.10V, 1.30V"
    );
    assert_eq!(
        text("1\".10"),
        "Unsupported VReg '1\".10'\n    --slot 's'\n  Supported levels: 1.00V, 1.05V, 1.10V, 1.30V"
    );
}

#[test]
fn lists_of_slots() {
    let list = strings(&["file=a,type=2732", "type=6116"]);
    let specs = parse_slots(&list, &board(24), &catalog(), None).ok().unwrap();
    assert_eq!(specs.len(), 2);
    assert_eq!(specs[0].chip_type.name, "2732");
    assert_eq!(specs[1].chip_type.name, "6116");
    let list = strings(&["type=6116", "file=a", "x"]);
    match parse_slots(&list, &board(24), &catalog(), None) {
        Err(Error::InvalidArgument(_, message)) => assert_eq!(
            message,
            "slot missing 'type' key\n    --slot 'file=a'"
        ),
        _ => panic!("accepted"),
    }
    assert_eq!(
        parse_slots(&[], &board(24), &catalog(), None).ok().unwrap().len(),
        0
    );
}

#[test]
fn confirmations() {
    let catalog = catalog();
    let ask = |list: &[&str]| {
        let r = check_slot_confirmations(&strings(list), &board(24), &catalog, None)
            .ok()
            .unwrap();
        (r.cpu_freq, r.vreg)
    };
    assert_eq!(ask(&[]), (false, false));
    assert_eq!(ask(&["type=6116"]), (false, false));
    assert_eq!(ask(&["type=6116,cpu=150,vreg=1.1"]), (false, false));
    assert_eq!(ask(&["type=6116,cpu=151"]), (true, false));
    assert_eq!(ask(&["type=6116", "type=6116,vreg=1.3,cpu=16"]), (false, true));
    assert_eq!(ask(&["type=6116,cpu=800", "type=6116,vreg=1.3"]), (true, true));
    assert!(check_slot_confirmations(&strings(&["cpu=800"]), &board(24), &catalog, None).is_err());
}

#[test]
fn special_values_need_no_confirmation() {
    let catalog = catalog();
    let mut spec = read("type=6116");
    spec.cpu_freq = Some(FireCpuFreq { value: 0xffff });
    spec.vreg = Some(FireVreg {
        name: "Stock".to_string(),
        code: 0xff,
    });
    let r = check_confirmations(&[spec], &catalog);
    assert!(!r.cpu_freq);
    assert!(!r.vreg);
}
