use onerom_cli::catalog::{
    Board, Catalog, ChipFunction, ChipType, ControlLine, ControlLineType, CpuFreqRange,
    FireCpuFreq, FireVreg, SizeHandlings, Spelling, VregLevels,
};
use onerom_cli::slot::{check_confirmations, parse_slots, SlotSpec};
use onerom_cli::slot_config::{
    slot_to_chip_json, slot_to_firmware_overrides_json, slots_to_config_json,
    slots_to_config_value,
};
use serde_json::Value;

fn catalog() -> Catalog {
    let level = |name: &str, code: u8| FireVreg {
        name: name.to_string(),
        code,
    };
    Catalog {
        chip_types: vec![
            ChipType {
                name: "27C400".to_string(),
                aliases: vec!["27C400".to_string(), "27400".to_string()],
                function: ChipFunction::Rom,
                control_lines: vec![],
            },
            ChipType {
                name: "2316".to_string(),
                aliases: vec!["2316".to_string()],
                function: ChipFunction::Rom,
                control_lines: ["cs1", "cs2", "cs3"]
                    .iter()
                    .map(|name| ControlLine {
                        name: name.to_string(),
                        line_type: ControlLineType::Configurable,
                    })
                    .collect(),
            },
            ChipType {
                name: "6116".to_string(),
                aliases: vec!["6116".to_string()],
                function: ChipFunction::Ram,
                control_lines: vec![],
            },
        ],
        plugin_names: vec![],
        size_handlings: SizeHandlings {
            values: vec!["pad".to_string()],
            spellings: vec![Spelling {
                text: "pad".to_string(),
                value: "pad".to_string(),
            }],
            mismatch: String::new(),
        },
        cpu_freqs: CpuFreqRange {
            min_mhz: 16,
            max_mhz: 800,
            stock: FireCpuFreq { value: 150 },
        },
        vregs: VregLevels {
            levels: vec![level("1.10V", 11), level("1.30V", 15)],
            stock: 11,
        },
    }
}

fn read(list: &[&str]) -> Vec<SlotSpec> {
    let board = Board {
        chip_pins: 40,
        supported_chip_types: vec![
            "27C400".to_string(),
            "2316".to_string(),
            "6116".to_string(),
        ],
        chip_type_names: vec![],
    };
    let list: Vec<String> = list.iter().map(|s| s.to_string()).collect();
    match parse_slots(&list, &board, &catalog(), None) {
        Ok(specs) => specs,
        Err(e) => panic!("{e:?}"),
    }
}

fn chip(slot: &str) -> String {
    slot_to_chip_json(&read(&[slot])[0]).to_string()
}

fn overrides(slot: &str) -> Option<String> {
    slot_to_firmware_overrides_json(&read(&[slot])[0], &catalog()).map(|v| v.to_string())
}

#[test]
fn chips() {
    assert_eq!(chip("type=6116"), r#"{"type":"6116"}"#);
    assert_eq!(
        chip("type=27400,file=a b.bin"),
        r#"{"file":"a b.bin","type":"27C400"}"#
    );
    assert_eq!(
        chip("file=x,type=2316,cs1=0,cs2=1,cs3=0,size=pad"),
        r#"{"cs1":"active_low","cs2":"active_high","cs3":"active_low","file":"x","size_handling":"pad","type":"2316"}"#
    );
}

#[test]
fn firmware_overrides() {
    assert_eq!(overrides("type=6116"), None);
    assert_eq!(
        overrides("type=6116,led=off").unwrap(),
        r#"{"led":{"enabled":false}}"#
    );
    assert_eq!(
        overrides("type=6116,cpu=+0150").unwrap(),
        r#"{"fire":{"cpu_freq":"150MHz","overclock":false}}"#
    );
    assert_eq!(
        overrides("type=6116,cpu=151mhz,vreg=1.3,16bit=on,led=on").unwrap(),
        r#"{"fire":{"cpu_freq":"151MHz","force_16_bit":true,"overclock":true,"vreg":"1.30V"},"led":{"enabled":true}}"#
    );
    assert_eq!(
        overrides("type=6116,vreg=1.1v").unwrap(),
        r#"{"fire":{"vreg":"1.10V"}}"#
    );
    assert_eq!(
        overrides("type=6116,16bit=0").unwrap(),
        r#"{"fire":{"force_16_bit":false}}"#
    );
}

#[test]
fn a_whole_configuration() {
    let specs = read(&["file=a.bin,type=27C400,led=on", "type=6116"]);
    let text = slots_to_config_json(&specs, Some("Mine"), Some("Two chips"), &catalog())
        .ok()
        .unwrap();
    let expected = r#"{
  "$schema": "https://images.onerom.org/configs/schema.json",
  "chip_sets": [
    {
      "chips": [
        {
          "file": "a.bin",
          "type": "27C400"
        }
      ],
      "firmware_overrides": {
        "led": {
          "enabled": true
        }
      },
      "type": "single"
    },
    {
      "chips": [
        {
          "type": "6116"
        }
      ],
      "type": "single"
    }
  ],
  "description": "Two chips",
  "name": "Mine",
  "version": 1
}"#;
    assert_eq!(text, expected);
}

#[test]
fn the_default_description() {
    let value = slots_to_config_value(&[], None, None, &catalog());
    assert_eq!(value["description"], Value::from("Created by the One ROM CLI"));
    assert_eq!(value["chip_sets"], Value::from(Vec::<Value>::new()));
    assert_eq!(value["version"], Value::from(1));
    assert!(value.get("name").is_none());
}

#[test]
fn the_text_reads_back() {
    let specs = read(&["file=q\"\\n\u{1},type=27C400,cpu=800"]);
    let value = slots_to_config_value(&specs, Some("é"), None, &catalog());
    let text = slots_to_config_json(&specs, Some("é"), None, &catalog())
        .ok()
        .unwrap();
    assert_eq!(serde_json::from_str::<Value>(&text).unwrap(), value);
    assert_eq!(
        value["chip_sets"][0]["chips"][0]["file"],
        Value::from("q\"\\n\u{1}")
    );
}

#[test]
fn overclocking_is_confirmed() {
    let catalog = catalog();
    for list in [
        vec![],
        vec!["type=6116,cpu=150"],
        vec!["type=6116,led=on", "type=6116,cpu=151"],
        vec!["type=6116,vreg=1.3,cpu=16", "type=6116"],
    ] {
        let specs = read(&list);
        let value = slots_to_config_value(&specs, None, None, &catalog);
        let says = value["chip_sets"]
            .as_array()
            .unwrap()
            .iter()
            .any(|set| set["firmware_overrides"]["fire"]["overclock"] == Value::from(true));
        assert_eq!(check_confirmations(&specs, &catalog).cpu_freq, says);
    }
}

#[test]
fn settings_read_back() {
    let catalog = catalog();
    let spec = &read(&["type=6116,cpu=0200,vreg=1.3v,size=p\\u0061d"])[0];
    let chip = slot_to_chip_json(spec);
    let fire = &slot_to_firmware_overrides_json(spec, &catalog).unwrap()["fire"];
    let again = format!(
        "type=6116,size={},cpu={},vreg={}",
        chip["size_handling"].as_str().unwrap(),
        fire["cpu_freq"].as_str().unwrap(),
        fire["vreg"].as_str().unwrap()
    );
    let spec = &read(&[&again])[0];
    assert_eq!(spec.cpu_freq.unwrap().value, 200);
    assert_eq!(spec.vreg.as_ref().unwrap().code, 15);
    assert_eq!(spec.size_handling.as_deref(), Some("pad"));
}
