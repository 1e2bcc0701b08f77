use onerom_cli::error::Error;
use onerom_cli::firmware::FirmwareVersion;
use onerom_cli::manifest::{
    check_status, fetch_error, is_success_status, plugin_releases_url, plugins_manifest_url,
    FetchFailure, PluginRelease,
};
use onerom_cli::plugin::{
    canonical_plugin_type, parse_plugin, parse_plugins, short_plugin_type,
    validate_resolved_plugin_types, PluginSpec, PLUGIN_TYPE_SYSTEM, PLUGIN_TYPE_USER,
};
use onerom_cli::plugin_config::{plugin_size_handling, plugin_to_chip_set_json};

fn named(s: &str) -> (String, Option<&'static str>, Option<String>) {
    match parse_plugin(s) {
        Ok(PluginSpec::Named {
            name,
            plugin_type,
            version,
        }) => (name, plugin_type, version),
        other => panic!("{other:?}"),
    }
}

fn message(s: &str) -> String {
    match parse_plugin(s) {
        Err(Error::InvalidArgument(argument, message)) => {
            assert_eq!(argument, "--plugin");
            message
        }
        other => panic!("{other:?}"),
    }
}

fn all(list: &[&str]) -> Result<Vec<PluginSpec>, Error> {
    let list: Vec<String> = list.iter().map(|s| s.to_string()).collect();
    parse_plugins(&list)
}

fn said<T: std::fmt::Debug>(r: Result<T, Error>) -> String {
    match r {
        Ok(v) => panic!("{v:?}"),
        Err(e) => format!("{e:?}"),
    }
}

#[test]
fn type_names() {
    assert_eq!(PLUGIN_TYPE_SYSTEM, "system_plugin");
    assert_eq!(PLUGIN_TYPE_USER, "user_plugin");
    assert_eq!(canonical_plugin_type("system"), Some("system_plugin"));
    assert_eq!(canonical_plugin_type("system_plugin"), Some("system_plugin"));
    assert_eq!(canonical_plugin_type("user"), Some("user_plugin"));
    assert_eq!(canonical_plugin_type("user_plugin"), Some("user_plugin"));
    assert_eq!(canonical_plugin_type("System"), None);
    assert_eq!(canonical_plugin_type(""), None);
    assert_eq!(short_plugin_type("system_plugin"), "system");
    assert_eq!(short_plugin_type("user_plugin"), "user");
    assert_eq!(short_plugin_type("user"), "user");
    assert_eq!(short_plugin_type("other"), "other");
}

#[test]
fn names_and_versions() {
    assert_eq!(named("usb"), ("usb".to_string(), None, None));
    assert_eq!(
        named("system/usb"),
        ("usb".to_string(), Some("system_plugin"), None)
    );
    assert_eq!(
        named("usb,version=0.1.0"),
        ("usb".to_string(), None, Some("0.1.0".to_string()))
    );
    assert_eq!(
        named("user_plugin/foo,version=0.1.0"),
        (
            "foo".to_string(),
            Some("user_plugin"),
            Some("0.1.0".to_string())
        )
    );
    assert_eq!(
        named("system/a/b,version=1=2"),
        (
            "a/b".to_string(),
            Some("system_plugin"),
            Some("1=2".to_string())
        )
    );
    assert_eq!(named("grün"), ("grün".to_string(), None, None));
}

#[test]
fn files() {
    for path in ["path/to/plugin.bin", "https://example.com/p.bin", "a,b=c"] {
        match parse_plugin(&format!("file={path}")) {
            Ok(PluginSpec::File { path: p }) => assert_eq!(p, path),
            other => panic!("{other:?}"),
        }
    }
    assert_eq!(
        message("file="),
        "file path must not be empty\n    --plugin 'file='"
    );
}

#[test]
fn option_errors() {
    assert_eq!(
        message("usb,version"),
        "Plugin option 'version' is missing a value - expected 'version=<value>'\n    --plugin 'usb,version'"
    );
    assert_eq!(
        message("usb,"),
        "Plugin option '' is missing a value - expected '=<value>'\n    --plugin 'usb,'"
    );
    assert_eq!(
        message("usb,version=1,version=2"),
        "Duplicate plugin option 'version'\n    --plugin 'usb,version=1,version=2'"
    );
    assert_eq!(
        message("usb,version="),
        "version must not be empty\n    --plugin 'usb,version='"
    );
    assert_eq!(
        message("usb,colour=red"),
        "Unrecognised plugin option 'colour'\n    --plugin 'usb,colour=red'\n  Supported options: version"
    );
    // Options are not trimmed.
    assert_eq!(
        message("usb, version=1"),
        "Unrecognised plugin option ' version'\n    --plugin 'usb, version=1'\n  Supported options: version"
    );
}

#[test]
fn name_errors() {
    assert_eq!(message(""), "Plugin name must not be empty\n    --plugin ''");
    assert_eq!(
        message("system/"),
        "Plugin name must not be empty\n    --plugin 'system/'"
    );
    assert_eq!(
        message("kernel/usb"),
        "Invalid plugin type 'kernel': expected 'system' or 'user'\n    --plugin 'kernel/usb'"
    );
    // An option's error comes first.
    assert_eq!(
        message("kernel/usb,x"),
        "Plugin option 'x' is missing a value - expected 'x=<value>'\n    --plugin 'kernel/usb,x'"
    );
}

#[test]
fn sets_of_plugins() {
    assert_eq!(all(&[]).unwrap().len(), 0);
    let specs = all(&["system/usb", "user/foo"]).unwrap();
    assert!(matches!(&specs[0], PluginSpec::Named { name, .. } if name == "usb"));
    assert!(matches!(&specs[1], PluginSpec::Named { name, .. } if name == "foo"));
    assert_eq!(
        said(all(&["system/a", "usb", "system/b"])),
        "DuplicatePlugin(\"system\")"
    );
    assert_eq!(
        said(all(&["user/a", "user/b", "system/c", "system/d"])),
        "DuplicatePlugin(\"user\")"
    );
    assert_eq!(said(all(&["user/foo"])), "UserPluginWithoutSystem");
    assert_eq!(said(all(&["usb", "user/foo"])), "UserPluginWithoutSystem");
    assert!(all(&["usb", "file=x", "file=y"]).is_ok());
    // An argument that cannot be read comes before types that do not go together.
    assert_eq!(
        said(all(&["system/a", "system/b", "file="])),
        "InvalidArgument(\"--plugin\", \"file path must not be empty\\n    --plugin 'file='\")"
    );
}

#[test]
fn resolved_types() {
    assert!(validate_resolved_plugin_types(&[]).is_ok());
    assert!(validate_resolved_plugin_types(&["system_plugin"]).is_ok());
    assert!(validate_resolved_plugin_types(&["user_plugin", "system_plugin"]).is_ok());
    assert!(validate_resolved_plugin_types(&["other", "other"]).is_ok());
    assert_eq!(
        said(validate_resolved_plugin_types(&[
            "user_plugin",
            "user_plugin",
            "system_plugin",
            "system_plugin"
        ])),
        "DuplicatePlugin(\"system\")"
    );
    assert_eq!(
        said(validate_resolved_plugin_types(&[
            "user_plugin",
            "system_plugin",
            "user_plugin"
        ])),
        "DuplicatePlugin(\"user\")"
    );
    assert_eq!(
        said(validate_resolved_plugin_types(&["user_plugin"])),
        "UserPluginWithoutSystem"
    );
}

#[test]
fn both_phases_agree_on_known_types() {
    let words = ["system", "user"];
    for a in words {
        for b in words {
            for c in words {
                let list = [format!("{a}/x"), format!("{b}/y"), format!("{c}/z")];
                let types = [
                    canonical_plugin_type(a).unwrap(),
                    canonical_plugin_type(b).unwrap(),
                    canonical_plugin_type(c).unwrap(),
                ];
                for n in 0..4 {
                    assert_eq!(
                        parse_plugins(&list[..n]).is_ok(),
                        validate_resolved_plugin_types(&types[..n]).is_ok()
                    );
                }
            }
        }
    }
}

#[test]
fn plugin_sizes() {
    assert_eq!(plugin_size_handling(0).unwrap(), "pad");
    assert_eq!(plugin_size_handling(65535).unwrap(), "pad");
    assert_eq!(plugin_size_handling(65536).unwrap(), "none");
    assert_eq!(
        said(plugin_size_handling(65537)),
        "PluginTooLarge(65537, 65536)"
    );
}

#[test]
fn plugin_chip_sets() {
    let set = plugin_to_chip_set_json("usb.bin", "system_plugin", None, 1000).unwrap();
    assert_eq!(
        set.to_string(),
        r#"{"chips":[{"file":"usb.bin","size_handling":"pad","type":"system_plugin"}],"type":"single"}"#
    );
    let set = plugin_to_chip_set_json("p", "user_plugin", Some("A \"plugin\""), 65536).unwrap();
    assert_eq!(
        set.to_string(),
        r#"{"chips":[{"description":"A \"plugin\"","file":"p","size_handling":"none","type":"user_plugin"}],"type":"single"}"#
    );
    assert_eq!(
        said(plugin_to_chip_set_json("p", "user_plugin", None, 70000)),
        "PluginTooLarge(70000, 65536)"
    );
}

fn release() -> PluginRelease {
    PluginRelease {
        version: "0.1.0".to_string(),
        path: "v0.1.0".to_string(),
        filename: "usb.bin".to_string(),
        sha256: "00".to_string(),
        api_version: 1,
        plugin_type: "system_plugin".to_string(),
        min_fw_version: version(0, 6, 7, 0),
    }
}

fn version(major: u16, minor: u16, patch: u16, build: u16) -> FirmwareVersion {
    FirmwareVersion {
        major,
        minor,
        patch,
        build,
    }
}

#[test]
fn urls() {
    assert_eq!(
        plugins_manifest_url(),
        "https://images.onerom.org/plugins/plugins.json"
    );
    assert_eq!(
        plugin_releases_url("system", "usb"),
        "https://images.onerom.org/plugins/system/usb/releases.json"
    );
    assert_eq!(
        release().binary_url("system", "usb"),
        "https://images.onerom.org/plugins/system/usb/v0.1.0/usb.bin"
    );
}

#[test]
fn firmware_versions() {
    let r = release();
    assert!(r.compatible_with_firmware(&version(0, 6, 7, 0)));
    assert!(r.compatible_with_firmware(&version(0, 6, 7, 1)));
    assert!(r.compatible_with_firmware(&version(0, 7, 0, 0)));
    assert!(r.compatible_with_firmware(&version(1, 0, 0, 0)));
    assert!(!r.compatible_with_firmware(&version(0, 6, 6, 9)));
    assert!(!r.compatible_with_firmware(&version(0, 5, 9, 9)));
    let mut later = release();
    later.min_fw_version = version(1, 0, 0, 0);
    assert!(!later.compatible_with_firmware(&version(0, 9, 9, 9)));
}

#[test]
fn fetching() {
    let text = |failure| format!("{:?}", fetch_error("u", failure));
    assert_eq!(
        text(FetchFailure::Unreachable("down".to_string())),
        "Network(\"u\", \"down\")"
    );
    assert_eq!(text(FetchFailure::Refused(500)), "Http(\"u\", 500)");
    assert_eq!(
        text(FetchFailure::Malformed("eof".to_string())),
        "Json(\"u\", \"eof\")"
    );
    for status in [200, 204, 299] {
        assert!(is_success_status(status));
        assert!(check_status("u", status).is_ok());
    }
    for status in [0, 199, 300, 404, 500, 65535] {
        assert!(!is_success_status(status));
        assert_eq!(
            said(check_status("u", status)),
            format!("Http(\"u\", {status})")
        );
    }
}

#[test]
fn io_errors() {
    assert_eq!(
        format!("{:?}", Error::io("a.json", "denied")),
        "Io(\"a.json: denied\")"
    );
}
