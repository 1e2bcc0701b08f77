//! Plugin specifications from the command line.
//!
//! A firmware image holds at most one system plugin and at most one user plugin, and a user
//! plugin only together with a system plugin. Specifications are handled in two phases:
//! [`parse_plugins`] reads them and checks what is known of their types; once the caller has
//! found out all types, from the manifests or the binaries, [`validate_resolved_plugin_types`]
//! checks the whole set.
use vstd::prelude::*;

use crate::error::{Error, ErrorView};
use crate::text::{
    concat3, concat5, contains, cut, opt_str, opt_text, pieces, same, split, split_once,
    str_texts, strip_prefix, texts, without_prefix,
};

verus! {

/// The type of system plugins, as configurations name it.
pub const PLUGIN_TYPE_SYSTEM: &'static str = "system_plugin";

/// The type of user plugins, as configurations name it.
pub const PLUGIN_TYPE_USER: &'static str = "user_plugin";

/// A plugin as the command line specifies it.
///
/// ```text
/// usb                            by name, the latest compatible version
/// system/usb                     by type and name
/// usb,version=0.1.0              by name, in a given version
/// system/usb,version=0.1.0       by type and name, in a given version
/// file=path/to/plugin.bin        a file
/// file=https://example.com/p.bin a file elsewhere
/// ```
#[derive(Debug, Clone)]
pub enum PluginSpec {
    /// A plugin of the release manifest. Where no type was given, it is known once the manifest
    /// has been read.
    Named { name: String, plugin_type: Option<&'static str>, version: Option<String> },
    /// A file. Its type is known once its header has been read.
    File { path: String },
}

/// A plugin specification as a mathematical value.
#[verifier::ext_equal]
pub enum PluginSpecView {
    Named { name: Seq<char>, plugin_type: Option<Seq<char>>, version: Option<Seq<char>> },
    File { path: Seq<char> },
}

impl View for PluginSpec {
    type V = PluginSpecView;

    open spec fn view(&self) -> PluginSpecView {
        match self {
            PluginSpec::Named { name, plugin_type, version } => PluginSpecView::Named {
                name: name@,
                plugin_type: opt_str(*plugin_type),
                version: opt_text(*version),
            },
            PluginSpec::File { path } => PluginSpecView::File { path: path@ },
        }
    }
}

/// What a sequence of plugin specifications says.
pub open spec fn spec_views(specs: Seq<PluginSpec>) -> Seq<PluginSpecView> {
    Seq::new(specs.len(), |i: int| specs[i]@)
}

/// The type that a short or a full type name stands for.
pub open spec fn canonical_type(s: Seq<char>) -> Option<Seq<char>> {
    if s == "system"@ || s == "system_plugin"@ {
        Some(PLUGIN_TYPE_SYSTEM@)
    } else if s == "user"@ || s == "user_plugin"@ {
        Some(PLUGIN_TYPE_USER@)
    } else {
        None
    }
}

/// The short name of a type; what is no type is its own.
pub open spec fn short_type(canonical: Seq<char>) -> Seq<char> {
    if canonical == PLUGIN_TYPE_SYSTEM@ {
        "system"@
    } else if canonical == PLUGIN_TYPE_USER@ {
        "user"@
    } else {
        canonical
    }
}

/// The error of a `--plugin` argument `s`: what is wrong, where, and what may follow.
pub open spec fn plugin_error(message: Seq<char>, s: Seq<char>, note: Seq<char>) -> ErrorView {
    ErrorView::InvalidArgument("--plugin"@, message + "\n    --plugin '"@ + s + "'"@ + note)
}

/// The key of an option: what stands before its first equals sign.
pub open spec fn option_key(option: Seq<char>) -> Seq<char> {
    match split_once(option, '=') {
        Some((key, _)) => key,
        None => option,
    }
}

/// The value of an option: what stands behind its first equals sign.
pub open spec fn option_value(option: Seq<char>) -> Seq<char> {
    match split_once(option, '=') {
        Some((_, value)) => value,
        None => Seq::empty(),
    }
}

/// What is wrong with the option at `i`, after options with which nothing is.
pub open spec fn option_error(s: Seq<char>, options: Seq<Seq<char>>, i: int) -> Option<ErrorView> {
    let option = options[i];
    let key = option_key(option);
    if split_once(option, '=') is None {
        Some(
            plugin_error(
                "Plugin option '"@ + option + "' is missing a value - expected '"@ + option
                    + "=<value>'"@,
                s,
                ""@,
            ),
        )
    } else if exists|j: int| 0 <= j < i && option_key(#[trigger] options[j]) == key {
        Some(plugin_error("Duplicate plugin option '"@ + key + "'"@, s, ""@))
    } else if key != "version"@ {
        Some(
            plugin_error(
                "Unrecognised plugin option '"@ + key + "'"@,
                s,
                "\n  Supported options: version"@,
            ),
        )
    } else if option_value(option).len() == 0 {
        Some(plugin_error("version must not be empty"@, s, ""@))
    } else {
        None
    }
}

/// What is wrong with the first of the options before `n` with which something is.
pub open spec fn options_error(s: Seq<char>, options: Seq<Seq<char>>, n: int) -> Option<ErrorView>
    decreases n,
{
    if n <= 0 {
        None
    } else if options_error(s, options, n - 1) is Some {
        options_error(s, options, n - 1)
    } else {
        option_error(s, options, n - 1)
    }
}

/// The version that the last of the options before `n` gives.
pub open spec fn options_version(options: Seq<Seq<char>>, n: int) -> Option<Seq<char>> {
    if n > 0 {
        Some(option_value(options[n - 1]))
    } else {
        None
    }
}

/// The options of a named plugin: what stands between the commas behind the first one.
pub open spec fn options_of(s: Seq<char>) -> Seq<Seq<char>> {
    match split_once(s, ',') {
        Some((_, options)) => split(options, ','),
        None => Seq::empty(),
    }
}

/// What stands before the options of a named plugin.
pub open spec fn name_part_of(s: Seq<char>) -> Seq<char> {
    match split_once(s, ',') {
        Some((name_part, _)) => name_part,
        None => s,
    }
}

/// The plugin that a name with or without a type stands for.
pub open spec fn typed_name(
    s: Seq<char>,
    name_part: Seq<char>,
    version: Option<Seq<char>>,
) -> Result<PluginSpecView, ErrorView> {
    match split_once(name_part, '/') {
        Some((kind, name)) => if canonical_type(kind) is None {
            Err(
                plugin_error(
                    "Invalid plugin type '"@ + kind + "': expected 'system' or 'user'"@,
                    s,
                    ""@,
                ),
            )
        } else if name.len() == 0 {
            Err(plugin_error("Plugin name must not be empty"@, s, ""@))
        } else {
            Ok(PluginSpecView::Named { name, plugin_type: canonical_type(kind), version })
        },
        None => if name_part.len() == 0 {
            Err(plugin_error("Plugin name must not be empty"@, s, ""@))
        } else {
            Ok(PluginSpecView::Named { name: name_part, plugin_type: None, version })
        },
    }
}

/// What a `--plugin` argument says: a file, or a name with or without a type and options. Of
/// several errors, the first option's comes first, and those of the name come last.
pub open spec fn plugin_of(s: Seq<char>) -> Result<PluginSpecView, ErrorView> {
    let options = options_of(s);
    match strip_prefix(s, "file="@) {
        Some(path) => if path.len() == 0 {
            Err(plugin_error("file path must not be empty"@, s, ""@))
        } else {
            Ok(PluginSpecView::File { path })
        },
        None => match options_error(s, options, options.len() as int) {
            Some(e) => Err(e),
            None => typed_name(
                s,
                name_part_of(s),
                options_version(options, options.len() as int),
            ),
        },
    }
}

/// What is wrong with the first of the arguments before `n` that cannot be read.
pub open spec fn plugins_error(list: Seq<Seq<char>>, n: int) -> Option<ErrorView>
    decreases n,
{
    if n <= 0 {
        None
    } else if plugins_error(list, n - 1) is Some {
        plugins_error(list, n - 1)
    } else {
        match plugin_of(list[n - 1]) {
            Ok(_) => None,
            Err(e) => Some(e),
        }
    }
}

/// The plugins of arguments that can all be read.
pub open spec fn plugins_read(list: Seq<Seq<char>>) -> Seq<PluginSpecView> {
    Seq::new(list.len(), |i: int| plugin_of(list[i])->Ok_0)
}

/// The type of a plugin, where the argument itself says it.
pub open spec fn known_type(spec: PluginSpecView) -> Option<Seq<char>> {
    match spec {
        PluginSpecView::Named { plugin_type, .. } => plugin_type,
        PluginSpecView::File { .. } => None,
    }
}

/// Whether one of the plugins before `n` is known to be of type `t`.
pub open spec fn has_known_type(specs: Seq<PluginSpecView>, n: int, t: Seq<char>) -> bool {
    exists|i: int| 0 <= i < n && known_type(#[trigger] specs[i]) == Some(t)
}

/// The error for the first of the plugins before `n` that is known to be of the type of an
/// earlier one.
pub open spec fn repeated_type(specs: Seq<PluginSpecView>, n: int) -> Option<ErrorView>
    decreases n,
{
    if n <= 0 {
        None
    } else if repeated_type(specs, n - 1) is Some {
        repeated_type(specs, n - 1)
    } else if known_type(specs[n - 1]) == Some(PLUGIN_TYPE_SYSTEM@) && has_known_type(
        specs,
        n - 1,
        PLUGIN_TYPE_SYSTEM@,
    ) {
        Some(ErrorView::DuplicatePlugin("system"@))
    } else if known_type(specs[n - 1]) == Some(PLUGIN_TYPE_USER@) && has_known_type(
        specs,
        n - 1,
        PLUGIN_TYPE_USER@,
    ) {
        Some(ErrorView::DuplicatePlugin("user"@))
    } else {
        None
    }
}

/// What is wrong with a set of plugins, as far as their types are known.
pub open spec fn known_types_error(specs: Seq<PluginSpecView>) -> Option<ErrorView> {
    let n = specs.len() as int;
    if repeated_type(specs, n) is Some {
        repeated_type(specs, n)
    } else if has_known_type(specs, n, PLUGIN_TYPE_USER@) && !has_known_type(
        specs,
        n,
        PLUGIN_TYPE_SYSTEM@,
    ) {
        Some(ErrorView::UserPluginWithoutSystem)
    } else {
        None
    }
}

/// The plugins that `--plugin` arguments specify, in their order, or the first error: that of an
/// argument, or else one of the types that are known.
pub open spec fn plugins_of(list: Seq<Seq<char>>) -> Result<Seq<PluginSpecView>, ErrorView> {
    match plugins_error(list, list.len() as int) {
        Some(e) => Err(e),
        None => match known_types_error(plugins_read(list)) {
            Some(e) => Err(e),
            None => Ok(plugins_read(list)),
        },
    }
}

/// How many of the given types are `t`.
pub open spec fn count_type(types: Seq<Seq<char>>, t: Seq<char>) -> nat
    decreases types.len(),
{
    if types.len() == 0 {
        0
    } else if types.last() == t {
        count_type(types.drop_last(), t) + 1
    } else {
        count_type(types.drop_last(), t)
    }
}

/// What is wrong with a set of plugins of the given types.
pub open spec fn types_error(types: Seq<Seq<char>>) -> Option<ErrorView> {
    if count_type(types, PLUGIN_TYPE_SYSTEM@) > 1 {
        Some(ErrorView::DuplicatePlugin("system"@))
    } else if count_type(types, PLUGIN_TYPE_USER@) > 1 {
        Some(ErrorView::DuplicatePlugin("user"@))
    } else if count_type(types, PLUGIN_TYPE_USER@) > 0 && count_type(types, PLUGIN_TYPE_SYSTEM@)
        == 0 {
        Some(ErrorView::UserPluginWithoutSystem)
    } else {
        None
    }
}

/// The first error among some options is the first among all of them.
proof fn lemma_first_option_error(s: Seq<char>, options: Seq<Seq<char>>, i: int)
    requires
        0 <= i < options.len(),
        options_error(s, options, i) is None,
        option_error(s, options, i) is Some,
    ensures
        options_error(s, options, options.len() as int) == option_error(s, options, i),
{
    lemma_options_error_stays(s, options, i + 1, options.len() as int);
}

/// An error among some options is the error of more of them.
pub(crate) proof fn lemma_options_error_stays(s: Seq<char>, options: Seq<Seq<char>>, i: int, n: int)
    requires
        i <= n,
        options_error(s, options, i) is Some,
    ensures
        options_error(s, options, n) == options_error(s, options, i),
    decreases n,
{
    if i < n {
        lemma_options_error_stays(s, options, i, n - 1);
    }
}

/// The type that a short or a full type name stands for.
pub fn canonical_plugin_type(s: &str) -> (r: Option<&'static str>)
    ensures
        opt_str(r) == canonical_type(s@),
{
    if same(s, "system") || same(s, "system_plugin") {
        Some(PLUGIN_TYPE_SYSTEM)
    } else if same(s, "user") || same(s, "user_plugin") {
        Some(PLUGIN_TYPE_USER)
    } else {
        None
    }
}

/// The short name of a type, for URLs and display.
pub fn short_plugin_type(canonical: &str) -> (r: &str)
    ensures
        r@ == short_type(canonical@),
{
    if same(canonical, PLUGIN_TYPE_SYSTEM) {
        "system"
    } else if same(canonical, PLUGIN_TYPE_USER) {
        "user"
    } else {
        canonical
    }
}

/// The error of the `--plugin` argument `s`.
fn bad_plugin(message: &str, s: &str, note: &str) -> (r: Error)
    ensures
        r@ == plugin_error(message@, s@, note@),
{
    Error::invalid("--plugin", concat5(message, "\n    --plugin '", s, "'", note))
}

/// Reads the options of the `--plugin` argument `s`: the version, where one is given.
fn parse_options(s: &str, options: &Vec<&str>) -> (r: Result<Option<String>, Error>)
    ensures
        match r {
            Ok(version) => {
                &&& options_error(s@, str_texts(options@), options@.len() as int) is None
                &&& opt_text(version) == options_version(
                    str_texts(options@),
                    options@.len() as int,
                )
            },
            Err(e) => options_error(s@, str_texts(options@), options@.len() as int) == Some(e@),
        },
{
    let ghost all = str_texts(options@);
    let mut version: Option<String> = None;
    let mut seen: Vec<&str> = Vec::new();
    let mut i: usize = 0;
    while i < options.len()
        invariant
            i <= options.len(),
            all == str_texts(options@),
            seen@.len() == i,
            forall|j: int| 0 <= j < i ==> (#[trigger] seen@[j])@ == option_key(all[j]),
            options_error(s@, all, i as int) is None,
            opt_text(version) == options_version(all, i as int),
        decreases options.len() - i,
    {
        let option: &str = options[i];
        assert(all[i as int] == option@);
        let error: Option<Error> = match cut(option, '=') {
            None => Some(
                bad_plugin(
                    concat5(
                        "Plugin option '",
                        option,
                        "' is missing a value - expected '",
                        option,
                        "=<value>'",
                    ).as_str(),
                    s,
                    "",
                ),
            ),
            Some((key, value)) => {
                let repeated: bool = contains(&seen, key);
                proof {
                    if repeated {
                        let j = choose|j: int| 0 <= j < seen@.len() && str_texts(seen@)[j] == key@;
                        assert(option_key(all[j]) == seen@[j]@);
                    } else {
                        assert forall|j: int| 0 <= j < i implies option_key(#[trigger] all[j])
                            != key@ by {
                            assert(str_texts(seen@)[j] == seen@[j]@);
                        }
                    }
                }
                seen.push(key);
                if repeated {
                    Some(
                        bad_plugin(
                            concat3("Duplicate plugin option '", key, "'").as_str(),
                            s,
                            "",
                        ),
                    )
                } else if !same(key, "version") {
                    Some(
                        bad_plugin(
                            concat3("Unrecognised plugin option '", key, "'").as_str(),
                            s,
                            "\n  Supported options: version",
                        ),
                    )
                } else if value.is_empty() {
                    Some(bad_plugin("version must not be empty", s, ""))
                } else {
                    version = Some(value.to_owned());
                    None
                }
            },
        };
        match error {
            Some(e) => {
                proof {
                    lemma_first_option_error(s@, all, i as int);
                }
                return Err(e);
            },
            None => {},
        }
        i = i + 1;
    }
    Ok(version)
}

/// Reads one `--plugin` argument.
pub fn parse_plugin(s: &str) -> (r: Result<PluginSpec, Error>)
    ensures
        match r {
            Ok(spec) => plugin_of(s@) == Ok::<PluginSpecView, ErrorView>(spec@),
            Err(e) => plugin_of(s@) == Err::<PluginSpecView, ErrorView>(e@),
        },
{
    match without_prefix(s, "file=") {
        Some(path) => {
            return if path.is_empty() {
                Err(bad_plugin("file path must not be empty", s, ""))
            } else {
                Ok(PluginSpec::File { path: path.to_owned() })
            };
        },
        None => {},
    }
    let (name_part, options): (&str, Vec<&str>) = match cut(s, ',') {
        Some((name_part, options)) => (name_part, pieces(options, ',')),
        None => (s, Vec::new()),
    };
    assert(str_texts(options@) =~= options_of(s@));
    let version: Option<String> = match parse_options(s, &options) {
        Ok(version) => version,
        Err(e) => {
            return Err(e);
        },
    };
    match cut(name_part, '/') {
        Some((kind, name)) => match canonical_plugin_type(kind) {
            None => Err(
                bad_plugin(
                    concat3(
                        "Invalid plugin type '",
                        kind,
                        "': expected 'system' or 'user'",
                    ).as_str(),
                    s,
                    "",
                ),
            ),
            Some(canonical) => if name.is_empty() {
                Err(bad_plugin("Plugin name must not be empty", s, ""))
            } else {
                Ok(
                    PluginSpec::Named {
                        name: name.to_owned(),
                        plugin_type: Some(canonical),
                        version,
                    },
                )
            },
        },
        None => if name_part.is_empty() {
            Err(bad_plugin("Plugin name must not be empty", s, ""))
        } else {
            Ok(PluginSpec::Named { name: name_part.to_owned(), plugin_type: None, version })
        },
    }
}

/// An error among some arguments is the error of more of them.
pub(crate) proof fn lemma_plugins_error_stays(list: Seq<Seq<char>>, i: int, n: int)
    requires
        i <= n,
        plugins_error(list, i) is Some,
    ensures
        plugins_error(list, n) == plugins_error(list, i),
    decreases n,
{
    if i < n {
        lemma_plugins_error_stays(list, i, n - 1);
    }
}

/// A type repeated among some plugins is repeated among more of them.
pub(crate) proof fn lemma_repeated_type_stays(specs: Seq<PluginSpecView>, i: int, n: int)
    requires
        i <= n,
        repeated_type(specs, i) is Some,
    ensures
        repeated_type(specs, n) == repeated_type(specs, i),
    decreases n,
{
    if i < n {
        lemma_repeated_type_stays(specs, i, n - 1);
    }
}

/// Full type names differ.
proof fn lemma_types_differ()
    ensures
        PLUGIN_TYPE_SYSTEM@ != PLUGIN_TYPE_USER@,
{
    reveal_strlit("system_plugin");
    reveal_strlit("user_plugin");
    assert(PLUGIN_TYPE_SYSTEM@[0] == 's' && PLUGIN_TYPE_USER@[0] == 'u');
}

/// Checks the types of plugins as far as they are known.
fn check_known_types(specs: &Vec<PluginSpec>) -> (r: Result<(), Error>)
    ensures
        match r {
            Ok(_) => known_types_error(spec_views(specs@)) is None,
            Err(e) => known_types_error(spec_views(specs@)) == Some(e@),
        },
{
    let ghost all = spec_views(specs@);
    let mut seen_system: bool = false;
    let mut seen_user: bool = false;
    let mut i: usize = 0;
    while i < specs.len()
        invariant
            i <= specs.len(),
            all == spec_views(specs@),
            repeated_type(all, i as int) is None,
            seen_system == has_known_type(all, i as int, PLUGIN_TYPE_SYSTEM@),
            seen_user == has_known_type(all, i as int, PLUGIN_TYPE_USER@),
        decreases specs.len() - i,
    {
        proof {
            lemma_types_differ();
            if repeated_type(all, i + 1) is Some {
                lemma_repeated_type_stays(all, i + 1, all.len() as int);
            }
        }
        assert(all[i as int] == specs@[i as int]@);
        match &specs[i] {
            PluginSpec::Named { plugin_type: Some(t), .. } => {
                assert(known_type(all[i as int]) == Some(t@));
                if same(t, PLUGIN_TYPE_SYSTEM) {
                    if seen_system {
                        return Err(Error::DuplicatePlugin("system".to_owned()));
                    }
                    seen_system = true;
                } else if same(t, PLUGIN_TYPE_USER) {
                    if seen_user {
                        return Err(Error::DuplicatePlugin("user".to_owned()));
                    }
                    seen_user = true;
                }
            },
            _ => {},
        }
        i = i + 1;
    }
    if seen_user && !seen_system {
        Err(Error::UserPluginWithoutSystem)
    } else {
        Ok(())
    }
}

/// Reads all `--plugin` arguments (the first phase).
pub fn parse_plugins(plugins: &[String]) -> (r: Result<Vec<PluginSpec>, Error>)
    ensures
        match r {
            Ok(specs) => plugins_of(texts(plugins@)) == Ok::<Seq<PluginSpecView>, ErrorView>(
                spec_views(specs@),
            ),
            Err(e) => plugins_of(texts(plugins@)) == Err::<Seq<PluginSpecView>, ErrorView>(e@),
        },
{
    let ghost list = texts(plugins@);
    let mut specs: Vec<PluginSpec> = Vec::new();
    let mut i: usize = 0;
    while i < plugins.len()
        invariant
            i <= plugins.len(),
            list == texts(plugins@),
            specs@.len() == i,
            plugins_error(list, i as int) is None,
            forall|j: int| 0 <= j < i ==> (#[trigger] specs@[j])@ == plugin_of(list[j])->Ok_0,
        decreases plugins.len() - i,
    {
        assert(list[i as int] == plugins@[i as int]@);
        match parse_plugin(plugins[i].as_str()) {
            Ok(spec) => {
                specs.push(spec);
            },
            Err(e) => {
                proof {
                    lemma_plugins_error_stays(list, i + 1, list.len() as int);
                }
                return Err(e);
            },
        }
        i = i + 1;
    }
    assert(spec_views(specs@) =~= plugins_read(list));
    match check_known_types(&specs) {
        Ok(_) => Ok(specs),
        Err(e) => Err(e),
    }
}

/// Checks the types of all plugins of an image, once they are known (the second phase): at most
/// one system plugin, at most one user plugin, and a user plugin only with a system plugin.
pub fn validate_resolved_plugin_types(plugin_types: &[&str]) -> (r: Result<(), Error>)
    ensures
        match r {
            Ok(_) => types_error(str_texts(plugin_types@)) is None,
            Err(e) => types_error(str_texts(plugin_types@)) == Some(e@),
        },
{
    let ghost all = str_texts(plugin_types@);
    let mut system_count: usize = 0;
    let mut user_count: usize = 0;
    let mut i: usize = 0;
    assert(all.take(0) =~= Seq::empty());
    while i < plugin_types.len()
        invariant
            i <= plugin_types.len(),
            all == str_texts(plugin_types@),
            system_count <= i,
            user_count <= i,
            system_count == count_type(all.take(i as int), PLUGIN_TYPE_SYSTEM@),
            user_count == count_type(all.take(i as int), PLUGIN_TYPE_USER@),
        decreases plugin_types.len() - i,
    {
        assert(all.take(i + 1).drop_last() =~= all.take(i as int));
        assert(all.take(i + 1).last() == plugin_types@[i as int]@);
        if same(plugin_types[i], PLUGIN_TYPE_SYSTEM) {
            system_count = system_count + 1;
        }
        if same(plugin_types[i], PLUGIN_TYPE_USER) {
            user_count = user_count + 1;
        }
        i = i + 1;
    }
    assert(all.take(i as int) =~= all);
    if system_count > 1 {
        return Err(Error::DuplicatePlugin("system".to_owned()));
    }
    if user_count > 1 {
        return Err(Error::DuplicatePlugin("user".to_owned()));
    }
    if user_count > 0 && system_count == 0 {
        return Err(Error::UserPluginWithoutSystem);
    }
    Ok(())
}

} // verus!
