//! Which `--plugin` arguments are accepted, what they say, and how the others are refused.
use vstd::prelude::*;

use crate::error::ErrorView;
use crate::plugin::{
    canonical_type, has_known_type, known_type, known_types_error, lemma_options_error_stays,
    lemma_repeated_type_stays, name_part_of, option_error, option_key, option_value,
    options_error, options_of, options_version, plugin_of, plugins_of, plugins_read,
    repeated_type, short_type, spec_views, typed_name, types_error, PluginSpec, PluginSpecView,
    PLUGIN_TYPE_SYSTEM, PLUGIN_TYPE_USER,
};
use crate::plugin_laws::{law_first_plugin_error, lemma_count, occurs_twice};
use crate::text::{
    join, lemma_no_separator, lemma_split_once_at, lemma_split_once_parts, opt_str, opt_text,
    split_once, strip_prefix,
};
use crate::text_laws::{law_joined_texts_are_pieces, law_pieces_join_back, law_strip_prefix};

verus! {

/// The mathematical value of a plugin specification has all that the specification has.
pub proof fn law_plugin_values(
    name: String,
    plugin_type: Option<&'static str>,
    version: Option<String>,
    path: String,
    specs: Seq<PluginSpec>,
)
    ensures
        (PluginSpec::Named { name, plugin_type, version })@ == (PluginSpecView::Named {
            name: name@,
            plugin_type: opt_str(plugin_type),
            version: opt_text(version),
        }),
        (PluginSpec::File { path })@ == (PluginSpecView::File { path: path@ }),
        spec_views(specs).len() == specs.len(),
        forall|i: int| 0 <= i < specs.len() ==> #[trigger] spec_views(specs)[i] == specs[i]@,
{
}

/// There are two types. Each goes by its full name and by its short one, and nothing else is a
/// type.
pub proof fn law_types(s: Seq<char>)
    ensures
        canonical_type(s) == Some("system_plugin"@) <==> s == "system"@ || s == "system_plugin"@,
        canonical_type(s) == Some("user_plugin"@) <==> s == "user"@ || s == "user_plugin"@,
        canonical_type(s) is None <==> s != "system"@ && s != "system_plugin"@ && s != "user"@
            && s != "user_plugin"@,
        PLUGIN_TYPE_SYSTEM@ == "system_plugin"@,
        PLUGIN_TYPE_USER@ == "user_plugin"@,
        "system_plugin"@ != "user_plugin"@,
        short_type("system_plugin"@) == "system"@,
        short_type("user_plugin"@) == "user"@,
        s != "system_plugin"@ && s != "user_plugin"@ ==> short_type(s) == s,
{
    reveal_strlit("system");
    reveal_strlit("system_plugin");
    reveal_strlit("user");
    reveal_strlit("user_plugin");
    assert("system"@.len() == 6 && "system_plugin"@.len() == 13);
    assert("user"@.len() == 4 && "user_plugin"@.len() == 11);
}

/// How a named plugin's version is written.
pub open spec fn version_tail(version: Option<Seq<char>>) -> Seq<char> {
    match version {
        Some(version) => ",version="@ + version,
        None => Seq::empty(),
    }
}

proof fn lemma_version_literals()
    ensures
        ",version="@ == seq![','] + "version"@ + seq!['='],
        "version"@.len() == 7,
        !"version"@.contains('='),
        !"version"@.contains(','),
        "/"@ == seq!['/'],
{
    reveal_strlit("version");
    reveal_strlit(",version=");
    reveal_strlit("/");
    assert(",version="@ =~= seq![','] + "version"@ + seq!['=']);
    assert("/"@ =~= seq!['/']);
}

/// Where the options are right, there is at most one, and it gives the version.
proof fn lemma_right_options(s: Seq<char>)
    requires
        options_error(s, options_of(s), options_of(s).len() as int) is None,
    ensures
        options_of(s).len() <= 1,
        ({
            let version = options_version(options_of(s), options_of(s).len() as int);
            &&& s == name_part_of(s) + version_tail(version)
            &&& version matches Some(v) ==> v.len() > 0
        }),
        !name_part_of(s).contains(','),
{
    let options = options_of(s);
    let n = options.len() as int;
    lemma_version_literals();
    lemma_split_once_parts(s, ',');
    if n > 1 {
        assert(options_error(s, options, n - 1) is None);
        lemma_options_error_before(s, options, 2, n);
        assert(options_error(s, options, 1) is None);
        assert(options_error(s, options, 0) is None);
        assert(option_error(s, options, 0) is None);
        assert(option_error(s, options, 1) is None);
        assert(option_key(options[0]) == option_key(options[1]));
    }
    match split_once(s, ',') {
        Some((part, rest)) => {
            law_pieces_join_back(rest, ',');
            assert(options_error(s, options, 0) is None);
            assert(option_error(s, options, 0) is None);
            assert(join(options, seq![',']) == options[0]);
            lemma_split_once_parts(rest, '=');
            assert(s =~= part + (",version="@ + option_value(rest)));
        },
        None => {
            assert(s =~= s + Seq::<char>::empty());
        },
    }
}

proof fn lemma_options_error_before(s: Seq<char>, options: Seq<Seq<char>>, i: int, n: int)
    requires
        0 <= i <= n,
        options_error(s, options, n) is None,
    ensures
        options_error(s, options, i) is None,
    decreases n,
{
    if i < n {
        lemma_options_error_before(s, options, i, n - 1);
    }
}

/// An accepted argument is `file=` and a path, or else a name, with a type and a slash before it
/// or not, and with a version behind it or not; what it says is what stands in it.
pub proof fn law_accepted_forms(s: Seq<char>)
    requires
        plugin_of(s) is Ok,
    ensures
        match plugin_of(s)->Ok_0 {
            PluginSpecView::File { path } => s == "file="@ + path && path.len() > 0,
            PluginSpecView::Named { name, plugin_type: None, version } => {
                &&& s == name + version_tail(version)
                &&& name.len() > 0 && !name.contains(',') && !name.contains('/')
                &&& !"file="@.is_prefix_of(s)
            },
            PluginSpecView::Named { name, plugin_type: Some(t), version } => {
                &&& t == "system_plugin"@ ==> s == "system"@ + "/"@ + name + version_tail(version)
                    || s == "system_plugin"@ + "/"@ + name + version_tail(version)
                &&& t == "user_plugin"@ ==> s == "user"@ + "/"@ + name + version_tail(version) || s
                    == "user_plugin"@ + "/"@ + name + version_tail(version)
                &&& t == "system_plugin"@ || t == "user_plugin"@
                &&& name.len() > 0 && !name.contains(',')
            },
        },
{
    law_strip_prefix(s, "file="@, s.skip("file="@.len() as int));
    match strip_prefix(s, "file="@) {
        Some(path) => {
            law_strip_prefix(s, "file="@, path);
        },
        None => {
            lemma_right_options(s);
            lemma_version_literals();
            let part = name_part_of(s);
            lemma_split_once_parts(part, '/');
            match split_once(part, '/') {
                Some((kind, name)) => {
                    law_types(kind);
                    assert(part =~= kind + "/"@ + name);
                    assert forall|i: int| 0 <= i < name.len() implies name[i] != ',' by {
                        assert(part[kind.len() + 1 + i] == name[i]);
                    }
                },
                None => {},
            }
        },
    }
}

/// How an argument is refused.
pub open spec fn refused(message: Seq<char>, s: Seq<char>, note: Seq<char>) -> Result<
    PluginSpecView,
    ErrorView,
> {
    Err(
        ErrorView::InvalidArgument(
            "--plugin"@,
            message + "\n    --plugin '"@ + s + "'"@ + note,
        ),
    )
}

/// Options are read in their order, and the first with which something is wrong is named. As only
/// a version may be given, that is the first of them, or else the second.
pub proof fn law_option_errors(
    part: Seq<char>,
    options: Seq<Seq<char>>,
    key: Seq<char>,
    value: Seq<char>,
    version: Seq<char>,
)
    requires
        !part.contains(','),
        options.len() > 0,
        forall|i: int| 0 <= i < options.len() ==> !(#[trigger] options[i]).contains(','),
        !"file="@.is_prefix_of(part + seq![','] + join(options, seq![','])),
        !key.contains('='),
        version.len() > 0,
    ensures
        ({
            let s = part + seq![','] + join(options, seq![',']);
            let missing = |option: Seq<char>|
                refused(
                    "Plugin option '"@ + option + "' is missing a value - expected '"@ + option
                        + "=<value>'"@,
                    s,
                    ""@,
                );
            let unknown = refused(
                "Unrecognised plugin option '"@ + key + "'"@,
                s,
                "\n  Supported options: version"@,
            );
            let given = "version"@ + seq!['='] + version;
            &&& !options[0].contains('=') ==> plugin_of(s) == missing(options[0])
            &&& options[0] == key + seq!['='] + value && key != "version"@ ==> plugin_of(s)
                == unknown
            &&& options[0] == "version"@ + seq!['='] ==> plugin_of(s) == refused(
                "version must not be empty"@,
                s,
                ""@,
            )
            &&& options[0] == given && options.len() > 1 ==> {
                &&& !options[1].contains('=') ==> plugin_of(s) == missing(options[1])
                &&& options[1] == "version"@ + seq!['='] + value ==> plugin_of(s) == refused(
                    "Duplicate plugin option 'version'"@,
                    s,
                    ""@,
                )
                &&& options[1] == key + seq!['='] + value && key != "version"@ ==> plugin_of(s)
                    == unknown
            }
        }),
{
    let s = part + seq![','] + join(options, seq![',']);
    let rest = join(options, seq![',']);
    let n = options.len() as int;
    lemma_version_literals();
    law_joined_texts_are_pieces(options, ',');
    lemma_split_once_at(part, ',', rest);
    assert(options_of(s) == options);
    law_strip_prefix(s, "file="@, Seq::empty());
    assert(strip_prefix(s, "file="@) is None);
    lemma_no_separator_is_no_cut(options[0], '=');
    lemma_split_once_at(key, '=', value);
    lemma_split_once_at("version"@, '=', Seq::empty());
    lemma_split_once_at("version"@, '=', version);
    lemma_split_once_at("version"@, '=', value);
    assert("version"@ + seq!['='] + Seq::<char>::empty() =~= "version"@ + seq!['=']);
    assert("Duplicate plugin option '"@ + "version"@ + "'"@
        =~= "Duplicate plugin option 'version'"@) by {
        reveal_strlit("Duplicate plugin option '");
        reveal_strlit("version");
        reveal_strlit("'");
        reveal_strlit("Duplicate plugin option 'version'");
    }
    assert(options_error(s, options, 0) is None);
    assert(options_error(s, options, 1) == option_error(s, options, 0));
    if option_error(s, options, 0) is Some {
        lemma_options_error_stays(s, options, 1, n);
    }
    if n > 1 {
        lemma_no_separator_is_no_cut(options[1], '=');
        if option_error(s, options, 0) is None {
            assert(options_error(s, options, 2) == option_error(s, options, 1));
            assert(options[0] == options[0]);
            if option_error(s, options, 1) is Some {
                lemma_options_error_stays(s, options, 2, n);
            }
        }
    }
}

proof fn lemma_no_separator_is_no_cut(s: Seq<char>, c: char)
    ensures
        !s.contains(c) ==> split_once(s, c) is None,
{
    if !s.contains(c) {
        lemma_no_separator(s, c);
    }
}

/// An argument without a wrong option is refused where its path or its name is empty, and where
/// what stands before the slash is no type.
pub proof fn law_name_errors(kind: Seq<char>, name: Seq<char>, version: Option<Seq<char>>)
    requires
        !kind.contains('/'),
        !kind.contains(','),
        !name.contains(','),
        version matches Some(v) ==> v.len() > 0 && !v.contains(','),
        !"file="@.is_prefix_of(kind + seq!['/'] + name + version_tail(version)),
    ensures
        plugin_of("file="@) == refused("file path must not be empty"@, "file="@, ""@),
        plugin_of(version_tail(version)) == refused(
            "Plugin name must not be empty"@,
            version_tail(version),
            ""@,
        ),
        ({
            let s = kind + seq!['/'] + name + version_tail(version);
            let is_type = kind == "system"@ || kind == "system_plugin"@ || kind == "user"@ || kind
                == "user_plugin"@;
            &&& !is_type ==> plugin_of(s) == refused(
                "Invalid plugin type '"@ + kind + "': expected 'system' or 'user'"@,
                s,
                ""@,
            )
            &&& is_type && name.len() == 0 ==> plugin_of(s) == refused(
                "Plugin name must not be empty"@,
                s,
                ""@,
            )
        }),
{
    law_strip_prefix("file="@, "file="@, Seq::empty());
    assert("file="@ + Seq::<char>::empty() =~= "file="@);
    let tail = version_tail(version);
    law_types(kind);
    // No name at all.
    lemma_version_of(Seq::empty(), version);
    assert(Seq::<char>::empty() + tail =~= tail);
    lemma_no_separator(Seq::<char>::empty(), '/');
    law_strip_prefix(tail, "file="@, Seq::empty());
    assert(!"file="@.is_prefix_of(tail)) by {
        reveal_strlit("file=");
        reveal_strlit(",version=");
        if version is Some {
            assert(tail[0] == ',');
        }
    }
    // A type and a name.
    let part = kind + seq!['/'] + name;
    lemma_version_of(part, version);
    lemma_split_once_at(kind, '/', name);
    law_strip_prefix(part + tail, "file="@, Seq::empty());
}

/// Right options change nothing about the name.
proof fn lemma_version_of(part: Seq<char>, version: Option<Seq<char>>)
    requires
        !part.contains(','),
        version matches Some(v) ==> v.len() > 0 && !v.contains(','),
    ensures
        ({
            let s = part + version_tail(version);
            &&& strip_prefix(s, "file="@) is None ==> plugin_of(s) == typed_name(s, part, version)
        }),
{
    let s = part + version_tail(version);
    lemma_version_literals();
    match version {
        Some(v) => {
            let option = "version"@ + seq!['='] + v;
            assert(s =~= part + seq![','] + option);
            lemma_split_once_at(part, ',', option);
            assert(!option.contains(','));
            lemma_no_separator(option, ',');
            lemma_split_once_at("version"@, '=', v);
            assert(options_of(s) =~= seq![option]);
            assert(options_error(s, options_of(s), 0) is None);
            assert(option_error(s, options_of(s), 0) is None);
        },
        None => {
            assert(s =~= part);
            lemma_no_separator(part, ',');
            assert(options_error(s, options_of(s), 0) is None);
        },
    }
}

/// Whether an argument itself says that its plugin is of type `t`.
pub open spec fn says_type(spec: PluginSpecView, t: Seq<char>) -> bool {
    match spec {
        PluginSpecView::Named { plugin_type: Some(said), .. } => said == t,
        _ => false,
    }
}

/// Whether two of the arguments before `n` say that their plugins are of type `t`.
pub open spec fn said_twice(specs: Seq<PluginSpecView>, n: int, t: Seq<char>) -> bool {
    exists|i: int, j: int|
        0 <= i < j < n && says_type(#[trigger] specs[i], t) && says_type(#[trigger] specs[j], t)
}

/// Whether an argument says that its plugin is of type `t`.
pub open spec fn said(specs: Seq<PluginSpecView>, t: Seq<char>) -> bool {
    exists|i: int| 0 <= i < specs.len() && says_type(#[trigger] specs[i], t)
}

proof fn lemma_repeated(specs: Seq<PluginSpecView>, n: int)
    requires
        0 <= n <= specs.len(),
    ensures
        repeated_type(specs, n) is None <==> !said_twice(specs, n, "system_plugin"@)
            && !said_twice(specs, n, "user_plugin"@),
    decreases n,
{
    law_types(Seq::empty());
    if n > 0 {
        lemma_repeated(specs, n - 1);
        assert forall|t: Seq<char>|
            t == "system_plugin"@ || t == "user_plugin"@ implies #[trigger] said_twice(
            specs,
            n,
            t,
        ) == (said_twice(specs, n - 1, t) || (says_type(specs[n - 1], t) && has_known_type(
            specs,
            n - 1,
            t,
        ))) by {
            if said_twice(specs, n, t) && !said_twice(specs, n - 1, t) {
                let (i, j) = choose|i: int, j: int|
                    0 <= i < j < n && says_type(#[trigger] specs[i], t) && says_type(
                        #[trigger] specs[j],
                        t,
                    );
                assert(j == n - 1);
                assert(known_type(specs[i]) == Some(t));
            }
            if says_type(specs[n - 1], t) && has_known_type(specs, n - 1, t) {
                let i = choose|i: int|
                    0 <= i < n - 1 && known_type(#[trigger] specs[i]) == Some(t);
                assert(says_type(specs[i], t));
            }
        }
    }
}

proof fn lemma_has_known(specs: Seq<PluginSpecView>, t: Seq<char>)
    ensures
        has_known_type(specs, specs.len() as int, t) <==> said(specs, t),
{
    if has_known_type(specs, specs.len() as int, t) {
        let i = choose|i: int|
            0 <= i < specs.len() && known_type(#[trigger] specs[i]) == Some(t);
        assert(says_type(specs[i], t));
    }
    if said(specs, t) {
        let i = choose|i: int| 0 <= i < specs.len() && says_type(#[trigger] specs[i], t);
        assert(known_type(specs[i]) == Some(t));
    }
}

/// A readable list is refused exactly where two arguments say the same type, or one says that it
/// is a user plugin and none says that it is a system plugin. Arguments that say no type never
/// cause a refusal.
pub proof fn law_said_types(list: Seq<Seq<char>>, specs: Seq<PluginSpecView>)
    requires
        specs.len() == list.len(),
        forall|i: int|
            0 <= i < list.len() ==> plugin_of(#[trigger] list[i]) == Ok::<
                PluginSpecView,
                ErrorView,
            >(specs[i]),
    ensures
        ({
            let n = specs.len() as int;
            let refused = said_twice(specs, n, "system_plugin"@) || said_twice(
                specs,
                n,
                "user_plugin"@,
            ) || (said(specs, "user_plugin"@) && !said(specs, "system_plugin"@));
            &&& plugins_of(list) is Err <==> refused
            &&& !refused ==> plugins_of(list) == Ok::<Seq<PluginSpecView>, ErrorView>(specs)
        }),
{
    let n = specs.len() as int;
    law_first_plugin_error(list, list.len() as int);
    assert(plugins_read(list) =~= specs);
    lemma_repeated(specs, n);
    lemma_has_known(specs, "user_plugin"@);
    lemma_has_known(specs, "system_plugin"@);
    law_types(Seq::empty());
}

/// The error of a readable list names the type that is the first to be said again; where none is,
/// it is that of a user plugin without a system plugin.
pub proof fn law_said_types_error(specs: Seq<PluginSpecView>, i: int, j: int, t: Seq<char>)
    requires
        0 <= i < j < specs.len(),
        says_type(specs[i], t),
        says_type(specs[j], t),
        t == "system_plugin"@ || t == "user_plugin"@,
        !said_twice(specs, j, "system_plugin"@),
        !said_twice(specs, j, "user_plugin"@),
    ensures
        known_types_error(specs) == Some(
            ErrorView::DuplicatePlugin(
                if t == "system_plugin"@ {
                    "system"@
                } else {
                    "user"@
                },
            ),
        ),
{
    law_types(t);
    lemma_repeated(specs, j);
    assert(known_type(specs[i]) == Some(t));
    assert(known_type(specs[j]) == Some(t));
    assert(has_known_type(specs, j, t));
    assert(repeated_type(specs, j + 1) is Some);
    lemma_repeated_type_stays(specs, j + 1, specs.len() as int);
}

/// A user plugin without a system plugin is the error where no type is said twice.
pub proof fn law_said_user_alone(specs: Seq<PluginSpecView>)
    requires
        !said_twice(specs, specs.len() as int, "user_plugin"@),
        said(specs, "user_plugin"@),
        !said(specs, "system_plugin"@),
    ensures
        known_types_error(specs) == Some(ErrorView::UserPluginWithoutSystem),
{
    law_types(Seq::empty());
    lemma_has_known(specs, "user_plugin"@);
    lemma_has_known(specs, "system_plugin"@);
    lemma_repeated(specs, specs.len() as int);
    if said_twice(specs, specs.len() as int, "system_plugin"@) {
        let (i, j) = choose|i: int, j: int|
            0 <= i < j < specs.len() && says_type(#[trigger] specs[i], "system_plugin"@)
                && says_type(#[trigger] specs[j], "system_plugin"@);
        assert(says_type(specs[i], "system_plugin"@));
    }
}

/// Once all types are known, two system plugins are named first, then two user plugins, then a
/// user plugin without a system plugin.
pub proof fn law_types_errors(types: Seq<Seq<char>>)
    ensures
        ({
            let systems = occurs_twice(types, "system_plugin"@);
            let users = occurs_twice(types, "user_plugin"@);
            let alone = types.contains("user_plugin"@) && !types.contains("system_plugin"@);
            types_error(types) == if systems {
                Some(ErrorView::DuplicatePlugin("system"@))
            } else if users {
                Some(ErrorView::DuplicatePlugin("user"@))
            } else if alone {
                Some(ErrorView::UserPluginWithoutSystem)
            } else {
                None
            }
        }),
{
    law_types(Seq::empty());
    lemma_count(types, "system_plugin"@);
    lemma_count(types, "user_plugin"@);
}

} // verus!
