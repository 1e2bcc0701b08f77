//! What holds of plugin specifications as a whole.
use vstd::prelude::*;

use crate::error::ErrorView;
use crate::plugin::{
    canonical_type, count_type, has_known_type, known_type, known_types_error,
    lemma_plugins_error_stays, name_part_of, option_error, option_key, option_value,
    options_error, options_of, options_version, plugin_of, plugins_error, plugins_of,
    plugins_read, repeated_type, short_type, types_error, PluginSpecView, PLUGIN_TYPE_SYSTEM,
    PLUGIN_TYPE_USER,
};
use crate::text::{
    lemma_no_separator, lemma_pieces_hold_no_separator, lemma_split_once_at,
    lemma_split_once_parts, split_once, strip_prefix,
};

verus! {

proof fn lemma_literals()
    ensures
        "system"@ == seq!['s', 'y', 's', 't', 'e', 'm'],
        "user"@ == seq!['u', 's', 'e', 'r'],
        "system_plugin"@ == PLUGIN_TYPE_SYSTEM@,
        "user_plugin"@ == PLUGIN_TYPE_USER@,
        PLUGIN_TYPE_SYSTEM@.len() == 13,
        PLUGIN_TYPE_SYSTEM@[0] == 's',
        PLUGIN_TYPE_USER@.len() == 11,
        PLUGIN_TYPE_USER@[0] == 'u',
        forall|i: int| 0 <= i < 13 ==> PLUGIN_TYPE_SYSTEM@[i] != '/' && PLUGIN_TYPE_SYSTEM@[i]
            != ',',
        forall|i: int| 0 <= i < 11 ==> PLUGIN_TYPE_USER@[i] != '/' && PLUGIN_TYPE_USER@[i] != ',',
        "file="@.len() == 5,
        "file="@[0] == 'f',
        forall|i: int| 0 <= i < 5 ==> "file="@[i] != ',',
        "version"@ == seq!['v', 'e', 'r', 's', 'i', 'o', 'n'],
        ",version="@ == seq![','] + "version"@ + seq!['='],
        "/"@ == seq!['/'],
{
    reveal_strlit("system");
    reveal_strlit("user");
    reveal_strlit("system_plugin");
    reveal_strlit("user_plugin");
    reveal_strlit("file=");
    reveal_strlit("version");
    reveal_strlit(",version=");
    reveal_strlit("/");
    assert("system"@ =~= seq!['s', 'y', 's', 't', 'e', 'm']);
    assert("user"@ =~= seq!['u', 's', 'e', 'r']);
    assert("version"@ =~= seq!['v', 'e', 'r', 's', 'i', 'o', 'n']);
    assert(",version="@ =~= seq![','] + "version"@ + seq!['=']);
    assert("/"@ =~= seq!['/']);
}

/// A full type name stands for itself, and its short name for it; a short name has no shorter
/// one.
pub proof fn law_type_names(s: Seq<char>)
    ensures
        canonical_type(s) matches Some(t) ==> canonical_type(t) == Some(t) && canonical_type(
            short_type(t),
        ) == Some(t),
        short_type(short_type(s)) == short_type(s),
{
    lemma_literals();
}

/// Whether `t` stands at two places.
pub open spec fn occurs_twice(types: Seq<Seq<char>>, t: Seq<char>) -> bool {
    exists|i: int, j: int|
        0 <= i < j < types.len() && #[trigger] types[i] == t && #[trigger] types[j] == t
}

/// A count is positive where the type occurs, and above one where it occurs twice.
pub(crate) proof fn lemma_count(types: Seq<Seq<char>>, t: Seq<char>)
    ensures
        count_type(types, t) > 0 <==> types.contains(t),
        count_type(types, t) > 1 <==> occurs_twice(types, t),
    decreases types.len(),
{
    if types.len() > 0 {
        let rest = types.drop_last();
        let last = types.len() - 1;
        lemma_count(rest, t);
        assert(types[last] == types.last());
        if types.contains(t) && types.last() != t {
            let i = choose|i: int| 0 <= i < types.len() && types[i] == t;
            assert(rest[i] == t);
        }
        if rest.contains(t) {
            let i = choose|i: int| 0 <= i < rest.len() && rest[i] == t;
            assert(types[i] == t);
        }
        if occurs_twice(rest, t) {
            let (i, j) = choose|i: int, j: int|
                0 <= i < j < rest.len() && #[trigger] rest[i] == t && #[trigger] rest[j] == t;
            assert(types[i] == t && types[j] == t);
        }
        if occurs_twice(types, t) {
            let (i, j) = choose|i: int, j: int|
                0 <= i < j < types.len() && #[trigger] types[i] == t && #[trigger] types[j] == t;
            assert(rest[i] == t);
            assert(rest.contains(t));
            if j < last {
                assert(rest[j] == t);
            }
        }
    }
}

/// A set of plugins passes the second phase exactly where no two are system plugins, no two are
/// user plugins, and a user plugin comes with a system plugin.
pub proof fn law_valid_types(types: Seq<Seq<char>>)
    ensures
        types_error(types) is None <==> {
            &&& !occurs_twice(types, PLUGIN_TYPE_SYSTEM@)
            &&& !occurs_twice(types, PLUGIN_TYPE_USER@)
            &&& types.contains(PLUGIN_TYPE_USER@) ==> types.contains(PLUGIN_TYPE_SYSTEM@)
        },
{
    lemma_count(types, PLUGIN_TYPE_SYSTEM@);
    lemma_count(types, PLUGIN_TYPE_USER@);
}

/// Whether the given types are those of the plugins, where the arguments say them.
pub open spec fn agree(specs: Seq<PluginSpecView>, types: Seq<Seq<char>>) -> bool {
    &&& specs.len() == types.len()
    &&& forall|i: int|
        0 <= i < specs.len() ==> match known_type(#[trigger] specs[i]) {
            Some(t) => t == types[i],
            None => true,
        }
}

/// A repeated type is known of two plugins, the later of which stands before `n`.
proof fn lemma_repeated_type(specs: Seq<PluginSpecView>, n: int)
    requires
        0 <= n <= specs.len(),
    ensures
        repeated_type(specs, n) is Some <==> exists|i: int, j: int|
            0 <= i < j < n && known_type(#[trigger] specs[i]) == known_type(#[trigger] specs[j])
                && (known_type(specs[i]) == Some(PLUGIN_TYPE_SYSTEM@) || known_type(specs[i])
                == Some(PLUGIN_TYPE_USER@)),
    decreases n,
{
    if n > 0 {
        lemma_repeated_type(specs, n - 1);
        let t = known_type(specs[n - 1]);
        if t == Some(PLUGIN_TYPE_SYSTEM@) && has_known_type(specs, n - 1, PLUGIN_TYPE_SYSTEM@) {
            let i = choose|i: int|
                0 <= i < n - 1 && known_type(#[trigger] specs[i]) == Some(PLUGIN_TYPE_SYSTEM@);
            assert(known_type(specs[i]) == known_type(specs[n - 1]));
        }
        if t == Some(PLUGIN_TYPE_USER@) && has_known_type(specs, n - 1, PLUGIN_TYPE_USER@) {
            let i = choose|i: int|
                0 <= i < n - 1 && known_type(#[trigger] specs[i]) == Some(PLUGIN_TYPE_USER@);
            assert(known_type(specs[i]) == known_type(specs[n - 1]));
        }
    }
}

/// The first phase refuses no set of plugins for a repeated type that the second would accept.
pub proof fn law_repeated_type_is_found_again(specs: Seq<PluginSpecView>, types: Seq<Seq<char>>)
    requires
        agree(specs, types),
        repeated_type(specs, specs.len() as int) is Some,
    ensures
        types_error(types) is Some,
{
    lemma_repeated_type(specs, specs.len() as int);
    let (i, j) = choose|i: int, j: int|
        0 <= i < j < specs.len() && known_type(#[trigger] specs[i]) == known_type(
            #[trigger] specs[j],
        ) && (known_type(specs[i]) == Some(PLUGIN_TYPE_SYSTEM@) || known_type(specs[i]) == Some(
            PLUGIN_TYPE_USER@,
        ));
    assert(types[i] == types[j]);
    law_valid_types(types);
}

/// Where every argument says its plugin's type, the first phase accepts the set of plugins
/// exactly where the second does.
pub proof fn law_known_types_are_checked_at_once(
    specs: Seq<PluginSpecView>,
    types: Seq<Seq<char>>,
)
    requires
        specs.len() == types.len(),
        forall|i: int| 0 <= i < specs.len() ==> known_type(#[trigger] specs[i]) == Some(types[i]),
    ensures
        known_types_error(specs) is None <==> types_error(types) is None,
{
    let n = specs.len() as int;
    lemma_repeated_type(specs, n);
    law_valid_types(types);
    if repeated_type(specs, n) is Some {
        law_repeated_type_is_found_again(specs, types);
    } else {
        assert forall|t: Seq<char>|
            t == PLUGIN_TYPE_SYSTEM@ || t == PLUGIN_TYPE_USER@ implies !#[trigger] occurs_twice(
            types,
            t,
        ) by {
            if occurs_twice(types, t) {
                let (i, j) = choose|i: int, j: int|
                    0 <= i < j < types.len() && #[trigger] types[i] == t && #[trigger] types[j]
                        == t;
                assert(known_type(specs[i]) == known_type(specs[j]));
            }
        }
        assert forall|t: Seq<char>| #[trigger] types.contains(t) == has_known_type(
            specs,
            n,
            t,
        ) by {
            if types.contains(t) {
                let i = choose|i: int| 0 <= i < types.len() && types[i] == t;
                assert(known_type(specs[i]) == Some(t));
            }
            if has_known_type(specs, n, t) {
                let i = choose|i: int| 0 <= i < n && known_type(#[trigger] specs[i]) == Some(t);
                assert(types[i] == t);
            }
        }
    }
}

/// `file=` with any path says that path.
pub proof fn law_file_form(path: Seq<char>)
    requires
        path.len() > 0,
    ensures
        plugin_of("file="@ + path) == Ok::<PluginSpecView, ErrorView>(
            PluginSpecView::File { path },
        ),
{
    let s = "file="@ + path;
    lemma_literals();
    assert(s.take(5) =~= "file="@);
    assert(s.skip(5) =~= path);
}

/// A name without commas that is followed by a version, and what it is cut into.
proof fn lemma_version_form(part: Seq<char>, version: Seq<char>)
    requires
        !part.contains(','),
        version.len() > 0,
        !version.contains(','),
    ensures
        ({
            let s = part + ",version="@ + version;
            &&& name_part_of(s) == part
            &&& options_of(s).len() == 1
            &&& options_error(s, options_of(s), 1) is None
            &&& options_version(options_of(s), 1) == Some(version)
        }),
{
    lemma_literals();
    let s = part + ",version="@ + version;
    let option = "version"@ + seq!['='] + version;
    assert(s =~= part + seq![','] + option);
    lemma_split_once_at(part, ',', option);
    assert(!option.contains(','));
    lemma_no_separator(option, ',');
    assert(!"version"@.contains('='));
    lemma_split_once_at("version"@, '=', version);
    assert(options_of(s) =~= seq![option]);
    assert(option_error(s, options_of(s), 0) is None);
    assert(options_error(s, options_of(s), 0) is None);
}

/// A name, with or without a version, says that name and version and no type.
pub proof fn law_name_forms(name: Seq<char>, version: Seq<char>)
    requires
        name.len() > 0,
        !name.contains(','),
        !name.contains('/'),
        strip_prefix(name, "file="@) is None,
        version.len() > 0,
        !version.contains(','),
    ensures
        plugin_of(name) == Ok::<PluginSpecView, ErrorView>(
            PluginSpecView::Named { name, plugin_type: None, version: None },
        ),
        plugin_of(name + ",version="@ + version) == Ok::<PluginSpecView, ErrorView>(
            PluginSpecView::Named { name, plugin_type: None, version: Some(version) },
        ),
{
    lemma_literals();
    lemma_no_separator(name, ',');
    lemma_no_separator(name, '/');
    lemma_version_form(name, version);
    let s = name + ",version="@ + version;
    if strip_prefix(s, "file="@) is Some {
        if name.len() < 5 {
            assert(s[name.len() as int] == ',');
            assert("file="@[name.len() as int] == s[name.len() as int]) by {
                assert(s.take(5) == "file="@);
            }
        } else {
            assert(name.take(5) =~= s.take(5));
        }
    }
}

/// What an accepted argument says is never empty: neither the path of a file, nor the name or
/// the version of a plugin. A type is one of the two, and neither a name nor a version holds a
/// comma.
pub proof fn law_accepted_plugin(s: Seq<char>)
    requires
        plugin_of(s) is Ok,
    ensures
        match plugin_of(s)->Ok_0 {
            PluginSpecView::File { path } => s == "file="@ + path && path.len() > 0,
            PluginSpecView::Named { name, plugin_type, version } => {
                &&& name.len() > 0
                &&& !name.contains(',')
                &&& plugin_type matches Some(t) ==> t == PLUGIN_TYPE_SYSTEM@ || t
                    == PLUGIN_TYPE_USER@
                &&& plugin_type is None ==> !name.contains('/')
                &&& version matches Some(v) ==> v.len() > 0 && !v.contains(',')
            },
        },
{
    let options = options_of(s);
    let n = options.len() as int;
    match strip_prefix(s, "file="@) {
        Some(path) => {
            assert(s =~= "file="@ + path);
        },
        None => {
            let part = name_part_of(s);
            lemma_split_once_parts(s, ',');
            lemma_split_once_parts(part, '/');
            match split_once(part, '/') {
                Some((kind, name)) => {
                    assert(forall|i: int|
                        0 <= i < name.len() ==> name[i] == part[kind.len() + 1 + i]);
                },
                None => {},
            }
            if n > 0 {
                let after = match split_once(s, ',') {
                    Some((_, after)) => after,
                    None => s,
                };
                lemma_pieces_hold_no_separator(after, ',');
                assert(option_error(s, options, n - 1) is None);
                let option = options[n - 1];
                lemma_split_once_parts(option, '=');
                let key = option_key(option);
                let value = option_value(option);
                assert(forall|i: int|
                    0 <= i < value.len() ==> value[i] == option[key.len() + 1 + i]);
            }
        },
    }
}

/// A type and a name, with or without a version, say that type, name and version.
pub proof fn law_typed_forms(kind: Seq<char>, name: Seq<char>, version: Seq<char>)
    requires
        canonical_type(kind) is Some,
        name.len() > 0,
        !name.contains(','),
        version.len() > 0,
        !version.contains(','),
    ensures
        plugin_of(kind + "/"@ + name) == Ok::<PluginSpecView, ErrorView>(
            PluginSpecView::Named { name, plugin_type: canonical_type(kind), version: None },
        ),
        plugin_of(kind + "/"@ + name + ",version="@ + version) == Ok::<PluginSpecView, ErrorView>(
            PluginSpecView::Named {
                name,
                plugin_type: canonical_type(kind),
                version: Some(version),
            },
        ),
{
    lemma_literals();
    let part = kind + "/"@ + name;
    assert(!kind.contains('/') && !kind.contains(',') && kind.len() > 0 && kind[0] != 'f');
    assert(!part.contains(','));
    lemma_split_once_at(kind, '/', name);
    lemma_no_separator(part, ',');
    assert(part.take(5)[0] != "file="@[0]);
    assert(strip_prefix(part, "file="@) is None);
    lemma_version_form(part, version);
    let s = part + ",version="@ + version;
    assert(s[0] == kind[0]);
    assert(s.take(5)[0] != "file="@[0]);
    assert(strip_prefix(s, "file="@) is None);
}

proof fn lemma_no_plugin_error(list: Seq<Seq<char>>, i: int)
    requires
        0 <= i <= list.len(),
        forall|j: int| 0 <= j < i ==> plugin_of(#[trigger] list[j]) is Ok,
    ensures
        plugins_error(list, i) is None,
    decreases i,
{
    if i > 0 {
        lemma_no_plugin_error(list, i - 1);
        assert(plugin_of(list[i - 1]) is Ok);
    }
}

/// The first argument that cannot be read gives the error of them all. Where all can be read, what
/// they say comes in their order, unless the types that are known do not go together.
pub proof fn law_first_plugin_error(list: Seq<Seq<char>>, i: int)
    requires
        0 <= i <= list.len(),
        forall|j: int| 0 <= j < i ==> plugin_of(#[trigger] list[j]) is Ok,
        i < list.len() ==> plugin_of(list[i]) is Err,
    ensures
        if i < list.len() {
            plugins_of(list) == Err::<Seq<PluginSpecView>, ErrorView>(plugin_of(list[i])->Err_0)
        } else {
            &&& plugins_read(list).len() == list.len()
            &&& forall|j: int|
                0 <= j < list.len() ==> plugin_of(list[j]) == Ok::<PluginSpecView, ErrorView>(
                    #[trigger] plugins_read(list)[j],
                )
            &&& plugins_of(list) == match known_types_error(plugins_read(list)) {
                Some(e) => Err::<Seq<PluginSpecView>, ErrorView>(e),
                None => Ok::<Seq<PluginSpecView>, ErrorView>(plugins_read(list)),
            }
        },
{
    lemma_no_plugin_error(list, i);
    if i < list.len() {
        lemma_plugins_error_stays(list, i + 1, list.len() as int);
    }
}

} // verus!
