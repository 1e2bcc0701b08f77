//! The manifests that list plugins and their releases: where they are, what they hold, and what
//! comes of fetching them.
use vstd::prelude::*;

use crate::error::{Error, ErrorView};
use crate::firmware::{law_versions_transitive, FirmwareVersion};
use crate::text::{concat3, concat7, concat9};

verus! {

/// Where the images server keeps plugins.
const PLUGIN_SITE_BASE: &'static str = "https://images.onerom.org/plugins";

/// The list of all plugins (`plugins.json`).
#[derive(Debug, Clone)]
pub struct PluginsManifest {
    /// The version of the format.
    pub version: u32,
    /// The plugins.
    pub plugins: Vec<PluginEntry>,
}

/// A plugin in the list of all plugins.
#[derive(Debug, Clone)]
pub struct PluginEntry {
    /// The name, which is also that of its directory.
    pub name: String,
    /// The full type name, such as `system_plugin`.
    pub plugin_type: String,
    /// The path of its directory, such as `system/usb`.
    pub path: String,
}

/// The releases of one plugin (`releases.json`).
#[derive(Debug, Clone)]
pub struct PluginReleasesManifest {
    /// The version of the format.
    pub version: u32,
    /// The plugin's name for people.
    pub display_name: String,
    /// What the plugin does.
    pub description: String,
    /// The latest release, if there is any.
    pub latest: Option<String>,
    /// All releases, the newest first.
    pub releases: Vec<PluginRelease>,
}

/// A release of a plugin.
#[derive(Debug, Clone)]
pub struct PluginRelease {
    /// The version, such as `0.1.0`.
    pub version: String,
    /// The path of its directory, such as `v0.1.0`.
    pub path: String,
    /// The name of the binary in that directory.
    pub filename: String,
    /// The SHA256 digest of the binary, in hexadecimal.
    pub sha256: String,
    /// The plugin API that it is made for.
    pub api_version: u32,
    /// The full type name.
    pub plugin_type: String,
    /// The earliest firmware that it runs on.
    pub min_fw_version: FirmwareVersion,
}

/// The URL of a path on the images server.
pub open spec fn site_url(path: Seq<char>) -> Seq<char> {
    "https://images.onerom.org/plugins"@ + "/"@ + path
}

/// The URL of the list of all plugins.
pub open spec fn manifest_url() -> Seq<char> {
    site_url("plugins.json"@)
}

/// The URL of the list of a plugin's releases.
pub open spec fn releases_url(plugin_type: Seq<char>, plugin_name: Seq<char>) -> Seq<char> {
    site_url(plugin_type + "/"@ + plugin_name + "/"@ + "releases.json"@)
}

/// The URL of a binary, from its plugin's type and name, and its directory and name.
pub open spec fn binary_url_of(
    plugin_type: Seq<char>,
    plugin_name: Seq<char>,
    path: Seq<char>,
    filename: Seq<char>,
) -> Seq<char> {
    site_url(plugin_type + "/"@ + plugin_name + "/"@ + path + "/"@ + filename)
}

/// Whether an HTTP status stands for success.
pub open spec fn is_success(status: u16) -> bool {
    200 <= status < 300
}

/// Why a URL could not be fetched.
pub enum FetchFailure {
    /// The server could not be reached, and why.
    Unreachable(String),
    /// The server answered with this status, which does not stand for success.
    Refused(u16),
    /// The answer is not what was expected, and why.
    Malformed(String),
}

/// The error that a failure to fetch `url` amounts to.
pub open spec fn fetch_error_of(url: Seq<char>, failure: FetchFailure) -> ErrorView {
    match failure {
        FetchFailure::Unreachable(reason) => ErrorView::Network(url, reason@),
        FetchFailure::Refused(status) => ErrorView::Http(url, status),
        FetchFailure::Malformed(reason) => ErrorView::Json(url, reason@),
    }
}

impl PluginRelease {
    /// The URL of this release's binary.
    pub fn binary_url(&self, plugin_type: &str, plugin_name: &str) -> (r: String)
        ensures
            r@ == site_url(
                plugin_type@ + "/"@ + plugin_name@ + "/"@ + self.path@ + "/"@ + self.filename@,
            ),
            r@ == binary_url_of(plugin_type@, plugin_name@, self.path@, self.filename@),
    {
        let r: String = concat9(
            PLUGIN_SITE_BASE,
            "/",
            plugin_type,
            "/",
            plugin_name,
            "/",
            self.path.as_str(),
            "/",
            self.filename.as_str(),
        );
        assert(r@ =~= site_url(
            plugin_type@ + "/"@ + plugin_name@ + "/"@ + self.path@ + "/"@ + self.filename@,
        ));
        r
    }

    /// Whether this release runs on a firmware.
    pub fn compatible_with_firmware(&self, fw: &FirmwareVersion) -> (r: bool)
        ensures
            r == fw.at_least(self.min_fw_version),
    {
        fw.is_at_least(&self.min_fw_version)
    }
}

/// The URL of the list of all plugins.
pub fn plugins_manifest_url() -> (r: String)
    ensures
        r@ == site_url("plugins.json"@),
        r@ == manifest_url(),
{
    concat3(PLUGIN_SITE_BASE, "/", "plugins.json")
}

/// The URL of the list of a plugin's releases, from the short name of its type and its own name.
pub fn plugin_releases_url(plugin_type: &str, plugin_name: &str) -> (r: String)
    ensures
        r@ == site_url(plugin_type@ + "/"@ + plugin_name@ + "/"@ + "releases.json"@),
        r@ == releases_url(plugin_type@, plugin_name@),
{
    let r: String = concat7(
        PLUGIN_SITE_BASE,
        "/",
        plugin_type,
        "/",
        plugin_name,
        "/",
        "releases.json",
    );
    assert(r@ =~= site_url(plugin_type@ + "/"@ + plugin_name@ + "/"@ + "releases.json"@));
    r
}

/// The error that a failure to fetch `url` amounts to.
pub fn fetch_error(url: &str, failure: FetchFailure) -> (r: Error)
    ensures
        r@ == fetch_error_of(url@, failure),
{
    match failure {
        FetchFailure::Unreachable(reason) => Error::Network(url.to_owned(), reason),
        FetchFailure::Refused(status) => Error::Http(url.to_owned(), status),
        FetchFailure::Malformed(reason) => Error::Json(url.to_owned(), reason),
    }
}

/// Whether an HTTP status stands for success.
pub fn is_success_status(status: u16) -> (r: bool)
    ensures
        r == (200 <= status < 300),
        r == is_success(status),
{
    200 <= status && status < 300
}

/// Checks the status of the answer to a request for `url`, which is read only where the status
/// stands for success.
pub fn check_status(url: &str, status: u16) -> (r: Result<(), Error>)
    ensures
        match r {
            Ok(_) => 200 <= status < 300 && is_success(status),
            Err(e) => !(200 <= status < 300) && !is_success(status) && e@ == fetch_error_of(
                url@,
                FetchFailure::Refused(status),
            ),
        },
{
    if is_success_status(status) {
        Ok(())
    } else {
        Err(fetch_error(url, FetchFailure::Refused(status)))
    }
}

/// A release that runs on a firmware runs on every later one.
pub proof fn law_later_firmware_is_compatible(
    release: PluginRelease,
    fw: FirmwareVersion,
    later: FirmwareVersion,
)
    requires
        fw.at_least(release.min_fw_version),
        later.at_least(fw),
    ensures
        later.at_least(release.min_fw_version),
{
    law_versions_transitive(later, fw, release.min_fw_version);
}

/// Each failure has an error of its own, which names the URL and says why.
pub proof fn law_fetch_errors(url: Seq<char>, reason: String, status: u16)
    ensures
        fetch_error_of(url, FetchFailure::Unreachable(reason)) == ErrorView::Network(url, reason@),
        fetch_error_of(url, FetchFailure::Refused(status)) == ErrorView::Http(url, status),
        fetch_error_of(url, FetchFailure::Malformed(reason)) == ErrorView::Json(url, reason@),
{
}

/// A status stands for success exactly where it has three digits and the first is a two.
pub proof fn law_success(status: u16)
    ensures
        is_success(status) <==> status / 100 == 2,
{
}

/// Where the lists and the binaries are.
pub proof fn law_urls(
    plugin_type: Seq<char>,
    plugin_name: Seq<char>,
    path: Seq<char>,
    filename: Seq<char>,
)
    ensures
        manifest_url() == "https://images.onerom.org/plugins/plugins.json"@,
        releases_url(plugin_type, plugin_name) == "https://images.onerom.org/plugins/"@
            + plugin_type + seq!['/'] + plugin_name + "/releases.json"@,
        binary_url_of(plugin_type, plugin_name, path, filename)
            == "https://images.onerom.org/plugins/"@ + plugin_type + seq!['/'] + plugin_name
            + seq!['/'] + path + seq!['/'] + filename,
{
    law_site_url("plugins.json"@);
    law_site_url(plugin_type + "/"@ + plugin_name + "/"@ + "releases.json"@);
    law_site_url(plugin_type + "/"@ + plugin_name + "/"@ + path + "/"@ + filename);
    reveal_strlit("https://images.onerom.org/plugins/plugins.json");
    reveal_strlit("https://images.onerom.org/plugins/");
    reveal_strlit("plugins.json");
    reveal_strlit("/");
    reveal_strlit("releases.json");
    reveal_strlit("/releases.json");
    assert("/"@ =~= seq!['/']);
    assert("/releases.json"@ =~= "/"@ + "releases.json"@);
    assert(manifest_url() =~= "https://images.onerom.org/plugins/plugins.json"@);
    assert(releases_url(plugin_type, plugin_name) =~= "https://images.onerom.org/plugins/"@
        + plugin_type + seq!['/'] + plugin_name + "/releases.json"@);
    assert(binary_url_of(plugin_type, plugin_name, path, filename)
        =~= "https://images.onerom.org/plugins/"@ + plugin_type + seq!['/'] + plugin_name
        + seq!['/'] + path + seq!['/'] + filename);
}

/// Every URL is that of the images server, followed by the path.
pub proof fn law_site_url(path: Seq<char>)
    ensures
        site_url(path) == "https://images.onerom.org/plugins/"@ + path,
{
    reveal_strlit("https://images.onerom.org/plugins");
    reveal_strlit("https://images.onerom.org/plugins/");
    reveal_strlit("/");
    assert("https://images.onerom.org/plugins/"@ =~= "https://images.onerom.org/plugins"@
        + "/"@);
}

} // verus!
