use vstd::prelude::*;
use vstd::string::*;

verus! {

/// The version tags published for one platform.
#[derive(Clone, Debug)]
pub struct VersionInfo {
    pub beta: Option<String>,
    pub main: Option<String>,
}

/// The version tags of one game, per platform.
#[derive(Clone, Debug)]
pub struct PlatformVersions {
    pub darwin: Option<VersionInfo>,
    pub linux: Option<VersionInfo>,
    pub windows: Option<VersionInfo>,
}

/// Client of the game CDN; the requests themselves are made by the caller.
pub struct Api {}

pub open spec fn platform_entry(p: PlatformVersions, platform: Seq<char>) -> Option<VersionInfo> {
    if platform == "darwin"@ {
        p.darwin
    } else if platform == "linux"@ {
        p.linux
    } else {
        p.windows
    }
}

pub open spec fn channel(beta: bool) -> Seq<char> {
    if beta {
        "beta"@
    } else {
        "main"@
    }
}

pub open spec fn manifest_path(game: Seq<char>, platform: Seq<char>, version: Seq<char>, beta: bool) -> Seq<char> {
    "https://cytrus.cdn.ankama.com/"@ + game + "/releases/"@ + channel(beta) + "/"@ + platform + "/"@
        + version + ".manifest"@
}

/// Whether two strings hold the same characters.
pub fn same_text(a: &str, b: &str) -> (r: bool)
    ensures
        r == (a@ == b@),
{
    let n = a.unicode_len();
    if n != b.unicode_len() {
        return false;
    }
    let mut i: usize = 0;
    while i < n
        invariant
            i <= n,
            n == a@.len(),
            n == b@.len(),
            forall|j: int| 0 <= j < i ==> a@[j] == b@[j],
        decreases n - i,
    {
        if a.get_char(i) != b.get_char(i) {
            return false;
        }
        i = i + 1;
    }
    assert(a@ =~= b@);
    true
}

fn copy_tag(tag: &Option<String>) -> (r: Option<String>)
    ensures
        r == *tag,
{
    match tag {
        Some(s) => Some(s.clone()),
        None => None,
    }
}

impl Api {
    /// The newest version tag of a platform (`darwin`, `linux`, anything
    /// else meaning `windows`) on the beta or the main channel, if published.
    pub fn select_version(platforms: &PlatformVersions, platform: &str, beta: bool) -> (r: Option<String>)
        ensures
            r == (match platform_entry(*platforms, platform@) {
                Some(v) => if beta { v.beta } else { v.main },
                None => None,
            }),
    {
        let entry = if same_text(platform, "darwin") {
            &platforms.darwin
        } else if same_text(platform, "linux") {
            &platforms.linux
        } else {
            &platforms.windows
        };
        match entry {
            Some(v) => if beta {
                copy_tag(&v.beta)
            } else {
                copy_tag(&v.main)
            },
            None => None,
        }
    }

    /// The address of a release's manifest.
    pub fn manifest_url(game: &str, platform: &str, version: &str, beta: bool) -> (r: String)
        ensures
            r@ == manifest_path(game@, platform@, version@, beta),
    {
        let mut url = String::new();
        url.append("https://cytrus.cdn.ankama.com/");
        url.append(game);
        url.append("/releases/");
        url.append(if beta { "beta" } else { "main" });
        url.append("/");
        url.append(platform);
        url.append("/");
        url.append(version);
        url.append(".manifest");
        assert(url@ =~= manifest_path(game@, platform@, version@, beta));
        url
    }
}

} // verus!
