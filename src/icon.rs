use vstd::prelude::*;

verus! {

/// Icon shown for a jail that no plugin describes.
pub const DEFAULT_ICON: &'static str = "/static/icons/beastie.png";

/// `s` with every non-overlapping occurrence of `from`, scanned left to right,
/// replaced by `to`.
pub open spec fn replace_all(s: Seq<char>, from: Seq<char>, to: Seq<char>) -> Seq<char>
    recommends
        from.len() > 0,
    decreases s.len(),
{
    if s.len() == 0 || from.len() == 0 {
        s
    } else if s.len() >= from.len() && s.subrange(0, from.len() as int) == from {
        to + replace_all(s.subrange(from.len() as int, s.len() as int), from, to)
    } else {
        seq![s[0]] + replace_all(s.subrange(1, s.len() as int), from, to)
    }
}

/// `s` with `suffix` removed from its end as many times as it occurs there.
pub open spec fn trim_end_all(s: Seq<char>, suffix: Seq<char>) -> Seq<char>
    decreases s.len(),
{
    if suffix.len() > 0 && s.len() >= suffix.len() && s.subrange(
        s.len() - suffix.len(),
        s.len() as int,
    ) == suffix {
        trim_end_all(s.subrange(0, s.len() - suffix.len()), suffix)
    } else {
        s
    }
}

/// The repository URL turned into the base URL of its raw content: the
/// version-control suffix is stripped and the hosting domain rewritten.
pub open spec fn raw_base(repository: Seq<char>) -> Seq<char> {
    replace_all(
        trim_end_all(repository, ".git"@),
        "github.com"@,
        "raw.githubusercontent.com"@,
    )
}

/// The plugin name used in icon paths; one long name has a shorter alias.
pub open spec fn icon_name(name: Seq<char>) -> Seq<char> {
    replace_all(name, "plexmediaserver"@, "plex"@)
}

/// URL of a plugin's icon, from its repository URL and its name.
pub open spec fn icon_url_of(repository: Seq<char>, name: Seq<char>) -> Seq<char> {
    raw_base(repository) + "/master/icons/"@ + icon_name(name) + ".png"@
}

/// Relies on str::trim_end_matches with a string pattern: the suffix is
/// removed repeatedly while the text ends with it.
#[verifier::external_body]
fn trim_suffix(s: &str, suffix: &str) -> (r: String)
    requires
        suffix@.len() > 0,
    ensures
        r@ == trim_end_all(s@, suffix@),
{
    s.trim_end_matches(suffix).to_string()
}

/// Relies on str::replace with a string pattern: non-overlapping matches,
/// found left to right, are each replaced.
#[verifier::external_body]
fn replace_str(s: &str, from: &str, to: &str) -> (r: String)
    requires
        from@.len() > 0,
    ensures
        r@ == replace_all(s@, from@, to@),
{
    s.replace(from, to)
}

/// The alias of a plugin name, under which its icon is stored.
pub fn icon_alias(name: &str) -> (r: String)
    ensures
        r@ == icon_name(name@),
{
    proof {
        reveal_strlit("plexmediaserver");
    }
    replace_str(name, "plexmediaserver", "plex")
}

/// Icon URL of a plugin, derived from its repository URL and its name.
pub fn icon_url(repository: &str, name: &str) -> (r: String)
    ensures
        r@ == icon_url_of(repository@, name@),
{
    proof {
        reveal_strlit(".git");
        reveal_strlit("github.com");
    }
    let trimmed = trim_suffix(repository, ".git");
    let base = replace_str(trimmed.as_str(), "github.com", "raw.githubusercontent.com");
    let alias = icon_alias(name);
    let mut r = base;
    r.append("/master/icons/");
    r.append(alias.as_str());
    r.append(".png");
    r
}

} // verus!
