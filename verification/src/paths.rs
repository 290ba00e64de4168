//! Where the browser keeps its files.
use vstd::prelude::*;
use vstd::string::{StrSliceExecFns, StringExecFns};

use crate::text::str_chars;

verus! {

/// `Path::join` on Unix: an absolute component replaces the path;
/// otherwise a `/` separates the two unless the path is empty or already
/// ends with one.
pub open spec fn path_join(base: Seq<char>, comp: Seq<char>) -> Seq<char> {
    if comp.len() > 0 && comp[0] == '/' {
        comp
    } else if base.len() == 0 || base.last() == '/' {
        base + comp
    } else {
        base + seq!['/'] + comp
    }
}

/// `base` joined with `comp`, as `Path::join` does it on Unix.
pub fn join_path(base: &str, comp: &str) -> (r: String)
    ensures
        r@ == path_join(base@, comp@),
{
    let b = str_chars(base);
    let c = str_chars(comp);
    if c.len() > 0 && c[0] == '/' {
        return comp.to_owned();
    }
    let mut r = base.to_owned();
    if b.len() > 0 && b[b.len() - 1] != '/' {
        r.push('/');
    }
    r.append(comp);
    r
}

/// The user's data directory as the platform reports it
/// (`dirs::data_dir`), if it has one.
#[verifier::external_body]
fn os_data_dir() -> (r: Option<String>) {
    dirs::data_dir().map(|p| p.to_string_lossy().into_owned())
}

/// The user's configuration directory (`dirs::config_dir`), if any.
#[verifier::external_body]
fn os_config_dir() -> (r: Option<String>) {
    dirs::config_dir().map(|p| p.to_string_lossy().into_owned())
}

/// The user's download directory (`dirs::download_dir`), if any.
#[verifier::external_body]
fn os_download_dir() -> (r: Option<String>) {
    dirs::download_dir().map(|p| p.to_string_lossy().into_owned())
}

/// The user's home directory (`dirs::home_dir`), if any.
#[verifier::external_body]
fn os_home_dir() -> (r: Option<String>) {
    dirs::home_dir().map(|p| p.to_string_lossy().into_owned())
}

/// The browser's own directory under a platform directory.
pub open spec fn app_dir(base: Seq<char>) -> Seq<char> {
    path_join(base, "cosmic-gemini"@)
}

fn or_current_dir(d: Option<String>) -> (r: String)
    ensures
        d matches Some(s) ==> r == s,
        d is None ==> r@ == "."@,
{
    match d {
        Some(s) => s,
        None => String::from_str("."),
    }
}

/// The browser's data directory: `cosmic-gemini` under the platform data
/// directory (or under `.` when there is none).
pub fn data_dir() -> (r: String)
    ensures
        exists|b: Seq<char>| r@ == #[trigger] app_dir(b),
{
    let base = or_current_dir(os_data_dir());
    let r = join_path(base.as_str(), "cosmic-gemini");
    assert(r@ == app_dir(base@));
    r
}

/// The browser's configuration directory.
pub fn config_dir() -> (r: String)
    ensures
        exists|b: Seq<char>| r@ == #[trigger] app_dir(b),
{
    let base = or_current_dir(os_config_dir());
    let r = join_path(base.as_str(), "cosmic-gemini");
    assert(r@ == app_dir(base@));
    r
}

/// Where downloads go: `cosmic-gemini` under the download directory, else
/// under the home directory, else under `.`.
pub fn download_dir() -> (r: String)
    ensures
        exists|b: Seq<char>| r@ == #[trigger] app_dir(b),
{
    let base = match os_download_dir() {
        Some(d) => d,
        None => or_current_dir(os_home_dir()),
    };
    let r = join_path(base.as_str(), "cosmic-gemini");
    assert(r@ == app_dir(base@));
    r
}

/// The file named `name` in the data directory.
pub open spec fn data_file(base: Seq<char>, name: Seq<char>) -> Seq<char> {
    path_join(app_dir(base), name)
}

/// The bookmarks file.
pub fn bookmarks_path() -> (r: String)
    ensures
        exists|b: Seq<char>| r@ == #[trigger] data_file(b, "bookmarks.gemini"@),
{
    let d = data_dir();
    let ghost b = choose|b: Seq<char>| d@ == #[trigger] app_dir(b);
    let r = join_path(d.as_str(), "bookmarks.gemini");
    assert(r@ == data_file(b, "bookmarks.gemini"@));
    r
}

/// The history file.
pub fn history_path() -> (r: String)
    ensures
        exists|b: Seq<char>| r@ == #[trigger] data_file(b, "history.gemini"@),
{
    let d = data_dir();
    let ghost b = choose|b: Seq<char>| d@ == #[trigger] app_dir(b);
    let r = join_path(d.as_str(), "history.gemini");
    assert(r@ == data_file(b, "history.gemini"@));
    r
}

/// The saved session.
pub fn session_path() -> (r: String)
    ensures
        exists|b: Seq<char>| r@ == #[trigger] data_file(b, "session.json"@),
{
    let d = data_dir();
    let ghost b = choose|b: Seq<char>| d@ == #[trigger] app_dir(b);
    let r = join_path(d.as_str(), "session.json");
    assert(r@ == data_file(b, "session.json"@));
    r
}

/// The pinned server certificates.
pub fn default_known_hosts_path() -> (r: String)
    ensures
        exists|b: Seq<char>| r@ == #[trigger] path_join(b, "cosmic-gemini/known_hosts"@),
{
    let base = or_current_dir(os_data_dir());
    let r = join_path(base.as_str(), "cosmic-gemini/known_hosts");
    assert(r@ == path_join(base@, "cosmic-gemini/known_hosts"@));
    r
}

/// The directory holding client identities.
pub fn identities_dir() -> (r: String)
    ensures
        exists|b: Seq<char>| r@ == #[trigger] data_file(b, "identities"@),
{
    let d = data_dir();
    let ghost b = choose|b: Seq<char>| d@ == #[trigger] app_dir(b);
    let r = join_path(d.as_str(), "identities");
    assert(r@ == data_file(b, "identities"@));
    r
}

/// The identities' configuration file.
pub fn identities_config_path() -> (r: String)
    ensures
        exists|b: Seq<char>| r@ == path_join(#[trigger] data_file(b, "identities"@), "config.json"@),
{
    let d = identities_dir();
    let ghost b = choose|b: Seq<char>| d@ == #[trigger] data_file(b, "identities"@);
    let r = join_path(d.as_str(), "config.json");
    assert(r@ == path_join(data_file(b, "identities"@), "config.json"@));
    r
}

/// The directory of identity `id`.
pub fn identity_dir(id: &str) -> (r: String)
    ensures
        exists|b: Seq<char>| r@ == path_join(#[trigger] data_file(b, "identities"@), id@),
{
    let d = identities_dir();
    let ghost b = choose|b: Seq<char>| d@ == #[trigger] data_file(b, "identities"@);
    let r = join_path(d.as_str(), id);
    assert(r@ == path_join(data_file(b, "identities"@), id@));
    r
}

/// The HYDRA node's directory: `hydra` in the data directory.
pub fn hydra_data_dir() -> (r: String)
    ensures
        exists|b: Seq<char>| r@ == #[trigger] data_file(b, "hydra"@),
{
    let d = data_dir();
    let ghost b = choose|b: Seq<char>| d@ == #[trigger] app_dir(b);
    let r = join_path(d.as_str(), "hydra");
    assert(r@ == data_file(b, "hydra"@));
    r
}

/// The Tor state directory of the HYDRA node.
pub fn tor_data_dir() -> (r: String)
    ensures
        exists|b: Seq<char>| r@ == path_join(#[trigger] data_file(b, "hydra"@), "tor"@),
{
    let d = hydra_data_dir();
    let ghost b = choose|b: Seq<char>| d@ == #[trigger] data_file(b, "hydra"@);
    let r = join_path(d.as_str(), "tor");
    assert(r@ == path_join(data_file(b, "hydra"@), "tor"@));
    r
}

/// The HYDRA node's configuration file.
pub fn hydra_config_path() -> (r: String)
    ensures
        exists|b: Seq<char>| r@ == path_join(#[trigger] data_file(b, "hydra"@), "config.json"@),
{
    let d = hydra_data_dir();
    let ghost b = choose|b: Seq<char>| d@ == #[trigger] data_file(b, "hydra"@);
    let r = join_path(d.as_str(), "config.json");
    assert(r@ == path_join(data_file(b, "hydra"@), "config.json"@));
    r
}

/// The bookmarks file written on first use.
pub const DEFAULT_BOOKMARKS: &'static str = "# Bookmarks

This is a Gemini file where you can put all your bookmarks.
You can edit this file in a text editor to manage them.

## Default bookmarks

=> gemini://geminiprotocol.net Gemini Project
=> gemini://warmedal.se/~antenna/ Antenna aggregator
=> gemini://tlgs.one/ TLGS search engine

## Custom bookmarks

";

/// A gemtext link line for `url` labelled `title`.
pub open spec fn link_line(url: Seq<char>, title: Seq<char>) -> Seq<char> {
    "=> "@ + url + " "@ + title + "\n"@
}

fn make_link_line(url: &str, title: &str) -> (r: String)
    ensures
        r@ == link_line(url@, title@),
{
    let mut r = String::from_str("=> ");
    r.append(url);
    r.append(" ");
    r.append(title);
    r.append("\n");
    r
}

/// The line to append to the bookmarks file for a page.
pub fn add_bookmark(url: &str, title: &str) -> (line: String)
    ensures
        line@ == link_line(url@, title@),
{
    make_link_line(url, title)
}

/// The line to append to the history file for a visited page.
pub fn add_history(url: &str, title: &str) -> (line: String)
    ensures
        line@ == link_line(url@, title@),
{
    make_link_line(url, title)
}

} // verus!
