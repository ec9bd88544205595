//! Where the catalogue of tags is kept, and where it is fetched from.

use vstd::prelude::*;
use vstd::string::*;
use crate::text::decimal;
use crate::text::push_decimal;
use crate::text::text_is;

verus! {

/// `base` with the relative path `part` behind it: a separator stands
/// between the two unless `base` is empty or ends with one.
pub open spec fn joined(base: Seq<char>, part: Seq<char>) -> Seq<char> {
    if base.len() == 0 || base.last() == '/' {
        base + part
    } else {
        base + "/"@ + part
    }
}

/// The path of the catalogue below the data folder `data_path`.
pub open spec fn taginfo_path_text(data_path: Seq<char>) -> Seq<char> {
    joined(joined(data_path, "taginfo"@), "taginfo.json"@)
}

fn push_part(path: &mut String, part: &str)
    requires
        part@.len() > 0,
        part@.last() != '/',
    ensures
        final(path)@ == joined(old(path)@, part@),
        final(path)@.len() > 0,
        final(path)@.last() != '/',
{
    let n = path.as_str().unicode_len();
    if n > 0 && path.as_str().get_char(n - 1) != '/' {
        path.append("/");
    }
    path.append(part);
}

/// Returns the path of taginfo.json, based on the path of the data folder
pub fn taginfo_path(data_path: &str) -> (path: String)
    ensures
        path@ == taginfo_path_text(data_path@),
{
    proof {
        reveal_strlit("taginfo");
        reveal_strlit("taginfo.json");
    }
    let mut path = String::from_str(data_path);
    push_part(&mut path, "taginfo");
    push_part(&mut path, "taginfo.json");
    path
}

/// The address of one page of the list of all keys.
pub open spec fn all_keys_url_text(page: nat, per_page: nat) -> Seq<char> {
    "https://taginfo.openstreetmap.org/api/4/keys/all?page="@ + decimal(page) + "&rp="@ + decimal(
        per_page,
    ) + "&sortname=count_all&sortorder=desc&filter=in_wiki"@
}

/// Returns the url corresponding to a page of the list of all keys
pub fn all_keys_url(page: usize, per_page: usize) -> (url: String)
    ensures
        url@ == all_keys_url_text(page as nat, per_page as nat),
{
    let mut url = String::from_str("https://taginfo.openstreetmap.org/api/4/keys/all?page=");
    push_decimal(&mut url, page as u64);
    url.append("&rp=");
    push_decimal(&mut url, per_page as u64);
    url.append("&sortname=count_all&sortorder=desc&filter=in_wiki");
    url
}

/// The address of one page of the list of all values of the key `key`.
pub open spec fn all_values_url_text(key: Seq<char>, page: nat, per_page: nat) -> Seq<char> {
    "https://taginfo.openstreetmap.org/api/4/key/values?key="@ + key + "&page="@ + decimal(page)
        + "&rp="@ + decimal(per_page) + "&sortname=count&sortorder=desc"@
}

/// Returns the url corresponding to a page of the list of all values for `key`
pub fn all_values_url(key: &str, page: usize, per_page: usize) -> (url: String)
    ensures
        url@ == all_values_url_text(key@, page as nat, per_page as nat),
{
    let mut url = String::from_str("https://taginfo.openstreetmap.org/api/4/key/values?key=");
    url.append(key);
    url.append("&page=");
    push_decimal(&mut url, page as u64);
    url.append("&rp=");
    push_decimal(&mut url, per_page as u64);
    url.append("&sortname=count&sortorder=desc");
    url
}

/// The address of the wiki page that describes the key `key`. The key
/// `highway` has a page of its own name.
pub open spec fn wiki_url_text(key: Seq<char>) -> Seq<char> {
    if key == "highway"@ {
        "https://wiki.openstreetmap.org/wiki/Highways"@
    } else {
        "https://wiki.openstreetmap.org/wiki/Key:"@ + key
    }
}

/// Returns the url of the wiki page that describes `key`
pub fn wiki_url(key: &str) -> (url: String)
    ensures
        url@ == wiki_url_text(key@),
{
    if text_is(key, "highway") {
        String::from_str("https://wiki.openstreetmap.org/wiki/Highways")
    } else {
        let mut url = String::from_str("https://wiki.openstreetmap.org/wiki/Key:");
        url.append(key);
        url
    }
}

/// Whether more pages are to be fetched after a page of `received` entries
/// where `per_page` were asked for: a page that is not full is the last.
pub fn more_pages(received: usize, per_page: usize) -> (more: bool)
    ensures
        more == (received >= per_page),
{
    received >= per_page
}

/// Whether a value with the description `description` goes into the
/// catalogue: one that is described, and not by an empty text.
pub fn keeps_value(description: &Option<String>) -> (keep: bool)
    ensures
        keep == (description matches Some(d) && d@.len() > 0),
{
    match description {
        Some(d) => !d.as_str().is_empty(),
        None => false,
    }
}

} // verus!
