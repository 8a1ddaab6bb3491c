//! Where the files of a city's map data lie.

use vstd::prelude::*;
use vstd::string::StrSliceExecFns;
use vstd::string::StringExecFns;

verus! {

/// Whether a source of map data names a place on the network: it starts
/// with the letters `http`. Anything else names a file that is already
/// here.
pub open spec fn remote(osm_url: Seq<char>) -> bool {
    osm_url.len() >= 4 && osm_url.subrange(0, 4) == "http"@
}

/// Where the data fetched for a city is kept: `input/`, the city, `/osm/`,
/// and the name of the file.
pub open spec fn fetched_path(city: Seq<char>, file_name: Seq<char>) -> Seq<char> {
    "input/"@ + city + "/osm/"@ + file_name
}

/// The file that holds the raw data of a source: the place where what is
/// fetched is kept for a source on the network, the source itself for a
/// file that is already here.
pub open spec fn local_path(osm_url: Seq<char>, city: Seq<char>, file_name: Seq<char>) -> Seq<
    char,
> {
    if remote(osm_url) {
        fetched_path(city, file_name)
    } else {
        osm_url
    }
}

/// The file with the boundary of a map: `importer/config/`, the city, `/`,
/// the map, and `.poly`.
pub open spec fn boundary_path(city: Seq<char>, map: Seq<char>) -> Seq<char> {
    "importer/config/"@ + city + "/"@ + map + ".poly"@
}

/// The file with the data of a map, cut to its boundary: `input/`, the
/// city, `/osm/`, the map, and `.osm`.
pub open spec fn clipped_path(city: Seq<char>, map: Seq<char>) -> Seq<char> {
    fetched_path(city, map + ".osm"@)
}

/// Whether a source of map data names a place on the network.
pub fn is_remote(osm_url: &str) -> (b: bool)
    ensures
        b == remote(osm_url@),
{
    if osm_url.unicode_len() < 4 {
        return false;
    }
    let b = osm_url.get_char(0) == 'h' && osm_url.get_char(1) == 't' && osm_url.get_char(2) == 't'
        && osm_url.get_char(3) == 'p';
    proof {
        reveal_strlit("http");
        let head = osm_url@.subrange(0, 4);
        if b {
            assert(head =~= "http"@);
        } else {
            assert(head[0] == osm_url@[0] && head[1] == osm_url@[1] && head[2] == osm_url@[2]
                && head[3] == osm_url@[3]);
        }
    }
    b
}

/// Where the data fetched for a city is kept.
pub fn fetched_file(city: &str, file_name: &str) -> (path: String)
    ensures
        path@ == fetched_path(city@, file_name@),
{
    let mut path = String::from_str("input/");
    path.append(city);
    path.append("/osm/");
    path.append(file_name);
    assert(path@ =~= fetched_path(city@, file_name@));
    path
}

/// The file that holds the raw data of a source. `file_name` is the last
/// part of the source's address, under which what is fetched is kept.
pub fn local_osm_file(osm_url: &str, city: &str, file_name: &str) -> (path: String)
    ensures
        path@ == local_path(osm_url@, city@, file_name@),
{
    if is_remote(osm_url) {
        fetched_file(city, file_name)
    } else {
        String::from_str(osm_url)
    }
}

/// The file with the boundary of a map.
pub fn boundary_file(city: &str, map: &str) -> (path: String)
    ensures
        path@ == boundary_path(city@, map@),
{
    let mut path = String::from_str("importer/config/");
    path.append(city);
    path.append("/");
    path.append(map);
    path.append(".poly");
    assert(path@ =~= boundary_path(city@, map@));
    path
}

/// The file with the data of a map, cut to its boundary.
pub fn clipped_file(city: &str, map: &str) -> (path: String)
    ensures
        path@ == clipped_path(city@, map@),
{
    let mut path = String::from_str("input/");
    path.append(city);
    path.append("/osm/");
    path.append(map);
    path.append(".osm");
    assert(path@ =~= clipped_path(city@, map@));
    path
}

} // verus!
