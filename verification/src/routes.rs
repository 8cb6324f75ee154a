//! Which files of a site the server hands out, and where they are stored.
//!
//! A file's location is given as the list of path segments that are joined, in
//! order, below the ZeroNet data directory.

use vstd::prelude::*;

verus! {

/// The characters of each string.
pub open spec fn strings_view(v: Seq<String>) -> Seq<Seq<char>> {
    Seq::new(v.len(), |i: int| v[i]@)
}

/// Where the file `rest` below `folder` of site `address` is stored, when
/// `address` is one of `known_sites`.
pub open spec fn spec_site_file(
    known_sites: Seq<Seq<char>>,
    zeronet_path: Seq<char>,
    address: Seq<char>,
    folder: Seq<char>,
    rest: Seq<Seq<char>>,
) -> Option<Seq<Seq<char>>> {
    if known_sites.contains(address) {
        Some(seq![zeronet_path, address, folder] + rest)
    } else {
        None
    }
}

fn is_known(known_sites: &Vec<String>, address: &str) -> (b: bool)
    ensures
        b == strings_view(known_sites@).contains(address@),
{
    let a = String::from_str(address);
    let mut i: usize = 0;
    while i < known_sites.len()
        invariant
            i <= known_sites.len(),
            a@ == address@,
            forall|j: int| 0 <= j < i ==> known_sites@[j]@ != address@,
        decreases known_sites.len() - i,
    {
        if known_sites[i] == a {
            assert(strings_view(known_sites@)[i as int] == address@);
            return true;
        }
        i = i + 1;
    }
    proof {
        if strings_view(known_sites@).contains(address@) {
            let k = choose|k: int|
                0 <= k < strings_view(known_sites@).len() && strings_view(known_sites@)[k] == address@;
            assert(known_sites@[k]@ == address@);
        }
    }
    false
}

/// The segments of the file `rest` below `folder` of site `address`, or `None`
/// when the site is not served.
pub fn site_file(
    known_sites: &Vec<String>,
    zeronet_path: &str,
    address: &str,
    folder: &str,
    rest: Vec<String>,
) -> (r: Option<Vec<String>>)
    ensures
        match r {
            Some(v) => spec_site_file(
                strings_view(known_sites@),
                zeronet_path@,
                address@,
                folder@,
                strings_view(rest@),
            ) == Some(strings_view(v@)),
            None => spec_site_file(
                strings_view(known_sites@),
                zeronet_path@,
                address@,
                folder@,
                strings_view(rest@),
            ) is None,
        },
{
    if !is_known(known_sites, address) {
        return None;
    }
    let mut v: Vec<String> = Vec::new();
    v.push(String::from_str(zeronet_path));
    v.push(String::from_str(address));
    v.push(String::from_str(folder));
    let mut i: usize = 0;
    while i < rest.len()
        invariant
            i <= rest.len(),
            strings_view(v@) == seq![zeronet_path@, address@, folder@] + strings_view(rest@).take(
                i as int,
            ),
        decreases rest.len() - i,
    {
        let ghost before = v@;
        let item = rest[i].clone();
        assert(item@ == rest@[i as int]@);
        v.push(item);
        assert(v@ == before.push(item));
        assert(strings_view(v@) =~= strings_view(before).push(item@));
        assert(strings_view(rest@).take(i + 1) =~= strings_view(rest@).take(i as int).push(item@));
        assert(strings_view(v@) =~= seq![zeronet_path@, address@, folder@] + strings_view(
            rest@,
        ).take(i + 1));
        i = i + 1;
    }
    assert(strings_view(rest@).take(rest.len() as int) =~= strings_view(rest@));
    Some(v)
}

/// The stylesheet of a site.
pub fn css_file(known_sites: &Vec<String>, zeronet_path: &str, address: &str) -> (r: Option<Vec<String>>)
    ensures
        match r {
            Some(v) => spec_site_file(
                strings_view(known_sites@),
                zeronet_path@,
                address@,
                "css/all.css"@,
                Seq::empty(),
            ) == Some(strings_view(v@)),
            None => !strings_view(known_sites@).contains(address@),
        },
{
    let r = site_file(known_sites, zeronet_path, address, "css/all.css", Vec::new());
    proof {
        let e: Seq<String> = Seq::empty();
        assert(strings_view(e) =~= Seq::<Seq<char>>::empty());
    }
    r
}

/// A file below the `data` folder of a site.
pub fn data_file(known_sites: &Vec<String>, zeronet_path: &str, address: &str, path: Vec<String>) -> (r: Option<Vec<String>>)
    ensures
        match r {
            Some(v) => spec_site_file(
                strings_view(known_sites@),
                zeronet_path@,
                address@,
                "data"@,
                strings_view(path@),
            ) == Some(strings_view(v@)),
            None => !strings_view(known_sites@).contains(address@),
        },
{
    site_file(known_sites, zeronet_path, address, "data", path)
}

/// A file below the `fonts` folder of a site.
pub fn font_file(known_sites: &Vec<String>, zeronet_path: &str, address: &str, path: Vec<String>) -> (r: Option<Vec<String>>)
    ensures
        match r {
            Some(v) => spec_site_file(
                strings_view(known_sites@),
                zeronet_path@,
                address@,
                "fonts"@,
                strings_view(path@),
            ) == Some(strings_view(v@)),
            None => !strings_view(known_sites@).contains(address@),
        },
{
    site_file(known_sites, zeronet_path, address, "fonts", path)
}

/// The file to serve for `segments`: a folder is served through its
/// `index.html`.
pub fn served_file(segments: Vec<String>, is_dir: bool) -> (r: Vec<String>)
    ensures
        strings_view(r@) == if is_dir {
            strings_view(segments@).push("index.html"@)
        } else {
            strings_view(segments@)
        },
{
    let mut r = segments;
    let ghost before = r@;
    if is_dir {
        r.push(String::from_str("index.html"));
        assert(strings_view(r@) =~= strings_view(before).push("index.html"@));
    }
    r
}

} // verus!
