use vstd::prelude::*;
use vstd::string::*;

verus! {

/// A file in the cache directory holds a calendar when its name ends in
/// `.calendar.json`.
pub open spec fn spec_is_calendar_file(name: Seq<char>) -> bool {
    &&& name.len() >= 14
    &&& name.subrange(name.len() - 14, name.len() as int) == ".calendar.json"@
}

/// Decides whether a file name is a calendar file's.
pub fn is_calendar_file(name: &str) -> (r: bool)
    ensures
        r == spec_is_calendar_file(name@),
{
    let n = name.unicode_len();
    if n < 14 {
        return false;
    }
    let tail = name.substring_char(n - 14, n);
    let t = String::from_str(tail);
    let pat = String::from_str(".calendar.json");
    t == pat
}

/// The cinema identifier a calendar file name carries: the name with the
/// `.calendar.json` suffix cut off.
pub fn cinema_id_from_calendar_file(name: &str) -> (r: Option<String>)
    ensures
        r is Some <==> spec_is_calendar_file(name@),
        r matches Some(id) ==> id@ == name@.subrange(0, name@.len() - 14),
{
    if is_calendar_file(name) {
        let n = name.unicode_len();
        let head = name.substring_char(0, n - 14);
        Some(String::from_str(head))
    } else {
        None
    }
}

/// The file name a cinema's calendar is cached under.
pub fn calendar_file_name(id: &str) -> (r: String)
    ensures
        r@ == id@ + ".calendar.json"@,
{
    let mut r = String::from_str(id);
    r.append(".calendar.json");
    r
}

/// A calendar file name built from an identifier is recognized as one, and
/// gives the identifier back.
pub proof fn lemma_calendar_file_name_round_trip(id: Seq<char>)
    ensures
        spec_is_calendar_file(id + ".calendar.json"@),
        (id + ".calendar.json"@).subrange(0, (id + ".calendar.json"@).len() - 14) == id,
{
    reveal_strlit(".calendar.json");
    let full = id + ".calendar.json"@;
    assert(full.subrange(full.len() - 14, full.len() as int) =~= ".calendar.json"@);
    assert(full.subrange(0, full.len() - 14) =~= id);
}

/// The cache directory under a home directory: its `.alamo/db` subtree.
pub fn base_directory_path(home: &str) -> (r: String)
    ensures
        r@ == home@ + "/.alamo/db"@,
{
    let mut r = String::from_str(home);
    r.append("/.alamo/db");
    r
}

/// Where a cinema's calendar is cached: the calendar file named after the
/// identifier, in the cache directory under `home`.
pub fn calendar_path_for_cinema_id(home: &str, id: &str) -> (r: String)
    ensures
        r@ == home@ + "/.alamo/db"@ + "/"@ + id@ + ".calendar.json"@,
{
    let mut r = base_directory_path(home);
    r.append("/");
    r.append(id);
    r.append(".calendar.json");
    proof {
        assert(r@ =~= home@ + "/.alamo/db"@ + "/"@ + id@ + ".calendar.json"@);
    }
    r
}

/// The cinema identifiers among a directory's file names: one for each
/// calendar file, in the order the names come in.
pub open spec fn spec_cinema_ids(names: Seq<String>) -> Seq<Seq<char>>
    decreases names.len(),
{
    if names.len() == 0 {
        Seq::empty()
    } else {
        let rest = spec_cinema_ids(names.drop_last());
        if spec_is_calendar_file(names.last()@) {
            rest.push(names.last()@.subrange(0, names.last()@.len() - 14))
        } else {
            rest
        }
    }
}

/// Lists the cinema identifiers cached in a directory, given its file
/// names: the names that are calendar files, each with the suffix cut off.
pub fn list_cinema_ids(files: &Vec<String>) -> (r: Vec<String>)
    ensures
        r@.map_values(|s: String| s@) == spec_cinema_ids(files@),
{
    let mut r: Vec<String> = Vec::new();
    let mut i: usize = 0;
    proof {
        assert(files@.subrange(0, 0) =~= Seq::<String>::empty());
        assert(r@.map_values(|s: String| s@) =~= spec_cinema_ids(files@.subrange(0, 0)));
    }
    while i < files.len()
        invariant
            i <= files@.len(),
            r@.map_values(|s: String| s@) == spec_cinema_ids(files@.subrange(0, i as int)),
        decreases files@.len() - i,
    {
        let name = &files[i];
        match cinema_id_from_calendar_file(name.as_str()) {
            Some(id) => {
                r.push(id);
            },
            None => {},
        }
        proof {
            let pre = files@.subrange(0, i as int);
            let cur = files@.subrange(0, i + 1);
            assert(cur.drop_last() =~= pre);
            assert(cur.last() == files@[i as int]);
            assert(r@.map_values(|s: String| s@) =~= spec_cinema_ids(cur));
        }
        i += 1;
    }
    proof {
        assert(files@.subrange(0, files@.len() as int) =~= files@);
    }
    r
}

} // verus!
