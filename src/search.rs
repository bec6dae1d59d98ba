//! Where the compiler looks for a source file that a shader pulls in by name.
use vstd::prelude::*;

use crate::flatten::views;

verus! {

/// One line per search path: `` * `<path>` ``, separated by line breaks.
pub open spec fn path_listing(paths: Seq<Seq<char>>) -> Seq<char>
    decreases paths.len(),
{
    if paths.len() == 0 {
        seq![]
    } else if paths.len() == 1 {
        " * `"@ + paths[0] + "`"@
    } else {
        path_listing(paths.drop_last()) + "\n * `"@ + paths.last() + "`"@
    }
}

/// The message for a file `name` found in none of `paths`.
pub open spec fn not_found_message(name: Seq<char>, paths: Seq<Seq<char>>) -> Seq<char> {
    "unable to find shader file `"@ + name + "` in search paths:\n"@ + path_listing(paths)
}

/// The search paths of a list of candidates.
pub open spec fn candidate_paths(candidates: Seq<(String, bool)>) -> Seq<Seq<char>> {
    candidates.map_values(|c: (String, bool)| c.0@)
}

/// Picks the first of `candidates`, each a search path and whether `name`
/// exists under it, where the file exists; where it exists under none, the
/// error lists every search path.
pub fn find_source_file(name: &str, candidates: &Vec<(String, bool)>) -> (r: Result<usize, String>)
    ensures
        match r {
            Ok(i) => i < candidates@.len() && candidates@[i as int].1 && forall|j: int|
                0 <= j < i ==> !(#[trigger] candidates@[j]).1,
            Err(m) => (forall|j: int| 0 <= j < candidates@.len() ==> !(#[trigger] candidates@[j]).1)
                && m@ == not_found_message(name@, candidate_paths(candidates@)),
        },
{
    let mut i: usize = 0;
    while i < candidates.len()
        invariant
            i <= candidates@.len(),
            forall|j: int| 0 <= j < i ==> !(#[trigger] candidates@[j]).1,
        decreases candidates@.len() - i,
    {
        if candidates[i].1 {
            return Ok(i);
        }
        i = i + 1;
    }
    let mut m = String::from_str("unable to find shader file `");
    m.append(name);
    m.append("` in search paths:\n");
    let ghost head = m@;
    let mut k: usize = 0;
    assert(candidate_paths(candidates@).subrange(0, 0) =~= Seq::<Seq<char>>::empty());
    assert(m@ =~= head + path_listing(candidate_paths(candidates@).subrange(0, 0)));
    while k < candidates.len()
        invariant
            k <= candidates@.len(),
            m@ == head + path_listing(candidate_paths(candidates@).subrange(0, k as int)),
        decreases candidates@.len() - k,
    {
        let ghost paths = candidate_paths(candidates@).subrange(0, k + 1);
        assert(paths.drop_last() =~= candidate_paths(candidates@).subrange(0, k as int));
        if k == 0 {
            m.append(" * `");
        } else {
            m.append("\n * `");
        }
        m.append(candidates[k].0.as_str());
        m.append("`");
        assert(m@ =~= head + path_listing(paths));
        k = k + 1;
    }
    assert(candidate_paths(candidates@).subrange(0, k as int) =~= candidate_paths(candidates@));
    Err(m)
}

/// The directories searched for a file pulled in by name: for a relative
/// request whose name has a parent directory, that directory first, then
/// `search_paths` in order; otherwise `search_paths` alone.
pub fn lookup_order(relative: bool, parent: Option<String>, search_paths: &Vec<String>) -> (r: Vec<String>)
    ensures
        views(r@) == match (relative, parent) {
            (true, Some(p)) => seq![p@] + views(search_paths@),
            _ => views(search_paths@),
        },
{
    let mut r: Vec<String> = Vec::new();
    let ghost first: Seq<Seq<char>> = seq![];
    if relative {
        if let Some(p) = parent {
            proof {
                first = seq![p@];
            }
            r.push(p);
        }
    }
    assert(views(r@) =~= first);
    let mut i: usize = 0;
    while i < search_paths.len()
        invariant
            i <= search_paths@.len(),
            views(r@) == first + views(search_paths@).subrange(0, i as int),
        decreases search_paths@.len() - i,
    {
        let s = search_paths[i].clone();
        let ghost before = r@;
        r.push(s);
        assert(r@ == before.push(s));
        assert(views(r@) =~= views(before).push(s@));
        assert(views(r@) =~= first + views(search_paths@).subrange(0, i + 1));
        i = i + 1;
    }
    assert(views(search_paths@).subrange(0, i as int) =~= views(search_paths@));
    r
}

} // verus!
