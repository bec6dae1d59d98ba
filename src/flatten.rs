//! Expansion of array dimensions into indexed names, and the flattening of a
//! struct type into the paths of its leaf members.
use vstd::prelude::*;

use crate::error::Error;
use crate::text::{decimal, decimal_string};
use crate::types::{lookup, member_name_of, TypeGraph, TypeInfo, TypeKind};

verus! {

/// The views of a list of strings.
pub open spec fn views(v: Seq<String>) -> Seq<Seq<char>> {
    v.map_values(|s: String| s@)
}

/// `name[i]`.
pub open spec fn with_index(name: Seq<char>, i: nat) -> Seq<char> {
    name + seq!['['] + decimal(i) + seq![']']
}

/// Each of `names` indexed by each of `0..d`, name by name.
pub open spec fn index_all(names: Seq<Seq<char>>, d: nat) -> Seq<Seq<char>>
    decreases names.len(),
{
    if names.len() == 0 {
        seq![]
    } else {
        index_all(names.drop_last(), d) + Seq::new(d, |i: int| with_index(names.last(), i as nat))
    }
}

/// `base` indexed by every combination of indices below `dims`, the first
/// (outermost) dimension varying slowest; `base` alone when `dims` is empty.
pub open spec fn array_names(base: Seq<char>, dims: Seq<u32>) -> Seq<Seq<char>>
    decreases dims.len(),
{
    if dims.len() == 0 {
        seq![base]
    } else {
        index_all(array_names(base, dims.drop_last()), dims.last() as nat)
    }
}

/// The product of the dimensions.
pub open spec fn product(dims: Seq<u32>) -> nat
    decreases dims.len(),
{
    if dims.len() == 0 {
        1
    } else {
        product(dims.drop_last()) * (dims.last() as nat)
    }
}

/// `prefix.child` for each prefix and each child, prefix by prefix.
pub open spec fn join_paths(prefixes: Seq<Seq<char>>, children: Seq<Seq<char>>) -> Seq<Seq<char>>
    decreases prefixes.len(),
{
    if prefixes.len() == 0 {
        seq![]
    } else {
        join_paths(prefixes.drop_last(), children) + children.map_values(
            |c: Seq<char>| prefixes.last() + seq!['.'] + c,
        )
    }
}

proof fn lemma_views_push(v: Seq<String>, s: String)
    ensures
        views(v.push(s)) == views(v).push(s@),
{
    assert(views(v.push(s)) =~= views(v).push(s@));
}

proof fn lemma_views_concat(a: Seq<String>, b: Seq<String>)
    ensures
        views(a + b) == views(a) + views(b),
{
    assert(views(a + b) =~= views(a) + views(b));
}

fn index_name(name: &String, i: u32) -> (r: String)
    ensures
        r@ == with_index(name@, i as nat),
{
    proof {
        reveal_strlit("[");
        reveal_strlit("]");
    }
    let mut s = name.clone();
    s.append("[");
    let digits = decimal_string(i);
    s.append(digits.as_str());
    s.append("]");
    s
}

fn join_name(prefix: &String, child: &String) -> (r: String)
    ensures
        r@ == prefix@ + seq!['.'] + child@,
{
    proof {
        reveal_strlit(".");
    }
    let mut s = prefix.clone();
    s.append(".");
    s.append(child.as_str());
    s
}

/// Every name of `base_name` indexed by all combinations of indices below
/// `array_dims` (outermost first); `base_name` alone when there are no
/// dimensions, and nothing when a dimension is zero.
pub fn array_member_names(base_name: &str, array_dims: &[u32]) -> (r: Vec<String>)
    ensures
        views(r@) == array_names(base_name@, array_dims@),
{
    let mut names: Vec<String> = Vec::new();
    let first = String::from_str(base_name);
    names.push(first);
    proof {
        assert(array_dims@.subrange(0, 0) =~= Seq::<u32>::empty());
        assert(views(names@) =~= seq![base_name@]);
    }
    let mut rank: usize = 0;
    while rank < array_dims.len()
        invariant
            rank <= array_dims@.len(),
            views(names@) == array_names(base_name@, array_dims@.subrange(0, rank as int)),
        decreases array_dims@.len() - rank,
    {
        let dim = array_dims[rank];
        let mut next: Vec<String> = Vec::new();
        let mut j: usize = 0;
        assert(views(next@) =~= index_all(views(names@).subrange(0, 0), dim as nat));
        while j < names.len()
            invariant
                j <= names@.len(),
                views(next@) == index_all(views(names@).subrange(0, j as int), dim as nat),
            decreases names@.len() - j,
        {
            let ghost before = views(next@);
            let mut k: u32 = 0;
            while k < dim
                invariant
                    k <= dim,
                    j < names@.len(),
                    views(next@) == before + Seq::new(
                        k as nat,
                        |i: int| with_index(names@[j as int]@, i as nat),
                    ),
                decreases dim - k,
            {
                let s = index_name(&names[j], k);
                proof {
                    lemma_views_push(next@, s);
                }
                next.push(s);
                assert(views(next@) =~= before + Seq::new(
                    (k + 1) as nat,
                    |i: int| with_index(names@[j as int]@, i as nat),
                ));
                k = k + 1;
            }
            assert(views(names@).subrange(0, j + 1).drop_last() =~= views(names@).subrange(0, j as int));
            j = j + 1;
        }
        assert(views(names@).subrange(0, j as int) =~= views(names@));
        assert(array_dims@.subrange(0, rank + 1).drop_last() =~= array_dims@.subrange(0, rank as int));
        names = next;
        rank = rank + 1;
    }
    assert(array_dims@.subrange(0, rank as int) =~= array_dims@);
    names
}

/// How deep structs may nest inside a uniform buffer before the type graph
/// is taken to be malformed.
pub const MAX_NESTING_DEPTH: u32 = 64;

/// Why flattening fails, as the contracts speak of it.
pub enum Failure {
    /// The type graph could not answer a query, or nests deeper than
    /// allowed; carries the message.
    Query(Seq<char>),
    /// A member of the given debug name has an opaque type.
    Unsupported(Seq<char>),
    /// The combined-sampler list and the separate-texture list have these
    /// lengths, which differ.
    Mismatch(nat, nat),
}

/// The leaf paths of struct type `id`, allowing `depth` levels of struct
/// nesting; a struct member contributes its own paths joined to those of its
/// base struct, a numeric member its array names, and an opaque member fails.
pub open spec fn struct_paths(types: Seq<TypeInfo>, id: u32, depth: nat) -> Result<Seq<Seq<char>>, Failure>
    decreases depth, 2int, 0int,
{
    if depth == 0 {
        Err(Failure::Query("struct types nest too deep"@))
    } else {
        match lookup(types, id) {
            Some(t) => match t.kind {
                TypeKind::Struct { member_types, .. } => member_paths(types, id, member_types@, member_types@.len(), depth),
                _ => Err(Failure::Query("uniform buffer type is not a struct"@)),
            },
            None => Err(Failure::Query("unknown type id"@)),
        }
    }
}

/// The paths of the first `k` members of struct type `id`, whose member types
/// are `members`, in declaration order; the first failing member decides.
pub open spec fn member_paths(
    types: Seq<TypeInfo>,
    id: u32,
    members: Seq<u32>,
    k: nat,
    depth: nat,
) -> Result<Seq<Seq<char>>, Failure>
    decreases depth, 1int, k,
{
    if k == 0 {
        Ok(seq![])
    } else {
        match member_paths(types, id, members, (k - 1) as nat, depth) {
            Err(f) => Err(f),
            Ok(p) => match one_member(types, id, members, (k - 1) as nat, depth) {
                Err(f) => Err(f),
                Ok(q) => Ok(p + q),
            },
        }
    }
}

/// The paths of member `i` of struct type `id`.
pub open spec fn one_member(types: Seq<TypeInfo>, id: u32, members: Seq<u32>, i: nat, depth: nat) -> Result<
    Seq<Seq<char>>,
    Failure,
>
    decreases depth, 0int, 0int,
{
    if depth == 0 || i >= members.len() {
        Err(Failure::Query("struct types nest too deep"@))
    } else {
        match member_name_of(types, id, i as int) {
            None => Err(Failure::Query("no such struct member"@)),
            Some(name) => match lookup(types, members[i as int]) {
                None => Err(Failure::Query("unknown type id"@)),
                Some(mt) => match mt.kind {
                    TypeKind::Struct { array, .. } => match struct_paths(
                        types,
                        mt.base_type_id,
                        (depth - 1) as nat,
                    ) {
                        Err(f) => Err(f),
                        Ok(children) => Ok(join_paths(array_names(name, array@), children)),
                    },
                    TypeKind::Leaf { array } => Ok(array_names(name, array@)),
                    TypeKind::Opaque => Err(Failure::Unsupported(name)),
                },
            },
        }
    }
}

/// `e` is the error that stands for `f`.
pub open spec fn reports(e: Error, f: Failure) -> bool {
    match f {
        Failure::Query(msg) => e matches Error::ReflectionQueryFailed(m) && m@ == msg,
        Failure::Unsupported(name) => e matches Error::UnsupportedMemberType(s) && s@ == name,
        Failure::Mismatch(a, b) => e matches Error::ResourceListMismatch {
            sampled_images,
            separate_images,
        } && sampled_images == a && separate_images == b,
    }
}

/// An executable result agrees with the specified one.
pub open spec fn agrees(r: Result<Vec<String>, Error>, s: Result<Seq<Seq<char>>, Failure>) -> bool {
    match r {
        Ok(v) => s matches Ok(p) && views(v@) == p,
        Err(e) => s matches Err(f) && reports(e, f),
    }
}

proof fn lemma_failure_persists(
    types: Seq<TypeInfo>,
    id: u32,
    members: Seq<u32>,
    k: nat,
    n: nat,
    depth: nat,
)
    requires
        k <= n,
        member_paths(types, id, members, k, depth) is Err,
    ensures
        member_paths(types, id, members, n, depth) == member_paths(types, id, members, k, depth),
    decreases n - k,
{
    if k < n {
        lemma_failure_persists(types, id, members, k, (n - 1) as nat, depth);
    }
}

proof fn lemma_member_step(types: Seq<TypeInfo>, id: u32, members: Seq<u32>, i: nat, depth: nat)
    requires
        member_paths(types, id, members, i, depth) is Ok,
    ensures
        member_paths(types, id, members, i + 1, depth) == match one_member(types, id, members, i, depth) {
            Err(f) => Err(f),
            Ok(q) => Ok(member_paths(types, id, members, i, depth)->Ok_0 + q),
        },
{
    assert(((i + 1) as nat - 1) as nat == i);
}

/// Appends `prefix.child` for each of `prefixes` and each of `children`.
fn push_joined(names: &mut Vec<String>, prefixes: &Vec<String>, children: &Vec<String>)
    ensures
        views(final(names)@) == views(old(names)@) + join_paths(views(prefixes@), views(children@)),
{
    let ghost start = views(names@);
    let mut j: usize = 0;
    assert(views(prefixes@).subrange(0, 0) =~= Seq::<Seq<char>>::empty());
    assert(views(names@) =~= start + join_paths(views(prefixes@).subrange(0, 0), views(children@)));
    while j < prefixes.len()
        invariant
            j <= prefixes@.len(),
            views(names@) == start + join_paths(views(prefixes@).subrange(0, j as int), views(children@)),
        decreases prefixes@.len() - j,
    {
        let ghost before = views(names@);
        let mut k: usize = 0;
        while k < children.len()
            invariant
                k <= children@.len(),
                j < prefixes@.len(),
                views(names@) == before + views(children@).subrange(0, k as int).map_values(
                    |c: Seq<char>| prefixes@[j as int]@ + seq!['.'] + c,
                ),
            decreases children@.len() - k,
        {
            let s = join_name(&prefixes[j], &children[k]);
            proof {
                lemma_views_push(names@, s);
            }
            names.push(s);
            assert(views(names@) =~= before + views(children@).subrange(0, k + 1).map_values(
                |c: Seq<char>| prefixes@[j as int]@ + seq!['.'] + c,
            ));
            k = k + 1;
        }
        assert(views(children@).subrange(0, k as int) =~= views(children@));
        assert(views(prefixes@).subrange(0, j + 1).drop_last() =~= views(prefixes@).subrange(0, j as int));
        j = j + 1;
    }
    assert(views(prefixes@).subrange(0, j as int) =~= views(prefixes@));
}

fn names_deep(graph: &TypeGraph, struct_type_id: u32, depth: u32) -> (r: Result<Vec<String>, Error>)
    ensures
        agrees(r, struct_paths(graph.types@, struct_type_id, depth as nat)),
    decreases depth,
{
    if depth == 0 {
        return Err(Error::ReflectionQueryFailed(String::from_str("struct types nest too deep")));
    }
    let t = match graph.get_type(struct_type_id) {
        Ok(t) => t,
        Err(e) => return Err(e),
    };
    let member_types = match &t.kind {
        TypeKind::Struct { member_types, .. } => member_types,
        _ => return Err(Error::ReflectionQueryFailed(String::from_str("uniform buffer type is not a struct"))),
    };
    let ghost members = member_types@;
    let ghost n = members.len();
    let mut names: Vec<String> = Vec::new();
    let mut i: usize = 0;
    assert(views(names@) =~= Seq::<Seq<char>>::empty());
    while i < member_types.len()
        invariant
            i <= n,
            n == member_types@.len(),
            members == member_types@,
            depth > 0,
            lookup(graph.types@, struct_type_id) == Some(*t),
            t.kind matches TypeKind::Struct { member_types: m, .. } && m@ == members,
            member_paths(graph.types@, struct_type_id, members, i as nat, depth as nat) == Ok::<Seq<Seq<char>>, Failure>(views(names@)),
        decreases n - i,
    {
        let member_type = member_types[i];
        let ghost prev = views(names@);
        let base_name = match graph.get_member_name(struct_type_id, i) {
            Ok(s) => s,
            Err(e) => {
                proof {
                    lemma_member_step(graph.types@, struct_type_id, members, i as nat, depth as nat);
                    lemma_failure_persists(graph.types@, struct_type_id, members, (i + 1) as nat, n, depth as nat);
                }
                return Err(e);
            },
        };
        let mt = match graph.get_type(member_type) {
            Ok(mt) => mt,
            Err(e) => {
                proof {
                    lemma_member_step(graph.types@, struct_type_id, members, i as nat, depth as nat);
                    lemma_failure_persists(graph.types@, struct_type_id, members, (i + 1) as nat, n, depth as nat);
                }
                return Err(e);
            },
        };
        match &mt.kind {
            TypeKind::Struct { array, .. } => {
                let element_names = array_member_names(base_name.as_str(), array.as_slice());
                let member_base_type = match graph.get_base_type_id(member_type) {
                    Ok(b) => b,
                    Err(e) => {
                        proof {
                            lemma_member_step(graph.types@, struct_type_id, members, i as nat, depth as nat);
                            lemma_failure_persists(graph.types@, struct_type_id, members, (i + 1) as nat, n, depth as nat);
                        }
                        return Err(e);
                    },
                };
                let child_names = match names_deep(graph, member_base_type, depth - 1) {
                    Ok(c) => c,
                    Err(e) => {
                        proof {
                            lemma_failure_persists(graph.types@, struct_type_id, members, (i + 1) as nat, n, depth as nat);
                        }
                        return Err(e);
                    },
                };
                push_joined(&mut names, &element_names, &child_names);
                proof {
                    lemma_member_step(graph.types@, struct_type_id, members, i as nat, depth as nat);
                }
            },
            TypeKind::Leaf { array } => {
                let mut element_names = array_member_names(base_name.as_str(), array.as_slice());
                proof {
                    lemma_views_concat(names@, element_names@);
                }
                names.append(&mut element_names);
                proof {
                    lemma_member_step(graph.types@, struct_type_id, members, i as nat, depth as nat);
                }
            },
            TypeKind::Opaque => {
                proof {
                    lemma_member_step(graph.types@, struct_type_id, members, i as nat, depth as nat);
                    lemma_failure_persists(graph.types@, struct_type_id, members, (i + 1) as nat, n, depth as nat);
                }
                return Err(Error::UnsupportedMemberType(base_name));
            },
        }
        i = i + 1;
    }
    Ok(names)
}

/// The source-level paths of every leaf member of struct type
/// `struct_type_id`, in declaration order; fails with the error of the first
/// member that cannot be named.
pub fn get_member_names_deep(graph: &TypeGraph, struct_type_id: u32) -> (r: Result<Vec<String>, Error>)
    ensures
        agrees(r, struct_paths(graph.types@, struct_type_id, MAX_NESTING_DEPTH as nat)),
{
    names_deep(graph, struct_type_id, MAX_NESTING_DEPTH)
}

proof fn lemma_index_all_len(names: Seq<Seq<char>>, d: nat)
    ensures
        index_all(names, d).len() == names.len() * d,
    decreases names.len(),
{
    if names.len() > 0 {
        lemma_index_all_len(names.drop_last(), d);
        let n = names.len() as int;
        assert((n - 1) * d + d == n * d) by (nonlinear_arith);
    }
}

/// Expanding a name over array dimensions gives as many names as the
/// product of the dimensions.
pub proof fn lemma_array_names_len(base: Seq<char>, dims: Seq<u32>)
    ensures
        array_names(base, dims).len() == product(dims),
    decreases dims.len(),
{
    if dims.len() > 0 {
        lemma_array_names_len(base, dims.drop_last());
        lemma_index_all_len(array_names(base, dims.drop_last()), dims.last() as nat);
    }
}

/// Joining prefixes to children gives one path per prefix and child.
pub proof fn lemma_join_paths_len(prefixes: Seq<Seq<char>>, children: Seq<Seq<char>>)
    ensures
        join_paths(prefixes, children).len() == prefixes.len() * children.len(),
    decreases prefixes.len(),
{
    if prefixes.len() > 0 {
        lemma_join_paths_len(prefixes.drop_last(), children);
        let n = prefixes.len() as int;
        let m = children.len() as int;
        assert((n - 1) * m + m == n * m) by (nonlinear_arith);
    }
}

/// A member that is an array of structs, with dimensions `dims`, whose
/// element struct flattens to `M` leaf paths, yields exactly `M` times the
/// product of `dims` paths.
pub proof fn lemma_struct_array_member_count(
    types: Seq<TypeInfo>,
    id: u32,
    members: Seq<u32>,
    i: nat,
    depth: nat,
)
    requires
        i < members.len(),
        depth > 0,
        member_name_of(types, id, i as int) is Some,
        lookup(types, members[i as int]) matches Some(mt) && mt.kind is Struct && struct_paths(
            types,
            mt.base_type_id,
            (depth - 1) as nat,
        ) is Ok,
    ensures
        ({
            let mt = lookup(types, members[i as int])->Some_0;
            let children = struct_paths(types, mt.base_type_id, (depth - 1) as nat)->Ok_0;
            &&& one_member(types, id, members, i, depth) is Ok
            &&& one_member(types, id, members, i, depth)->Ok_0.len() == children.len() * product(
                mt.kind->Struct_array@,
            )
        }),
{
    let name = member_name_of(types, id, i as int)->Some_0;
    let mt = lookup(types, members[i as int])->Some_0;
    let dims = mt.kind->Struct_array@;
    let children = struct_paths(types, mt.base_type_id, (depth - 1) as nat)->Ok_0;
    lemma_array_names_len(name, dims);
    lemma_join_paths_len(array_names(name, dims), children);
    assert(product(dims) * children.len() == children.len() * product(dims)) by (nonlinear_arith);
}

/// A uniform-buffer struct whose member `k` has an opaque type (a texture, a
/// sampler) fails to flatten with `Unsupported` and that member's debug name,
/// once the members before it flatten; it is never silently dropped.
pub proof fn lemma_opaque_member_fails(types: Seq<TypeInfo>, id: u32, depth: nat, k: nat)
    requires
        depth > 0,
        lookup(types, id) matches Some(t) && t.kind matches TypeKind::Struct { member_types, .. }
            && k < member_types@.len() && member_paths(types, id, member_types@, k, depth) is Ok
            && (lookup(types, member_types@[k as int]) matches Some(mt) && mt.kind is Opaque),
        member_name_of(types, id, k as int) is Some,
    ensures
        struct_paths(types, id, depth) == Err::<Seq<Seq<char>>, Failure>(
            Failure::Unsupported(member_name_of(types, id, k as int)->Some_0),
        ),
{
    let members = lookup(types, id)->Some_0.kind->Struct_member_types@;
    lemma_member_step(types, id, members, k, depth);
    lemma_failure_persists(types, id, members, k + 1, members.len(), depth);
}

} // verus!
