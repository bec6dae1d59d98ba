//! The name-mapping table of a compiled shader: compiled identifiers of
//! uniform-buffer members and texture bindings, mapped to source-level names.
use vstd::prelude::*;

use crate::error::Error;
use crate::flatten::{get_member_names_deep, reports, struct_paths, views, Failure, MAX_NESTING_DEPTH};
use crate::text::{decimal, decimal_string, is_digit, lemma_decimal, lemma_decimal_injective};
use crate::types::{TypeGraph, TypeInfo};

verus! {

/// A uniform buffer of the compiled module.
pub struct ReflectedBuffer {
    /// The id the compiler gave the buffer; unique within the module.
    pub id: u32,
    /// The id of the buffer's struct type.
    pub base_type_id: u32,
}

/// A texture or combined image sampler of the compiled module.
pub struct ReflectedImage {
    /// The id the compiler gave the resource.
    pub id: u32,
    /// The resource's debug name.
    pub name: String,
}

/// The resources of a compiled module that carry names.
pub struct ShaderResources {
    pub uniform_buffers: Vec<ReflectedBuffer>,
    /// The combined image samplers of the target output, which carry the final ids.
    pub sampled_images: Vec<ReflectedImage>,
    /// The separate textures of the source, which carry the names; the i-th
    /// one is the texture of the i-th combined image sampler.
    pub separate_images: Vec<ReflectedImage>,
}

/// The views of a list of (key, value) entries.
pub open spec fn entry_views(v: Seq<(String, String)>) -> Seq<(Seq<char>, Seq<char>)> {
    v.map_values(|e: (String, String)| (e.0@, e.1@))
}

/// `_<id>.<path>`: the compiled name of a buffer member.
pub open spec fn buffer_key(id: u32, path: Seq<char>) -> Seq<char> {
    seq!['_'] + decimal(id as nat) + seq!['.'] + path
}

/// `_<id>`: the compiled name of a combined image sampler.
pub open spec fn image_key(id: u32) -> Seq<char> {
    seq!['_'] + decimal(id as nat)
}

/// The entries of one buffer whose member paths are `paths`.
pub open spec fn buffer_entries(id: u32, paths: Seq<Seq<char>>) -> Seq<(Seq<char>, Seq<char>)> {
    paths.map_values(|p: Seq<char>| (buffer_key(id, p), p))
}

/// The entries of the buffers, buffer by buffer; the first buffer that cannot
/// be flattened decides the failure.
pub open spec fn buffers_mapping(types: Seq<TypeInfo>, buffers: Seq<ReflectedBuffer>) -> Result<
    Seq<(Seq<char>, Seq<char>)>,
    Failure,
>
    decreases buffers.len(),
{
    if buffers.len() == 0 {
        Ok(seq![])
    } else {
        match buffers_mapping(types, buffers.drop_last()) {
            Err(f) => Err(f),
            Ok(p) => match struct_paths(types, buffers.last().base_type_id, MAX_NESTING_DEPTH as nat) {
                Err(f) => Err(f),
                Ok(q) => Ok(p + buffer_entries(buffers.last().id, q)),
            },
        }
    }
}

/// The entries of the combined image samplers: each one's compiled name,
/// mapped to the name of the separate texture at the same position.
pub open spec fn image_entries(sampled: Seq<ReflectedImage>, separate: Seq<ReflectedImage>) -> Seq<
    (Seq<char>, Seq<char>),
> {
    Seq::new(sampled.len(), |i: int| (image_key(sampled[i].id), separate[i].name@))
}

/// The whole table: the buffers' entries, then the images' entries; fails
/// where a buffer cannot be flattened, or else where the two image lists
/// differ in length.
pub open spec fn uniform_mapping(
    types: Seq<TypeInfo>,
    buffers: Seq<ReflectedBuffer>,
    sampled: Seq<ReflectedImage>,
    separate: Seq<ReflectedImage>,
) -> Result<Seq<(Seq<char>, Seq<char>)>, Failure> {
    match buffers_mapping(types, buffers) {
        Err(f) => Err(f),
        Ok(p) => if sampled.len() != separate.len() {
            Err(Failure::Mismatch(sampled.len(), separate.len()))
        } else {
            Ok(p + image_entries(sampled, separate))
        },
    }
}

/// An executable table agrees with the specified one.
pub open spec fn table_agrees(
    r: Result<Vec<(String, String)>, Error>,
    s: Result<Seq<(Seq<char>, Seq<char>)>, Failure>,
) -> bool {
    match r {
        Ok(v) => s matches Ok(p) && entry_views(v@) == p,
        Err(e) => s matches Err(f) && reports(e, f),
    }
}

/// The table built from `graph` and `resources`, as specified.
pub open spec fn mapping_of(graph: &TypeGraph, resources: &ShaderResources) -> Result<
    Seq<(Seq<char>, Seq<char>)>,
    Failure,
> {
    uniform_mapping(
        graph.types@,
        resources.uniform_buffers@,
        resources.sampled_images@,
        resources.separate_images@,
    )
}

proof fn lemma_entries_push(v: Seq<(String, String)>, e: (String, String))
    ensures
        entry_views(v.push(e)) == entry_views(v).push((e.0@, e.1@)),
{
    assert(entry_views(v.push(e)) =~= entry_views(v).push((e.0@, e.1@)));
}

fn buffer_key_string(id: u32, path: &String) -> (r: String)
    ensures
        r@ == buffer_key(id, path@),
{
    proof {
        reveal_strlit("_");
        reveal_strlit(".");
    }
    let mut s = String::from_str("_");
    let digits = decimal_string(id);
    s.append(digits.as_str());
    s.append(".");
    s.append(path.as_str());
    s
}

fn image_key_string(id: u32) -> (r: String)
    ensures
        r@ == image_key(id),
{
    proof {
        reveal_strlit("_");
    }
    let mut s = String::from_str("_");
    let digits = decimal_string(id);
    s.append(digits.as_str());
    s
}

/// Maps the compiled name `_<buffer id>.<path>` of every leaf member of every
/// uniform buffer to its source-level path, then the compiled name
/// `_<sampler id>` of every combined image sampler to the name of the
/// separate texture at the same position. Fails with the first buffer's
/// flattening error, or else with `ResourceListMismatch` when the two image
/// lists differ in length.
pub fn find_uniform_mappings(graph: &TypeGraph, resources: &ShaderResources) -> (r: Result<
    Vec<(String, String)>,
    Error,
>)
    ensures
        table_agrees(r, mapping_of(graph, resources)),
{
    let buffers = &resources.uniform_buffers;
    let mut mappings: Vec<(String, String)> = Vec::new();
    let mut b: usize = 0;
    assert(buffers@.subrange(0, 0) =~= Seq::<ReflectedBuffer>::empty());
    assert(entry_views(mappings@) =~= Seq::<(Seq<char>, Seq<char>)>::empty());
    while b < buffers.len()
        invariant
            buffers@ == resources.uniform_buffers@,
            b <= buffers@.len(),
            buffers_mapping(graph.types@, buffers@.subrange(0, b as int)) == Ok::<
                Seq<(Seq<char>, Seq<char>)>,
                Failure,
            >(entry_views(mappings@)),
        decreases buffers@.len() - b,
    {
        let buffer = &buffers[b];
        let ghost upto = buffers@.subrange(0, b + 1);
        assert(upto.drop_last() =~= buffers@.subrange(0, b as int));
        let member_names = match get_member_names_deep(graph, buffer.base_type_id) {
            Ok(m) => m,
            Err(e) => {
                proof {
                    assert(upto.last() == buffers@[b as int]);
                    let f = struct_paths(graph.types@, buffer.base_type_id, MAX_NESTING_DEPTH as nat)->Err_0;
                    assert(buffers_mapping(graph.types@, upto) == Err::<Seq<(Seq<char>, Seq<char>)>, Failure>(f));
                    lemma_failure_persists(graph.types@, buffers@, (b + 1) as nat);
                }
                return Err(e);
            },
        };
        let ghost before = entry_views(mappings@);
        let mut k: usize = 0;
        while k < member_names.len()
            invariant
                k <= member_names@.len(),
                entry_views(mappings@) == before + buffer_entries(
                    buffer.id,
                    views(member_names@).subrange(0, k as int),
                ),
            decreases member_names@.len() - k,
        {
            let member_name = &member_names[k];
            let flat_name = buffer_key_string(buffer.id, member_name);
            let entry = (flat_name, member_name.clone());
            proof {
                lemma_entries_push(mappings@, entry);
            }
            mappings.push(entry);
            assert(entry_views(mappings@) =~= before + buffer_entries(
                buffer.id,
                views(member_names@).subrange(0, k + 1),
            ));
            k = k + 1;
        }
        assert(views(member_names@).subrange(0, k as int) =~= views(member_names@));
        assert(upto.last() == buffers@[b as int]);
        b = b + 1;
    }
    assert(buffers@.subrange(0, b as int) =~= buffers@);
    let sampled = &resources.sampled_images;
    let separate = &resources.separate_images;
    if sampled.len() != separate.len() {
        return Err(
            Error::ResourceListMismatch {
                sampled_images: sampled.len(),
                separate_images: separate.len(),
            },
        );
    }
    let ghost before = entry_views(mappings@);
    let mut i: usize = 0;
    assert(before =~= before + image_entries(sampled@.subrange(0, 0), separate@));
    while i < sampled.len()
        invariant
            sampled@ == resources.sampled_images@,
            separate@ == resources.separate_images@,
            i <= sampled@.len(),
            sampled@.len() == separate@.len(),
            entry_views(mappings@) == before + image_entries(sampled@.subrange(0, i as int), separate@),
        decreases sampled@.len() - i,
    {
        let compiled_name = image_key_string(sampled[i].id);
        let entry = (compiled_name, separate[i].name.clone());
        proof {
            lemma_entries_push(mappings@, entry);
        }
        mappings.push(entry);
        assert(entry_views(mappings@) =~= before + image_entries(sampled@.subrange(0, i + 1), separate@));
        i = i + 1;
    }
    assert(sampled@.subrange(0, i as int) =~= sampled@);
    Ok(mappings)
}

proof fn lemma_failure_persists(types: Seq<TypeInfo>, buffers: Seq<ReflectedBuffer>, k: nat)
    requires
        k <= buffers.len(),
        buffers_mapping(types, buffers.subrange(0, k as int)) is Err,
    ensures
        buffers_mapping(types, buffers) == buffers_mapping(types, buffers.subrange(0, k as int)),
    decreases buffers.len() - k,
{
    if k < buffers.len() {
        let next = buffers.subrange(0, (k + 1) as int);
        assert(next.drop_last() =~= buffers.subrange(0, k as int));
        lemma_failure_persists(types, buffers, k + 1);
    } else {
        assert(buffers.subrange(0, k as int) =~= buffers);
    }
}

/// Building the table twice from the same type graph and resources gives
/// the same outcome: either both builds fail, with errors of the same kind,
/// or both succeed with the same entries.
pub proof fn lemma_mapping_deterministic(
    graph: &TypeGraph,
    resources: &ShaderResources,
    r1: Result<Vec<(String, String)>, Error>,
    r2: Result<Vec<(String, String)>, Error>,
)
    requires
        table_agrees(r1, mapping_of(graph, resources)),
        table_agrees(r2, mapping_of(graph, resources)),
    ensures
        r1 is Ok <==> r2 is Ok,
        r1 is Ok ==> entry_views(r1->Ok_0@) == entry_views(r2->Ok_0@),
        r1 is Err ==> (mapping_of(graph, resources) matches Err(f) && reports(r1->Err_0, f)
            && reports(r2->Err_0, f)),
{
}

/// Where the combined-sampler list and the separate-texture list differ in
/// length and the buffers flatten, the table fails with `Mismatch` and both
/// lengths; no entry is read past the end of either list.
pub proof fn lemma_unequal_image_lists_fail(
    types: Seq<TypeInfo>,
    buffers: Seq<ReflectedBuffer>,
    sampled: Seq<ReflectedImage>,
    separate: Seq<ReflectedImage>,
)
    requires
        buffers_mapping(types, buffers) is Ok,
        sampled.len() != separate.len(),
    ensures
        uniform_mapping(types, buffers, sampled, separate) == Err::<Seq<(Seq<char>, Seq<char>)>, Failure>(
            Failure::Mismatch(sampled.len(), separate.len()),
        ),
{
}

/// Compiled names never collide across buffers and textures: two buffer
/// member keys are equal only for the same buffer id and path, two texture
/// keys only for the same id, and no texture key is a buffer member key.
pub proof fn lemma_keys_distinct(a: u32, b: u32, p: Seq<char>, q: Seq<char>)
    ensures
        buffer_key(a, p) == buffer_key(b, q) <==> (a == b && p == q),
        image_key(a) == image_key(b) <==> a == b,
        image_key(a) != buffer_key(b, q),
{
    lemma_decimal(a as nat);
    lemma_decimal(b as nat);
    let da = decimal(a as nat);
    let la = da.len() as int;
    let db = decimal(b as nat);
    let lb = db.len() as int;
    let ka = buffer_key(a, p);
    let kb = buffer_key(b, q);
    assert(ka[la + 1] == '.');
    assert(kb[lb + 1] == '.');
    if ka == kb {
        if la < lb {
            assert(is_digit(db[la]));
            assert(kb[la + 1] == db[la]);
        } else if lb < la {
            assert(is_digit(da[lb]));
            assert(ka[lb + 1] == da[lb]);
        }
        assert(da =~= ka.subrange(1, la + 1));
        assert(db =~= kb.subrange(1, lb + 1));
        lemma_decimal_injective(a as nat, b as nat);
        assert(p =~= ka.subrange(la + 2, ka.len() as int));
        assert(q =~= kb.subrange(lb + 2, kb.len() as int));
    }
    if image_key(a) == image_key(b) {
        assert(da =~= image_key(a).drop_first());
        assert(db =~= image_key(b).drop_first());
        lemma_decimal_injective(a as nat, b as nat);
    }
    if image_key(a) == kb {
        if la <= lb {
            assert(image_key(a).len() < kb.len());
        } else {
            assert(is_digit(da[lb]));
            assert(image_key(a)[lb + 1] == da[lb]);
        }
    }
}

/// A uniform-buffer member typed as a texture or sampler fails the whole
/// table with `Unsupported` and the member's name: where the buffers before
/// buffer `k` map and buffer `k`'s struct fails so, no table is built.
pub proof fn lemma_unsupported_member_fails_table(
    types: Seq<TypeInfo>,
    buffers: Seq<ReflectedBuffer>,
    sampled: Seq<ReflectedImage>,
    separate: Seq<ReflectedImage>,
    k: nat,
    name: Seq<char>,
)
    requires
        k < buffers.len(),
        buffers_mapping(types, buffers.subrange(0, k as int)) is Ok,
        struct_paths(types, buffers[k as int].base_type_id, MAX_NESTING_DEPTH as nat) == Err::<
            Seq<Seq<char>>,
            Failure,
        >(Failure::Unsupported(name)),
    ensures
        uniform_mapping(types, buffers, sampled, separate) == Err::<Seq<(Seq<char>, Seq<char>)>, Failure>(
            Failure::Unsupported(name),
        ),
{
    let upto = buffers.subrange(0, (k + 1) as int);
    assert(upto.drop_last() =~= buffers.subrange(0, k as int));
    assert(upto.last() == buffers[k as int]);
    assert(buffers_mapping(types, upto) == Err::<Seq<(Seq<char>, Seq<char>)>, Failure>(
        Failure::Unsupported(name),
    ));
    lemma_failure_persists(types, buffers, k + 1);
}

} // verus!
