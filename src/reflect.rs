//! The type graph of a SPIR-V module, built from what SPIRV-Cross reports of
//! each declared type.
use vstd::prelude::*;

use spirv_cross::ErrorCode;

use crate::binary::{array_element, find_array_element, native_order, to_native_order};
use crate::error::{cross_compile_message, Error};
use crate::flatten::MAX_NESTING_DEPTH;
use crate::types::{TypeGraph, TypeInfo, TypeKind};

verus! {

#[verifier::external_type_specification]
pub struct ExErrorCode(ErrorCode);

/// The message an `ErrorCode` carries, if any.
pub open spec fn code_detail(err: ErrorCode) -> Option<Seq<char>> {
    match err {
        ErrorCode::Unhandled => None,
        ErrorCode::CompilationError(m) => Some(m@),
    }
}

/// The message of a failed reflection query.
pub open spec fn query_message(err: ErrorCode) -> Seq<char> {
    match err {
        ErrorCode::Unhandled => "unhandled"@,
        ErrorCode::CompilationError(m) => m@,
    }
}

impl Error {
    /// The error for a failure of the cross-compiler.
    pub fn from_error_code(err: ErrorCode) -> (r: Error)
        ensures
            r matches Error::ParseFailed(m) && m@ == cross_compile_message(code_detail(err)),
    {
        match err {
            ErrorCode::Unhandled => Error::parse_failed(None),
            ErrorCode::CompilationError(m) => Error::parse_failed(Some(m)),
        }
    }

    /// The error for a failed reflection query, carrying SPIRV-Cross's message.
    pub fn from_query_error_code(err: ErrorCode) -> (r: Error)
        ensures
            r matches Error::ReflectionQueryFailed(m) && m@ == query_message(err),
    {
        match err {
            ErrorCode::Unhandled => Error::ReflectionQueryFailed(String::from_str("unhandled")),
            ErrorCode::CompilationError(m) => Error::ReflectionQueryFailed(m),
        }
    }
}

/// The kind of a type as SPIRV-Cross reports it, one for each of its kinds.
pub enum BaseKind {
    Unknown,
    Void,
    Boolean,
    Char,
    Int,
    UInt,
    Int64,
    UInt64,
    AtomicCounter,
    Half,
    Float,
    Double,
    Struct,
    Image,
    SampledImage,
    Sampler,
    SByte,
    UByte,
    Short,
    UShort,
    ControlPointArray,
    AccelerationStructure,
    RayQuery,
    Interpolant,
}

/// What SPIRV-Cross reports of one declared type.
pub struct ReflectedType {
    pub id: u32,
    pub kind: BaseKind,
    /// The member type ids (structs only).
    pub member_types: Vec<u32>,
    /// The array dimensions, innermost first, as SPIRV-Cross lists them.
    pub array: Vec<u32>,
    /// The debug names of the members (structs only).
    pub member_names: Vec<String>,
}

/// Numbers and booleans, which name as leaves.
pub open spec fn is_numeric(k: BaseKind) -> bool {
    match k {
        BaseKind::Boolean | BaseKind::Char | BaseKind::Int | BaseKind::UInt | BaseKind::Int64
        | BaseKind::UInt64 | BaseKind::Half | BaseKind::Float | BaseKind::Double | BaseKind::SByte
        | BaseKind::UByte | BaseKind::Short | BaseKind::UShort => true,
        _ => false,
    }
}

/// `k` is the naming kind of the reported type `t`: a struct with its
/// members, a leaf for numbers and booleans, opaque for the rest; array
/// dimensions outermost first.
pub open spec fn classifies(k: TypeKind, t: ReflectedType) -> bool {
    match t.kind {
        BaseKind::Struct => k matches TypeKind::Struct { member_types, array } && member_types@
            == t.member_types@ && array@ == t.array@.reverse(),
        _ => if is_numeric(t.kind) {
            k matches TypeKind::Leaf { array } && array@ == t.array@.reverse()
        } else {
            k is Opaque
        },
    }
}

/// The struct type that `id` is an array of, following at most `depth`
/// array declarations; `id` itself where it is no array.
pub open spec fn base_of(words: Seq<u32>, id: u32, depth: nat) -> u32
    decreases depth,
{
    if depth == 0 {
        id
    } else {
        match array_element(words, id) {
            Some(e) => base_of(words, e, (depth - 1) as nat),
            None => id,
        }
    }
}

/// The graph entry for the reported type `t` of the module `words`.
pub open spec fn entry_of(words: Seq<u32>, t: ReflectedType, e: TypeInfo) -> bool {
    &&& e.id == t.id
    &&& classifies(e.kind, t)
    &&& e.member_names@ == t.member_names@
    &&& e.base_type_id == base_of(native_order(words), t.id, MAX_NESTING_DEPTH as nat)
}

fn reversed(v: &Vec<u32>) -> (r: Vec<u32>)
    ensures
        r@ == v@.reverse(),
{
    let mut r: Vec<u32> = Vec::new();
    let mut i: usize = v.len();
    while i > 0
        invariant
            i <= v@.len(),
            r@ == v@.subrange(i as int, v@.len() as int).reverse(),
        decreases i,
    {
        i = i - 1;
        r.push(v[i]);
        assert(r@ =~= v@.subrange(i as int, v@.len() as int).reverse());
    }
    assert(v@.subrange(0, v@.len() as int) =~= v@);
    r
}

fn copied(v: &Vec<u32>) -> (r: Vec<u32>)
    ensures
        r@ == v@,
{
    let mut r: Vec<u32> = Vec::new();
    let mut i: usize = 0;
    while i < v.len()
        invariant
            i <= v@.len(),
            r@ == v@.subrange(0, i as int),
        decreases v@.len() - i,
    {
        r.push(v[i]);
        assert(r@ =~= v@.subrange(0, i + 1));
        i = i + 1;
    }
    assert(r@ =~= v@);
    r
}

fn copied_names(v: &Vec<String>) -> (r: Vec<String>)
    ensures
        r@ == v@,
{
    let mut r: Vec<String> = Vec::new();
    let mut i: usize = 0;
    while i < v.len()
        invariant
            i <= v@.len(),
            r@ == v@.subrange(0, i as int),
        decreases v@.len() - i,
    {
        r.push(v[i].clone());
        assert(r@ =~= v@.subrange(0, i + 1));
        i = i + 1;
    }
    assert(r@ =~= v@);
    r
}

/// The naming kind of a reported type.
pub fn classify(t: &ReflectedType) -> (r: TypeKind)
    ensures
        classifies(r, *t),
{
    match t.kind {
        BaseKind::Struct => TypeKind::Struct {
            member_types: copied(&t.member_types),
            array: reversed(&t.array),
        },
        BaseKind::Boolean | BaseKind::Char | BaseKind::Int | BaseKind::UInt | BaseKind::Int64
        | BaseKind::UInt64 | BaseKind::Half | BaseKind::Float | BaseKind::Double | BaseKind::SByte
        | BaseKind::UByte | BaseKind::Short | BaseKind::UShort => TypeKind::Leaf {
            array: reversed(&t.array),
        },
        _ => TypeKind::Opaque,
    }
}

/// Follows array declarations from `id` to the type they are arrays of.
fn resolve_base(words: &Vec<u32>, id: u32) -> (r: u32)
    ensures
        r == base_of(words@, id, MAX_NESTING_DEPTH as nat),
{
    let mut cur = id;
    let mut depth: u32 = MAX_NESTING_DEPTH;
    while depth > 0
        invariant
            base_of(words@, id, MAX_NESTING_DEPTH as nat) == base_of(words@, cur, depth as nat),
        decreases depth,
    {
        match find_array_element(words.as_slice(), cur) {
            Some(e) => {
                cur = e;
                depth = depth - 1;
            },
            None => return cur,
        }
    }
    cur
}

/// The type graph of the module `words` (in either byte order), one entry
/// for each reported type, in order: its naming kind, its member names,
/// and the struct it is an array of as the module declares it.
pub fn build_type_graph(words: &[u32], reflected: &Vec<ReflectedType>) -> (g: TypeGraph)
    ensures
        g.types@.len() == reflected@.len(),
        forall|i: int|
            0 <= i < reflected@.len() ==> entry_of(words@, reflected@[i], #[trigger] g.types@[i]),
{
    let native = to_native_order(words);
    let mut types: Vec<TypeInfo> = Vec::new();
    let mut i: usize = 0;
    while i < reflected.len()
        invariant
            native@ == native_order(words@),
            i <= reflected@.len(),
            types@.len() == i,
            forall|j: int| 0 <= j < i ==> entry_of(words@, reflected@[j], #[trigger] types@[j]),
        decreases reflected@.len() - i,
    {
        let t = &reflected[i];
        let entry = TypeInfo {
            id: t.id,
            kind: classify(t),
            member_names: copied_names(&t.member_names),
            base_type_id: resolve_base(&native, t.id),
        };
        types.push(entry);
        i = i + 1;
    }
    TypeGraph { types }
}

} // verus!
