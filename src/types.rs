//! The reflected type graph of a compiled shader, as plain values.
use vstd::prelude::*;

use crate::error::Error;

verus! {

/// What the naming logic needs to know of one reflected type.
pub enum TypeKind {
    /// A struct: the type ids of its members in declaration order, and the
    /// array dimensions of this type itself, outermost first.
    Struct { member_types: Vec<u32>, array: Vec<u32> },
    /// A scalar, vector or matrix of numbers or booleans, with its array
    /// dimensions, outermost first.
    Leaf { array: Vec<u32> },
    /// Images, samplers, combined image samplers, atomic counters, void and
    /// unknown types.
    Opaque,
}

/// One entry of the type graph.
pub struct TypeInfo {
    /// The id under which the compiled module refers to this type.
    pub id: u32,
    pub kind: TypeKind,
    /// Debug names of the members, by member index (structs only).
    pub member_names: Vec<String>,
    /// The struct type this one is an array of, through every array level;
    /// its own id where it is no array.
    pub base_type_id: u32,
}

/// The types of a compiled module. Where two entries share an id, the first
/// one counts.
pub struct TypeGraph {
    pub types: Vec<TypeInfo>,
}

/// The first entry of `types` with the given id.
pub open spec fn lookup(types: Seq<TypeInfo>, id: u32) -> Option<TypeInfo>
    decreases types.len(),
{
    if types.len() == 0 {
        None
    } else if types[0].id == id {
        Some(types[0])
    } else {
        lookup(types.drop_first(), id)
    }
}

/// The debug name of member `index` of the struct type `id`, if the graph has one.
pub open spec fn member_name_of(types: Seq<TypeInfo>, id: u32, index: int) -> Option<Seq<char>> {
    match lookup(types, id) {
        Some(t) => if 0 <= index < t.member_names@.len() {
            Some(t.member_names@[index]@)
        } else {
            None
        },
        None => None,
    }
}

impl TypeGraph {
    /// Index of the first entry with the given id.
    pub(crate) fn find(&self, id: u32) -> (r: Option<usize>)
        ensures
            match r {
                Some(i) => i < self.types@.len() && lookup(self.types@, id) == Some(
                    self.types@[i as int],
                ),
                None => lookup(self.types@, id) is None,
            },
    {
        let mut i: usize = 0;
        assert(self.types@.subrange(0, self.types@.len() as int) =~= self.types@);
        while i < self.types.len()
            invariant
                i <= self.types@.len(),
                lookup(self.types@, id) == lookup(self.types@.subrange(i as int, self.types@.len() as int), id),
            decreases self.types@.len() - i,
        {
            let ghost rest = self.types@.subrange(i as int, self.types@.len() as int);
            assert(rest.drop_first() =~= self.types@.subrange(i + 1, self.types@.len() as int));
            if self.types[i].id == id {
                return Some(i);
            }
            i = i + 1;
        }
        None
    }

    /// The entry of type `id`; fails when the graph has none.
    pub fn get_type(&self, id: u32) -> (r: Result<&TypeInfo, Error>)
        ensures
            match r {
                Ok(t) => lookup(self.types@, id) == Some(*t),
                Err(e) => lookup(self.types@, id) is None && (e matches Error::ReflectionQueryFailed(m)
                    && m@ == "unknown type id"@),
            },
    {
        match self.find(id) {
            Some(i) => Ok(&self.types[i]),
            None => Err(Error::ReflectionQueryFailed(String::from_str("unknown type id"))),
        }
    }

    /// The debug name of member `index` of struct type `id`; fails when the
    /// graph has none.
    pub fn get_member_name(&self, id: u32, index: usize) -> (r: Result<String, Error>)
        ensures
            match r {
                Ok(s) => member_name_of(self.types@, id, index as int) == Some(s@),
                Err(e) => member_name_of(self.types@, id, index as int) is None
                    && (e matches Error::ReflectionQueryFailed(m) && m@ == if lookup(self.types@, id) is Some {
                    "no such struct member"@
                } else {
                    "unknown type id"@
                }),
            },
    {
        match self.find(id) {
            Some(i) => {
                if index < self.types[i].member_names.len() {
                    Ok(self.types[i].member_names[index].clone())
                } else {
                    Err(Error::ReflectionQueryFailed(String::from_str("no such struct member")))
                }
            },
            None => Err(Error::ReflectionQueryFailed(String::from_str("unknown type id"))),
        }
    }

    /// The id of the type that type `id` is an array of (its own id where it
    /// is no array); fails when the graph has no type `id`.
    pub fn get_base_type_id(&self, id: u32) -> (r: Result<u32, Error>)
        ensures
            match r {
                Ok(b) => lookup(self.types@, id) matches Some(t) && t.base_type_id == b,
                Err(e) => lookup(self.types@, id) is None && (e matches Error::ReflectionQueryFailed(m)
                    && m@ == "unknown type id"@),
            },
    {
        match self.find(id) {
            Some(i) => Ok(self.types[i].base_type_id),
            None => Err(Error::ReflectionQueryFailed(String::from_str("unknown type id"))),
        }
    }
}

} // verus!
