//! The instruction framing of a SPIR-V binary, and the type declarations
//! found in it.
use vstd::prelude::*;

verus! {

/// The first word of every SPIR-V module.
pub const SPIRV_MAGIC: u32 = 0x0723_0203;

/// The first word of a SPIR-V module written in the other byte order.
pub const SPIRV_MAGIC_SWAPPED: u32 = 0x0302_2307;

/// `w` with its four bytes in reverse order.
pub open spec fn swap_word(w: u32) -> u32 {
    ((w & 0xffu32) << 24u32) | ((w & 0xff00u32) << 8u32) | ((w >> 8u32) & 0xff00u32) | (w >> 24u32)
}

/// The words in native byte order: swapped where the first word is the
/// magic number in the other order.
pub open spec fn native_order(words: Seq<u32>) -> Seq<u32> {
    if words.len() > 0 && words[0] == SPIRV_MAGIC_SWAPPED {
        words.map_values(|w: u32| swap_word(w))
    } else {
        words
    }
}

/// The largest id bound a module may declare.
pub const MAX_ID_BOUND: u32 = 0x003f_ffff;

/// The number of words of the instruction that starts with word `w`.
pub open spec fn word_count(w: u32) -> nat {
    (w >> 16u32) as nat
}

/// The opcode of the instruction that starts with word `w`.
pub open spec fn opcode(w: u32) -> nat {
    (w & 0xffffu32) as nat
}

/// The SPIR-V versions that the parser accepts.
pub open spec fn known_version(v: u32) -> bool {
    v == 99 || v == 0x10000 || v == 0x10100 || v == 0x10200 || v == 0x10300 || v == 0x10400
        || v == 0x10500
}

/// From `off` on, the words are a sequence of instructions, each of at least
/// one word and none running past the end.
pub open spec fn framed_from(words: Seq<u32>, off: nat) -> bool
    decreases words.len() - off,
{
    if off >= words.len() {
        true
    } else {
        let n = word_count(words[off as int]);
        n >= 1 && off + n <= words.len() && framed_from(words, off + n)
    }
}

/// `words` is a module in native byte order with a known version, an id
/// bound within the limit and well-framed instructions.
pub open spec fn is_framed_module(words: Seq<u32>) -> bool {
    &&& words.len() >= 5
    &&& words[0] == SPIRV_MAGIC
    &&& known_version(words[1])
    &&& words[3] <= MAX_ID_BOUND
    &&& framed_from(words, 5)
}

/// Opcodes of the declarations that SPIRV-Cross keeps as types: void,
/// bool, int, float, vector, matrix, image, sampler, sampled image, array,
/// runtime array, struct and pointer.
pub open spec fn is_type_opcode(op: nat) -> bool {
    (19 <= op <= 30) || op == 32
}

/// The offset of the first type declaration at or after `off` whose result
/// id is `id`.
pub open spec fn type_declaration_from(words: Seq<u32>, off: nat, id: u32) -> Option<nat>
    decreases words.len() - off,
{
    if off >= words.len() {
        None
    } else {
        let n = word_count(words[off as int]);
        if n == 0 || off + n > words.len() {
            None
        } else if is_type_opcode(opcode(words[off as int])) && n >= 2 && words[(off + 1) as int] == id {
            Some(off)
        } else {
            type_declaration_from(words, off + n, id)
        }
    }
}

/// Where `id` is declared as an array or runtime array, its element type.
pub open spec fn array_element(words: Seq<u32>, id: u32) -> Option<u32> {
    match type_declaration_from(words, 5, id) {
        Some(off) => if (opcode(words[off as int]) == 28 || opcode(words[off as int]) == 29)
            && word_count(words[off as int]) >= 3 {
            Some(words[(off + 2) as int])
        } else {
            None
        },
        None => None,
    }
}

/// Tells whether `words` is a framed module.
pub fn check_framing(words: &[u32]) -> (r: bool)
    ensures
        r == is_framed_module(words@),
{
    if words.len() < 5 || words[0] != SPIRV_MAGIC || words[3] > MAX_ID_BOUND {
        return false;
    }
    let v = words[1];
    if !(v == 99 || v == 0x10000 || v == 0x10100 || v == 0x10200 || v == 0x10300 || v == 0x10400
        || v == 0x10500) {
        return false;
    }
    let mut off: usize = 5;
    while off < words.len()
        invariant
            5 <= off <= words@.len(),
            framed_from(words@, 5) == framed_from(words@, off as nat),
        decreases words@.len() - off,
    {
        let n = words[off] >> 16u32;
        if n == 0 || n as usize > words.len() - off {
            return false;
        }
        off = off + n as usize;
    }
    true
}

/// The offset of the type declaration of `id`, if the module has one.
pub fn find_type_declaration(words: &[u32], id: u32) -> (r: Option<usize>)
    ensures
        match r {
            Some(o) => type_declaration_from(words@, 5, id) == Some(o as nat),
            None => type_declaration_from(words@, 5, id) is None,
        },
        r matches Some(o) ==> o + 1 < words@.len() && word_count(words@[o as int]) >= 2 && o
            + word_count(words@[o as int]) <= words@.len(),
{
    let mut off: usize = 5;
    if words.len() < 5 {
        return None;
    }
    while off < words.len()
        invariant
            5 <= off <= words@.len(),
            type_declaration_from(words@, 5, id) == type_declaration_from(words@, off as nat, id),
        decreases words@.len() - off,
    {
        let n = words[off] >> 16u32;
        if n == 0 || n as usize > words.len() - off {
            return None;
        }
        let op = words[off] & 0xffffu32;
        if ((19 <= op && op <= 30) || op == 32) && n >= 2 && words[off + 1] == id {
            return Some(off);
        }
        off = off + n as usize;
    }
    None
}

/// The element type of `id` where it is declared as an array.
pub fn find_array_element(words: &[u32], id: u32) -> (r: Option<u32>)
    ensures
        r == array_element(words@, id),
{
    match find_type_declaration(words, id) {
        Some(off) => {
            let op = words[off] & 0xffffu32;
            let n = words[off] >> 16u32;
            assert(n as nat == word_count(words@[off as int]));
            assert(op as nat == opcode(words@[off as int]));
            if (op == 28 || op == 29) && n >= 3 {
                Some(words[off + 2])
            } else {
                None
            }
        },
        None => None,
    }
}

/// Copies `words` into native byte order.
pub fn to_native_order(words: &[u32]) -> (r: Vec<u32>)
    ensures
        r@ == native_order(words@),
{
    let swap = words.len() > 0 && words[0] == SPIRV_MAGIC_SWAPPED;
    let mut r: Vec<u32> = Vec::new();
    let mut i: usize = 0;
    while i < words.len()
        invariant
            i <= words@.len(),
            swap == (words@.len() > 0 && words@[0] == SPIRV_MAGIC_SWAPPED),
            r@ == native_order(words@).subrange(0, i as int),
        decreases words@.len() - i,
    {
        let w = words[i];
        if swap {
            r.push(((w & 0xffu32) << 24u32) | ((w & 0xff00u32) << 8u32) | ((w >> 8u32) & 0xff00u32) | (w >> 24u32));
        } else {
            r.push(w);
        }
        assert(r@ =~= native_order(words@).subrange(0, i + 1));
        i = i + 1;
    }
    assert(r@ =~= native_order(words@));
    r
}

/// The result ids of the type declarations from `off` on, in order.
pub open spec fn type_ids_from(words: Seq<u32>, off: nat) -> Seq<u32>
    decreases words.len() - off,
{
    if off >= words.len() {
        seq![]
    } else {
        let n = word_count(words[off as int]);
        if n == 0 || off + n > words.len() {
            seq![]
        } else if is_type_opcode(opcode(words[off as int])) && n >= 2 {
            seq![words[(off + 1) as int]] + type_ids_from(words, off + n)
        } else {
            type_ids_from(words, off + n)
        }
    }
}

/// The ids of the types the module declares, in order of declaration.
pub fn declared_type_ids(words: &[u32]) -> (r: Vec<u32>)
    ensures
        r@ == (if words@.len() >= 5 {
            type_ids_from(words@, 5)
        } else {
            seq![]
        }),
{
    let mut r: Vec<u32> = Vec::new();
    if words.len() < 5 {
        return r;
    }
    let mut off: usize = 5;
    while off < words.len()
        invariant
            5 <= off <= words@.len(),
            r@ + type_ids_from(words@, off as nat) == type_ids_from(words@, 5),
        decreases words@.len() - off,
    {
        let n = words[off] >> 16u32;
        assert(n as nat == word_count(words@[off as int]));
        if n == 0 || n as usize > words.len() - off {
            assert(r@ + type_ids_from(words@, off as nat) =~= r@);
            return r;
        }
        let op = words[off] & 0xffffu32;
        assert(op as nat == opcode(words@[off as int]));
        if ((19 <= op && op <= 30) || op == 32) && n >= 2 {
            let ghost before = r@;
            r.push(words[off + 1]);
            assert(r@ + type_ids_from(words@, (off + n as usize) as nat) =~= before + type_ids_from(
                words@,
                off as nat,
            ));
        }
        off = off + n as usize;
    }
    assert(r@ + type_ids_from(words@, off as nat) =~= r@);
    r
}

} // verus!
