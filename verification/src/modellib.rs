use vstd::prelude::*;

verus! {

/// Outcome of a model's `config` call.
#[derive(Copy, Clone, PartialEq, Eq, Structural, Debug)]
pub enum ConfigStatus {
    OK,
    INTERFACEUPDATE,
    ERROR,
}

/// Outcome of a model's `init`, `step`, `pause` or `stop` call.
#[derive(Copy, Clone, PartialEq, Eq, Structural, Debug)]
pub enum RuntimeStatus {
    OK,
    FINISHED,
    ERROR,
}

/// Owned byte message: the plain-value form of the (pointer, size) views
/// that cross the external ABI. Used for field ids and field payloads.
#[derive(Debug)]
pub struct BufferStruct {
    pub bytes: Vec<u8>,
}

impl BufferStruct {
    pub fn new(bytes: Vec<u8>) -> (r: BufferStruct)
        ensures
            r.bytes@ == bytes@,
    {
        BufferStruct { bytes }
    }
}

/// Status a model message endpoint returns for a field id it does not know.
pub const MSG_UNKNOWN: u32 = 1;

/// Byte-wise equality of two byte strings.
pub fn bytes_eq(a: &[u8], b: &[u8]) -> (r: bool)
    ensures
        r == (a@ == b@),
{
    if a.len() != b.len() {
        proof {
            assert(a@ != b@);
        }
        return false;
    }
    let n = a.len();
    let mut i: usize = 0;
    while i < n
        invariant
            n == a@.len() == b@.len(),
            i <= n,
            forall|j: int| 0 <= j < i ==> a@[j] == b@[j],
        decreases n - i,
    {
        if a[i] != b[i] {
            proof {
                assert(a@ != b@);
            }
            return false;
        }
        i = i + 1;
    }
    proof {
        assert(a@ =~= b@);
    }
    true
}

/// The arena after `size` bytes are moved from offset `src` to offset `dst`
/// (overlapping regions behave as if the source were read out first).
pub open spec fn spec_copy(a: Seq<u8>, src: int, dst: int, size: int) -> Seq<u8> {
    Seq::new(a.len(), |i: int| if dst <= i < dst + size { a[src + (i - dst)] } else { a[i] })
}

/// Move `size` arena bytes from offset `src` to offset `dst`.
pub fn copy_region(arena: &mut Vec<u8>, src: usize, dst: usize, size: usize)
    requires
        src + size <= old(arena)@.len(),
        dst + size <= old(arena)@.len(),
    ensures
        final(arena)@ == spec_copy(old(arena)@, src as int, dst as int, size as int),
{
    let alen: usize = arena.len();
    let mut tmp: Vec<u8> = Vec::new();
    let mut i: usize = 0;
    while i < size
        invariant
            i <= size,
            src + size <= arena@.len(),
            arena@.len() == alen,
            tmp@.len() == i,
            forall|j: int| 0 <= j < i ==> tmp@[j] == arena@[src + j],
            arena@ == old(arena)@,
        decreases size - i,
    {
        let byte = arena[src + i];
        tmp.push(byte);
        i = i + 1;
    }
    let mut j: usize = 0;
    while j < size
        invariant
            j <= size,
            dst + size <= arena@.len(),
            arena@.len() == alen,
            arena@.len() == old(arena)@.len(),
            tmp@.len() == size,
            forall|x: int| 0 <= x < size ==> tmp@[x] == old(arena)@[src + x],
            forall|x: int| 0 <= x < arena@.len() && !(dst <= x < dst + j) ==> arena@[x] == old(
                arena,
            )@[x],
            forall|x: int| dst <= x < dst + j ==> arena@[x] == old(arena)@[src + (x - dst)],
        decreases size - j,
    {
        let byte = tmp[j];
        arena[dst + j] = byte;
        j = j + 1;
    }
    proof {
        assert(arena@ =~= spec_copy(old(arena)@, src as int, dst as int, size as int));
    }
}

} // verus!
