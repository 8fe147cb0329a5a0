//! The linear memory of a task, as its host sees it.
use vstd::prelude::*;

verus! {

/// The `len` bytes from `offset` on lie inside `memory`.
pub open spec fn in_bounds(memory: Seq<u8>, offset: u32, len: nat) -> bool {
    offset + len <= memory.len()
}

/// The `len` bytes of `memory` from `offset` on.
pub open spec fn window(memory: Seq<u8>, offset: u32, len: nat) -> Seq<u8> {
    memory.subrange(offset as int, offset + len)
}

/// `memory` with `data` in place of the bytes from `offset` on.
pub open spec fn written(memory: Seq<u8>, offset: u32, data: Seq<u8>) -> Seq<u8> {
    memory.take(offset as int) + data + memory.skip(offset + data.len())
}

/// The word that says that `len` bytes lie at `ptr`: the length in the upper half, the pointer in
/// the lower half.
pub open spec fn packed_word(ptr: u32, len: u32) -> int {
    len * 0x1_0000_0000 + ptr
}

/// Where the bytes lie that a word speaks of.
pub open spec fn word_ptr(word: u64) -> u32 {
    (word % 0x1_0000_0000) as u32
}

/// How many bytes a word speaks of.
pub open spec fn word_len(word: u64) -> u32 {
    (word / 0x1_0000_0000) as u32
}

/// A word gives back the pointer and the length that it was made of.
pub proof fn law_unpack_inverts_pack(ptr: u32, len: u32)
    ensures
        0 <= packed_word(ptr, len) <= u64::MAX,
        word_ptr(packed_word(ptr, len) as u64) == ptr,
        word_len(packed_word(ptr, len) as u64) == len,
{
}

/// A word is made of the pointer and the length that it gives back: no two words say the same.
pub proof fn law_pack_inverts_unpack(word: u64)
    ensures
        packed_word(word_ptr(word), word_len(word)) == word,
{
}

/// The pointer is the lower half of a word, the length the upper half.
pub proof fn law_word_has_halves(word: u64)
    ensures
        word_ptr(word) == word & 0xffff_ffff,
        word_len(word) == word >> 32,
{
    assert(word & 0xffff_ffff == word % 0x1_0000_0000 && word >> 32 == word / 0x1_0000_0000 && word
        / 0x1_0000_0000 <= 0xffff_ffff) by (bit_vector);
}

/// What was written is what is read back, and the memory keeps its size.
pub proof fn law_read_after_write(memory: Seq<u8>, offset: u32, data: Seq<u8>)
    requires
        in_bounds(memory, offset, data.len()),
    ensures
        written(memory, offset, data).len() == memory.len(),
        window(written(memory, offset, data), offset, data.len()) == data,
{
    assert(window(written(memory, offset, data), offset, data.len()) =~= data);
}

/// Memory is read and written by its parts: of a memory that consists of `before`, `block` and
/// `after`, the window behind `before` is `block`, and writing `data` there replaces `block` and
/// nothing else. This holds wherever in the memory the block lies, however large the memory is.
pub proof fn law_memory_has_parts(
    before: Seq<u8>,
    block: Seq<u8>,
    after: Seq<u8>,
    data: Seq<u8>,
)
    requires
        before.len() <= u32::MAX,
        data.len() == block.len(),
    ensures
        in_bounds(before + block + after, before.len() as u32, block.len()),
        window(before + block + after, before.len() as u32, block.len()) == block,
        written(before + block + after, before.len() as u32, data) == before + data + after,
{
    let memory = before + block + after;
    assert(window(memory, before.len() as u32, block.len()) =~= block);
    assert(written(memory, before.len() as u32, data) =~= before + data + after);
}

/// Bytes lie inside of a memory exactly if the memory does not end before they do.
pub proof fn law_bounds_are_exact(memory: Seq<u8>, offset: u32, len: nat)
    ensures
        memory.len() < offset + len ==> !in_bounds(memory, offset, len),
        memory.len() >= offset + len ==> in_bounds(memory, offset, len),
{
}

/// A write leaves every window that it does not meet as it was.
pub proof fn law_write_elsewhere(
    memory: Seq<u8>,
    offset: u32,
    data: Seq<u8>,
    other: u32,
    len: nat,
)
    requires
        in_bounds(memory, offset, data.len()),
        in_bounds(memory, other, len),
        other + len <= offset || offset + data.len() <= other,
    ensures
        window(written(memory, offset, data), other, len) == window(memory, other, len),
{
    assert(window(written(memory, offset, data), other, len) =~= window(memory, other, len));
}

/// Whether `len` bytes from `offset` on lie inside `memory`.
pub fn fits(memory: &[u8], offset: u32, len: usize) -> (inside: bool)
    ensures
        inside == in_bounds(memory@, offset, len as nat),
{
    let size: usize = memory.len();
    len <= size && offset as usize <= size - len
}

/// Reads `len` bytes from `offset` on.
pub fn read_memory(memory: &[u8], offset: u32, len: u32) -> (data: Vec<u8>)
    requires
        in_bounds(memory@, offset, len as nat),
    ensures
        data@ == window(memory@, offset, len as nat),
{
    let size: usize = memory.len();
    let start: usize = offset as usize;
    let count: usize = len as usize;
    let mut data: Vec<u8> = Vec::with_capacity(count);
    let mut i: usize = 0;
    while i < count
        invariant
            i <= count,
            count == len,
            start == offset,
            size == memory@.len(),
            in_bounds(memory@, offset, len as nat),
            data@ == window(memory@, offset, i as nat),
        decreases count - i,
    {
        data.push(memory[start + i]);
        i += 1;
    }
    data
}

/// Writes `data` from `offset` on.
pub fn write_memory(memory: &mut [u8], offset: u32, data: &[u8])
    requires
        in_bounds(old(memory)@, offset, data@.len()),
    ensures
        final(memory)@ == written(old(memory)@, offset, data@),
{
    let size: usize = memory.len();
    let start: usize = offset as usize;
    let count: usize = data.len();
    let mut i: usize = 0;
    while i < count
        invariant
            i <= count,
            count == data@.len(),
            start == offset,
            size == old(memory)@.len(),
            in_bounds(old(memory)@, offset, data@.len()),
            memory@ == written(old(memory)@, offset, data@.take(i as int)),
        decreases count - i,
    {
        memory[start + i] = data[i];
        i += 1;
    }
    assert(data@.take(count as int) =~= data@);
}

} // verus!
