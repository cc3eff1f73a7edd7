//! Guest-physical memory: the bytes behind a `GuestMemoryMmap` and the accesses
//! the monitor makes to them.
//!
//! A running vCPU, and another handle on the same mapping, may write to guest memory at
//! any time. What is stated here of an access, and of several in a row, is stated of
//! memory that nobody else writes in the meantime.

use vm_memory::{Bytes, GuestAddress, GuestMemoryMmap};
use vstd::prelude::*;

use crate::bytes::{
    byte_range, from_le_bytes, le_bytes, le_value, lemma_le_bytes_len, lemma_le_bytes_of_value, to_le_bytes,
};
use crate::text::decimal_digits;

verus! {

/// A collection of guest memory regions.
#[verifier::external_type_specification]
#[verifier::external_body]
#[verifier::reject_recursive_types(R)]
pub struct ExGuestRegionCollection<R>(vm_memory::GuestRegionCollection<R>);

/// One memory-mapped region of guest memory.
#[verifier::external_type_specification]
#[verifier::external_body]
#[verifier::reject_recursive_types(B)]
pub struct ExGuestRegionMmap<B>(vm_memory::GuestRegionMmap<B>);

/// What guest memory holds: a byte for every guest-physical address that some
/// region backs.
pub uninterp spec fn guest_bytes(memory: GuestMemoryMmap) -> Map<int, u8>;

/// Every one of the `len` addresses from `addr` on is backed.
pub open spec fn backed(bytes: Map<int, u8>, addr: int, len: int) -> bool {
    forall|a: int| addr <= a < addr + len ==> #[trigger] bytes.contains_key(a)
}

/// The `len` bytes from `addr` on.
pub open spec fn bytes_at(bytes: Map<int, u8>, addr: int, len: nat) -> Seq<u8> {
    Seq::new(len, |i: int| bytes[addr + i])
}

/// Memory after `data` was written at `addr`. A write stops at the first address
/// that nothing backs; what lies before it has been written.
pub open spec fn written(bytes: Map<int, u8>, addr: int, data: Seq<u8>) -> Map<int, u8> {
    Map::new(
        |a: int| bytes.contains_key(a),
        |a: int|
            if addr <= a < addr + data.len() && backed(bytes, addr, a + 1 - addr) {
                data[a - addr]
            } else {
                bytes[a]
            },
    )
}

/// How many of the `len` addresses from `addr` on are backed before the first that is
/// not.
pub open spec fn backed_len(bytes: Map<int, u8>, addr: int, len: nat) -> nat
    decreases len,
{
    if len > 0 && bytes.contains_key(addr) {
        1 + backed_len(bytes, addr + 1, (len - 1) as nat)
    } else {
        0
    }
}

/// The words in which an access to the `len` bytes at `addr` is refused.
pub open spec fn refusal(bytes: Map<int, u8>, addr: int, len: nat) -> Seq<char> {
    if bytes.contains_key(addr) {
        "Guest memory error: only used "@ + decimal_digits(backed_len(bytes, addr, len)) + " bytes in "@
            + decimal_digits(len) + " long buffer"@
    } else {
        "Guest memory error: invalid guest address "@ + decimal_digits(addr as nat)
    }
}

/// Calls `vm_memory::Bytes::read_slice` on guest memory. It reads `len` bytes
/// from `addr` on if every one of those addresses is backed, and fails otherwise;
/// a read of nothing always succeeds. Its error names the address if that is not
/// backed itself, and else how much was read.
#[verifier::external_body]
pub(crate) fn read_slice(memory: &GuestMemoryMmap, addr: u64, len: usize) -> (bytes: Result<Vec<u8>, String>)
    ensures
        bytes is Ok <==> backed(guest_bytes(*memory), addr as int, len as int),
        bytes matches Ok(read) ==> read@ == bytes_at(guest_bytes(*memory), addr as int, len as nat),
        bytes matches Err(reason) ==> reason@ == refusal(guest_bytes(*memory), addr as int, len as nat),
{
    let mut buffer = vec![0u8; len];
    memory.read_slice(&mut buffer, GuestAddress(addr)).map(|_| buffer).map_err(|error| error.to_string())
}

/// Calls `vm_memory::Bytes::write_slice` on guest memory. It writes `data` from
/// `addr` on and succeeds if every one of those addresses is backed; otherwise it
/// writes up to the first address that is not, and fails. Its error names the address
/// if that is not backed itself, and else how much was written.
#[verifier::external_body]
pub(crate) fn write_slice(memory: &mut GuestMemoryMmap, addr: u64, data: &[u8]) -> (result: Result<(), String>)
    ensures
        result is Ok <==> backed(guest_bytes(*old(memory)), addr as int, data@.len() as int),
        result matches Err(reason) ==> reason@ == refusal(
            guest_bytes(*old(memory)),
            addr as int,
            data@.len(),
        ),
        guest_bytes(*final(memory)) == written(guest_bytes(*old(memory)), addr as int, data@),
{
    memory.write_slice(data, GuestAddress(addr)).map_err(|error| error.to_string())
}

/// The number held, least significant byte first, in the `n` bytes from `addr` on,
/// if they are all backed.
pub open spec fn loaded(bytes: Map<int, u8>, addr: int, n: nat) -> Option<nat> {
    if backed(bytes, addr, n as int) {
        Some(le_value(bytes_at(bytes, addr, n)))
    } else {
        None
    }
}

/// Reads an `n`-byte little-endian number.
pub(crate) fn read_number(memory: &GuestMemoryMmap, addr: u64, n: usize) -> (value: Result<u64, String>)
    requires
        n <= 8,
    ensures
        match value {
            Ok(number) => loaded(guest_bytes(*memory), addr as int, n as nat) == Some(number as nat) && number
                < byte_range(n as nat),
            Err(reason) => loaded(guest_bytes(*memory), addr as int, n as nat) is None && reason@ == refusal(
                guest_bytes(*memory),
                addr as int,
                n as nat,
            ),
        },
{
    match read_slice(memory, addr, n) {
        Ok(bytes) => {
            proof {
                lemma_le_bytes_of_value(bytes@);
            }
            Ok(from_le_bytes(bytes.as_slice()))
        },
        Err(reason) => Err(reason),
    }
}

/// Writes the `n` low-order bytes of `value`, little-endian.
pub(crate) fn write_number(memory: &mut GuestMemoryMmap, addr: u64, value: u64, n: usize) -> (result:
    Result<(), String>)
    ensures
        result is Ok <==> backed(guest_bytes(*old(memory)), addr as int, n as int),
        result matches Err(reason) ==> reason@ == refusal(
            guest_bytes(*old(memory)),
            addr as int,
            n as nat,
        ),
        guest_bytes(*final(memory)) == written(
            guest_bytes(*old(memory)),
            addr as int,
            le_bytes(value as nat, n as nat),
        ),
{
    let bytes = to_le_bytes(value, n);
    proof {
        lemma_le_bytes_len(value as nat, n as nat);
    }
    write_slice(memory, addr, bytes.as_slice())
}

/// A write that succeeds puts exactly its data where it was asked to.
pub proof fn lemma_read_back(bytes: Map<int, u8>, addr: int, data: Seq<u8>)
    requires
        backed(bytes, addr, data.len() as int),
    ensures
        bytes_at(written(bytes, addr, data), addr, data.len()) =~= data,
        backed(written(bytes, addr, data), addr, data.len() as int),
{
    let after = written(bytes, addr, data);
    assert forall|a: int| addr <= a < addr + data.len() implies after[a] == data[a - addr] by {
        assert(bytes.contains_key(a));
        assert(backed(bytes, addr, a + 1 - addr));
    }
}

/// What is backed, and the words in which an access is refused, depend on the layout of
/// memory alone.
pub proof fn lemma_layout_decides(a: Map<int, u8>, b: Map<int, u8>, addr: int, len: nat)
    requires
        a.dom() =~= b.dom(),
    ensures
        backed(a, addr, len as int) == backed(b, addr, len as int),
        backed_len(a, addr, len) == backed_len(b, addr, len),
        refusal(a, addr, len) == refusal(b, addr, len),
    decreases len,
{
    assert(forall|k: int| a.contains_key(k) == b.contains_key(k));
    if len > 0 {
        lemma_layout_decides(a, b, addr + 1, (len - 1) as nat);
    }
}

/// A write changes no byte outside its range, and never changes what is backed.
pub proof fn lemma_write_elsewhere(bytes: Map<int, u8>, addr: int, data: Seq<u8>)
    ensures
        written(bytes, addr, data).dom() =~= bytes.dom(),
        forall|a: int|
            bytes.contains_key(a) && !(addr <= a < addr + data.len())
                ==> #[trigger] written(bytes, addr, data)[a] == bytes[a],
{
}

/// The count of backed addresses is exact: all of them are, and the next one is not, if
/// there is a next.
pub proof fn law_backed_len_is_exact(bytes: Map<int, u8>, addr: int, len: nat)
    ensures
        backed_len(bytes, addr, len) <= len,
        backed(bytes, addr, backed_len(bytes, addr, len) as int),
        backed_len(bytes, addr, len) < len ==> !bytes.contains_key(addr + backed_len(bytes, addr, len)),
        backed_len(bytes, addr, len) == len <==> backed(bytes, addr, len as int),
    decreases len,
{
    if len > 0 && bytes.contains_key(addr) {
        law_backed_len_is_exact(bytes, addr + 1, (len - 1) as nat);
        let rest = backed_len(bytes, addr + 1, (len - 1) as nat);
        assert forall|a: int| addr <= a < addr + 1 + rest implies #[trigger] bytes.contains_key(a) by {
            if a > addr {
                assert(addr + 1 <= a < addr + 1 + rest);
            }
        }
    } else if len > 0 {
        assert(!bytes.contains_key(addr));
    }
}

/// A write fills the addresses from where it starts up to the first that nothing backs,
/// and changes no other.
pub proof fn law_writes_fill_what_is_backed(bytes: Map<int, u8>, addr: int, data: Seq<u8>, a: int)
    requires
        bytes.contains_key(a),
    ensures
        written(bytes, addr, data).contains_key(a),
        addr <= a < addr + backed_len(bytes, addr, data.len()) ==> written(bytes, addr, data)[a] == data[a - addr],
        !(addr <= a < addr + backed_len(bytes, addr, data.len())) ==> written(bytes, addr, data)[a] == bytes[a],
{
    law_backed_len_is_exact(bytes, addr, data.len());
    let reach = backed_len(bytes, addr, data.len());
    if addr <= a < addr + reach {
        assert(backed(bytes, addr, a + 1 - addr));
    } else if addr <= a < addr + data.len() {
        assert(!bytes.contains_key(addr + reach));
        assert(!backed(bytes, addr, a + 1 - addr));
    }
}

/// A number that was written reads back, and can be read exactly where memory is backed.
pub proof fn law_numbers_read_back(bytes: Map<int, u8>, addr: int, value: nat, n: nat)
    requires
        value < byte_range(n),
    ensures
        loaded(bytes, addr, n) is Some <==> backed(bytes, addr, n as int),
        backed(bytes, addr, n as int) ==> loaded(written(bytes, addr, le_bytes(value, n)), addr, n) == Some(value),
{
    lemma_le_bytes_len(value, n);
    crate::bytes::lemma_le_round_trip(value, n);
    if backed(bytes, addr, n as int) {
        lemma_read_back(bytes, addr, le_bytes(value, n));
    }
}

/// A byte that is read is the byte that is there.
pub proof fn law_bytes_are_read_in_order(bytes: Map<int, u8>, addr: int, len: nat, i: int)
    requires
        0 <= i < len,
    ensures
        bytes_at(bytes, addr, len).len() == len,
        bytes_at(bytes, addr, len)[i] == bytes[addr + i],
{
}

/// A refused access says what is wrong: an address that nothing backs, by its number, or
/// else how many of how many bytes there were.
pub proof fn law_refusals_say_what_is_missing(bytes: Map<int, u8>, addr: int, len: nat)
    requires
        0 <= addr,
    ensures
        !bytes.contains_key(addr) ==> decimal_digits(addr as nat).is_suffix_of(refusal(bytes, addr, len)),
        bytes.contains_key(addr) ==> ("Guest memory error: only used "@ + decimal_digits(
            backed_len(bytes, addr, len),
        )).is_prefix_of(refusal(bytes, addr, len)) && (decimal_digits(len) + " long buffer"@).is_suffix_of(
            refusal(bytes, addr, len),
        ),
{
    let words = refusal(bytes, addr, len);
    if bytes.contains_key(addr) {
        let start = "Guest memory error: only used "@ + decimal_digits(backed_len(bytes, addr, len));
        let end = decimal_digits(len) + " long buffer"@;
        assert(words =~= start + " bytes in "@ + end);
        assert(words.take(start.len() as int) =~= start);
        assert(words.subrange(words.len() - end.len(), words.len() as int) =~= end);
    } else {
        let end = decimal_digits(addr as nat);
        assert(words.subrange(words.len() - end.len(), words.len() as int) =~= end);
    }
}

} // verus!
