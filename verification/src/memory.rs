//! Guest RAM as a card's transfer engine sees it.

use vstd::prelude::*;
use vstd::slice::slice_subrange;

verus! {

/// What guest RAM holds: the spans (address and length) that lie inside one
/// region of RAM, and the byte at every address.
#[verifier::ext_equal]
pub struct GuestRam {
    pub spans: Set<(u32, u32)>,
    pub bytes: Map<int, u8>,
}

impl GuestRam {
    /// Whether the `len` bytes at `addr` lie inside one region of RAM.
    pub open spec fn reachable(self, addr: u32, len: u32) -> bool {
        self.spans.contains((addr, len))
    }

    /// Whether every reachable span is backed by bytes.
    pub open spec fn backed(self) -> bool {
        forall|addr: u32, len: u32, at: int|
            #![trigger self.reachable(addr, len), self.bytes.dom().contains(at)]
            self.reachable(addr, len) && addr <= at < addr + len ==> self.bytes.dom().contains(at)
    }

    /// The `len` bytes at `addr`.
    pub open spec fn read(self, addr: u32, len: int) -> Seq<u8> {
        Seq::new(len as nat, |i: int| self.bytes[addr + i])
    }

    /// RAM with `data` stored at `addr`.
    pub open spec fn with(self, addr: u32, data: Seq<u8>) -> GuestRam {
        GuestRam {
            spans: self.spans,
            bytes: Map::new(
                |a: int| self.bytes.dom().contains(a),
                |a: int|
                    if addr <= a < addr + data.len() {
                        data[a - addr]
                    } else {
                        self.bytes[a]
                    },
            ),
        }
    }
}

/// Writing back bytes that were read changes nothing past the new data.
pub proof fn writing_back_keeps_ram(ram: GuestRam, addr: u32, len: int, data: Seq<u8>)
    requires
        data.len() <= len,
    ensures
        ram.with(addr, data + ram.read(addr, len).skip(data.len() as int)) == ram.with(addr, data),
        ram.with(addr, Seq::empty()) == ram,
{
    assert(ram.with(addr, data + ram.read(addr, len).skip(data.len() as int)) =~= ram.with(
        addr,
        data,
    ));
    assert(ram.with(addr, Seq::empty()) =~= ram);
}

/// Data stored in a reachable span is read back from it.
pub proof fn stored_data_reads_back(ram: GuestRam, addr: u32, data: Seq<u8>)
    requires
        ram.backed(),
        data.len() <= u32::MAX,
        ram.reachable(addr, data.len() as u32),
    ensures
        ram.with(addr, data).read(addr, data.len() as int) == data,
        ram.with(addr, data).backed(),
{
    assert forall|i: int| 0 <= i < data.len() implies #[trigger] ram.with(addr, data).read(
        addr,
        data.len() as int,
    )[i] == data[i] by {
        assert(ram.bytes.dom().contains(addr + i));
    }
    assert(ram.with(addr, data).read(addr, data.len() as int) =~= data);
    assert forall|addr2: u32, len2: u32, at: int|
        #![trigger ram.with(addr, data).reachable(addr2, len2), ram.with(addr, data).bytes.dom().contains(at)]
        ram.with(addr, data).reachable(addr2, len2) && addr2 <= at < addr2
            + len2 implies ram.with(addr, data).bytes.dom().contains(at) by {
        assert(ram.reachable(addr2, len2));
        assert(ram.bytes.dom().contains(at));
    }
}

/// Validated views of guest RAM.
///
/// Which spans are reachable is the memory's decision, not a card's: a span
/// that does not lie inside one region of RAM is refused, and a granted view
/// covers exactly the span asked for.
pub trait GuestMemory {
    /// What this memory holds.
    open spec fn ram(&self) -> GuestRam {
        arbitrary()
    }

    /// A read-only view of `len` bytes at `addr`.
    fn ram_slice(&self, addr: u32, len: u32) -> (view: Option<&[u8]>)
        ensures
            view is Some == self.ram().reachable(addr, len),
            view matches Some(bytes) ==> bytes@ == self.ram().read(addr, len as int),
    ;

    /// A writable view of `len` bytes at `addr`. What is left in the view
    /// is what RAM holds there afterwards; nothing else changes.
    fn ram_slice_mut(&mut self, addr: u32, len: u32) -> (view: Option<&mut [u8]>)
        ensures
            view is Some == old(self).ram().reachable(addr, len),
            match view {
                Some(bytes) => bytes@ == old(self).ram().read(addr, len as int) && (
                final(bytes)@.len() == len ==> final(self).ram() == old(self).ram().with(
                    addr,
                    final(bytes)@,
                )),
                None => final(self).ram() == old(self).ram(),
            },
    ;
}

/// A flat byte vector is guest RAM based at address zero.
impl GuestMemory for Vec<u8> {
    open spec fn ram(&self) -> GuestRam {
        GuestRam {
            spans: Set::new(
                |span: (u32, u32)|
                    span.0 + span.1 <= u32::MAX && span.0 + span.1 <= self@.len(),
            ),
            bytes: Map::new(|a: int| 0 <= a < self@.len(), |a: int| self@[a]),
        }
    }

    fn ram_slice(&self, addr: u32, len: u32) -> (view: Option<&[u8]>) {
        match addr.checked_add(len) {
            None => None,
            Some(end) => {
                if end as usize > self.len() {
                    None
                } else {
                    Some(slice_subrange(self.as_slice(), addr as usize, end as usize))
                }
            },
        }
    }

    fn ram_slice_mut(&mut self, addr: u32, len: u32) -> (view: Option<&mut [u8]>) {
        match addr.checked_add(len) {
            None => None,
            Some(end) => {
                if end as usize > self.len() {
                    None
                } else {
                    let (before, rest) = self.as_mut_slice().split_at_mut(addr as usize);
                    let (bytes, after) = rest.split_at_mut(len as usize);
                    assert(has_resolved(before) && has_resolved(after));
                    Some(bytes)
                }
            },
        }
    }
}

/// Every reachable span of a flat vector is backed.
pub proof fn flat_ram_is_backed(bytes: Vec<u8>)
    ensures
        bytes.ram().backed(),
{
}

/// A flat vector's RAM is its bytes: a span is reachable exactly when it lies
/// inside the vector and the 32-bit address range, and reads as the bytes
/// there.
pub proof fn flat_ram_is_its_bytes(bytes: Vec<u8>, addr: u32, len: u32)
    ensures
        bytes.ram().reachable(addr, len) <==> addr + len <= bytes@.len() && addr + len <= u32::MAX,
        bytes.ram().reachable(addr, len) ==> bytes.ram().read(addr, len as int)
            == bytes@.subrange(addr as int, addr + len),
{
    if bytes.ram().reachable(addr, len) {
        assert(bytes.ram().read(addr, len as int) =~= bytes@.subrange(addr as int, addr + len));
    }
}

} // verus!
