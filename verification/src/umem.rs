//! Model of the caller-owned (untrusted) memory that raw syscall arguments
//! point into: a flat byte space together with, per byte, whether the calling
//! context may read it and whether it may write it. Address 0 is the null
//! pointer and is never part of a valid non-empty range. Every dereference
//! of a caller pointer anywhere in the layer goes through the validator
//! here first, and validated data is copied into owned memory in the same
//! step, never re-read from the foreign range later in the call.

use vstd::prelude::*;

use crate::errno::Errno;

verus! {

/// Upper bound the model places on the caller address space.
pub const MEM_MAX: u64 = 0x4000_0000;

/// Replace `d.len()` bytes of `s` starting at `a`.
pub open spec fn splice(s: Seq<u8>, a: int, d: Seq<u8>) -> Seq<u8>
    recommends
        0 <= a,
        a + d.len() <= s.len(),
{
    s.subrange(0, a) + d + s.subrange(a + d.len(), s.len() as int)
}

/// The little-endian 32-bit value stored at `a`.
pub open spec fn le32_at(m: Seq<u8>, a: int) -> u32
    recommends
        0 <= a,
        a + 4 <= m.len(),
{
    (m[a] + m[a + 1] * 0x100 + m[a + 2] * 0x10000 + m[a + 3] * 0x1000000) as u32
}

/// The little-endian 64-bit value stored at `a`.
pub open spec fn le64_at(m: Seq<u8>, a: int) -> u64
    recommends
        0 <= a,
        a + 8 <= m.len(),
{
    (m[a] + m[a + 1] * 0x100 + m[a + 2] * 0x10000 + m[a + 3] * 0x1000000 + m[a + 4]
        * 0x100000000 + m[a + 5] * 0x10000000000 + m[a + 6] * 0x1000000000000 + m[a + 7]
        * 0x100000000000000) as u64
}

/// The little-endian bytes of a 32-bit value.
pub open spec fn u32_le(v: u32) -> Seq<u8> {
    seq![
        (v % 0x100) as u8,
        ((v / 0x100) % 0x100) as u8,
        ((v / 0x10000) % 0x100) as u8,
        ((v / 0x1000000) % 0x100) as u8,
    ]
}

/// The little-endian bytes of a 64-bit value.
pub open spec fn u64_le(v: u64) -> Seq<u8> {
    seq![
        (v % 0x100) as u8,
        ((v / 0x100) % 0x100) as u8,
        ((v / 0x10000) % 0x100) as u8,
        ((v / 0x1000000) % 0x100) as u8,
        ((v / 0x100000000) % 0x100) as u8,
        ((v / 0x10000000000) % 0x100) as u8,
        ((v / 0x1000000000000) % 0x100) as u8,
        ((v / 0x100000000000000) % 0x100) as u8,
    ]
}

/// The caller-owned address space: contents plus per-byte ownership for
/// reading and for writing, as the environment's memory-region map records
/// it. The layer never trusts an address without consulting it.
pub struct UserMem {
    bytes: Vec<u8>,
    read_ok: Vec<bool>,
    write_ok: Vec<bool>,
}

impl UserMem {
    /// The bytes of the space.
    pub closed spec fn mem(self) -> Seq<u8> {
        self.bytes@
    }

    /// Per-byte read ownership.
    pub closed spec fn read_perm(self) -> Seq<bool> {
        self.read_ok@
    }

    /// Per-byte write ownership.
    pub closed spec fn write_perm(self) -> Seq<bool> {
        self.write_ok@
    }

    pub open spec fn size(self) -> nat {
        self.mem().len()
    }

    pub open spec fn wf(self) -> bool {
        &&& self.read_perm().len() == self.size()
        &&& self.write_perm().len() == self.size()
        &&& self.size() <= MEM_MAX
    }

    /// A structurally acceptable range: empty, or non-null, in bounds and
    /// not wrapping around the address space.
    pub open spec fn range_ok(self, addr: u64, len: u64) -> bool {
        len == 0 || (addr != 0 && addr + len <= self.size())
    }

    /// The whole range is owned by the caller for reading.
    pub open spec fn readable(self, addr: u64, len: u64) -> bool {
        &&& self.range_ok(addr, len)
        &&& forall|i: int| addr <= i < addr + len ==> self.read_perm()[i]
    }

    /// The whole range is owned by the caller for writing.
    pub open spec fn writable(self, addr: u64, len: u64) -> bool {
        &&& self.range_ok(addr, len)
        &&& forall|i: int| addr <= i < addr + len ==> self.write_perm()[i]
    }

    /// Both ownership maps agree between two states of the space.
    pub open spec fn same_perms(self, other: UserMem) -> bool {
        self.read_perm() == other.read_perm() && self.write_perm() == other.write_perm()
    }

    /// A fresh space of `size` zero bytes, none of it owned by the caller
    /// until `allow` grants ownership.
    pub fn new(size: usize) -> (r: UserMem)
        requires
            size <= MEM_MAX,
        ensures
            r.wf(),
            r.size() == size,
            forall|i: int| 0 <= i < size ==> r.mem()[i] == 0,
            forall|i: int| 0 <= i < size ==> !r.read_perm()[i] && !r.write_perm()[i],
    {
        let mut bytes: Vec<u8> = Vec::new();
        let mut read_ok: Vec<bool> = Vec::new();
        let mut write_ok: Vec<bool> = Vec::new();
        let mut i: usize = 0;
        while i < size
            invariant
                i <= size,
                bytes@.len() == i,
                read_ok@.len() == i,
                write_ok@.len() == i,
                forall|j: int| 0 <= j < i ==> bytes@[j] == 0,
                forall|j: int| 0 <= j < i ==> !read_ok@[j] && !write_ok@[j],
            decreases size - i,
        {
            bytes.push(0u8);
            read_ok.push(false);
            write_ok.push(false);
            i = i + 1;
        }
        UserMem { bytes, read_ok, write_ok }
    }

    /// Grant the caller ownership of a range: readable, and writable when
    /// `write` is set. Models the environment mapping memory to the caller.
    pub fn allow(&mut self, addr: u64, len: u64, write: bool)
        requires
            old(self).wf(),
            addr + len <= old(self).size(),
        ensures
            final(self).wf(),
            final(self).size() == old(self).size(),
            final(self).mem() == old(self).mem(),
            forall|i: int|
                0 <= i < old(self).size() ==> final(self).read_perm()[i] == (if addr <= i < addr
                    + len {
                    true
                } else {
                    old(self).read_perm()[i]
                }),
            forall|i: int|
                0 <= i < old(self).size() ==> final(self).write_perm()[i] == (if addr <= i < addr
                    + len {
                    write
                } else {
                    old(self).write_perm()[i]
                }),
    {
        let mut i: usize = 0;
        let a = addr as usize;
        let l = len as usize;
        while i < l
            invariant
                old(self).wf(),
                a == addr,
                l == len,
                addr + len <= old(self).size(),
                i <= l,
                self.bytes@ == old(self).bytes@,
                self.read_ok@.len() == old(self).read_ok@.len(),
                self.write_ok@.len() == old(self).write_ok@.len(),
                forall|j: int|
                    0 <= j < old(self).size() ==> self.read_ok@[j] == (if addr <= j < addr + i {
                        true
                    } else {
                        old(self).read_ok@[j]
                    }),
                forall|j: int|
                    0 <= j < old(self).size() ==> self.write_ok@[j] == (if addr <= j < addr + i {
                        write
                    } else {
                        old(self).write_ok@[j]
                    }),
            decreases l - i,
        {
            self.read_ok.set(a + i, true);
            self.write_ok.set(a + i, write);
            i = i + 1;
        }
    }

    /// Environment-side store, ignoring ownership: models the caller (or a
    /// test) filling its own memory before the call.
    pub fn poke(&mut self, addr: u64, data: &Vec<u8>)
        requires
            old(self).wf(),
            addr + data@.len() <= old(self).size(),
        ensures
            final(self).wf(),
            final(self).size() == old(self).size(),
            final(self).same_perms(*old(self)),
            final(self).mem() == splice(old(self).mem(), addr as int, data@),
    {
        let a = addr as usize;
        let n = data.len();
        let mut i: usize = 0;
        while i < n
            invariant
                old(self).wf(),
                a == addr,
                n == data@.len(),
                addr + n <= old(self).size(),
                i <= n,
                self.read_ok@ == old(self).read_ok@,
                self.write_ok@ == old(self).write_ok@,
                self.bytes@.len() == old(self).bytes@.len(),
                forall|j: int| 0 <= j < i ==> self.bytes@[a + j] == data@[j],
                forall|j: int|
                    0 <= j < old(self).size() && !(addr <= j < addr + i) ==> self.bytes@[j] == old(
                        self,
                    ).bytes@[j],
            decreases n - i,
        {
            self.bytes.set(a + i, data[i]);
            i = i + 1;
        }
        proof {
            assert(final(self).mem() =~= splice(old(self).mem(), addr as int, data@));
        }
    }

    /// Environment-side load, ignoring ownership: lets a test observe what
    /// a call did or did not write.
    pub fn peek(&self, addr: u64, len: u64) -> (r: Vec<u8>)
        requires
            self.wf(),
            addr + len <= self.size(),
        ensures
            r@ == self.mem().subrange(addr as int, addr as int + len as int),
    {
        let a = addr as usize;
        let l = len as usize;
        let mut out: Vec<u8> = Vec::new();
        let mut i: usize = 0;
        while i < l
            invariant
                self.wf(),
                a == addr,
                l == len,
                addr + len <= self.size(),
                i <= l,
                out@.len() == i,
                forall|j: int| 0 <= j < i ==> out@[j] == self.bytes@[a + j],
            decreases l - i,
        {
            out.push(self.bytes[a + i]);
            i = i + 1;
        }
        proof {
            assert(out@ =~= self.mem().subrange(addr as int, addr as int + len as int));
        }
        out
    }

    /// The validator for reads: exactly whether the caller owns
    /// `[addr, addr+len)` for reading.
    pub fn check_read(&self, addr: u64, len: u64) -> (r: bool)
        requires
            self.wf(),
        ensures
            r == self.readable(addr, len),
    {
        if len == 0 {
            return true;
        }
        if addr == 0 {
            return false;
        }
        let size = self.bytes.len() as u64;
        if addr > size || len > size - addr {
            return false;
        }
        let a = addr as usize;
        let l = len as usize;
        let mut i: usize = 0;
        while i < l
            invariant
                self.wf(),
                a == addr,
                l == len,
                addr + len <= self.size(),
                i <= l,
                forall|j: int| addr <= j < addr + i ==> self.read_perm()[j],
            decreases l - i,
        {
            if !self.read_ok[a + i] {
                return false;
            }
            i = i + 1;
        }
        true
    }

    /// The validator for writes: exactly whether the caller owns
    /// `[addr, addr+len)` for writing.
    pub fn check_write(&self, addr: u64, len: u64) -> (r: bool)
        requires
            self.wf(),
        ensures
            r == self.writable(addr, len),
    {
        if len == 0 {
            return true;
        }
        if addr == 0 {
            return false;
        }
        let size = self.bytes.len() as u64;
        if addr > size || len > size - addr {
            return false;
        }
        let a = addr as usize;
        let l = len as usize;
        let mut i: usize = 0;
        while i < l
            invariant
                self.wf(),
                a == addr,
                l == len,
                addr + len <= self.size(),
                i <= l,
                forall|j: int| addr <= j < addr + i ==> self.write_perm()[j],
            decreases l - i,
        {
            if !self.write_ok[a + i] {
                return false;
            }
            i = i + 1;
        }
        true
    }

    /// Validate-and-copy in one step: the owned copy of a caller range, or
    /// a fault. Nothing else of the layer reads caller bytes.
    pub fn read_range(&self, addr: u64, len: u64) -> (r: Result<Vec<u8>, Errno>)
        requires
            self.wf(),
        ensures
            r is Ok <==> self.readable(addr, len),
            r matches Ok(v) ==> v@.len() == len,
            len > 0 ==> (r matches Ok(v) ==> v@ == self.mem().subrange(
                addr as int,
                addr as int + len as int,
            )),
            r matches Err(e) ==> e == Errno::EFAULT,
    {
        if !self.check_read(addr, len) {
            return Err(Errno::EFAULT);
        }
        if len == 0 {
            return Ok(Vec::new());
        }
        Ok(self.peek(addr, len))
    }

    /// Validate-and-store in one step: writes the owned bytes into a caller
    /// range the caller owns for writing, or faults without touching it.
    pub fn write_range(&mut self, addr: u64, data: &Vec<u8>) -> (r: Result<(), Errno>)
        requires
            old(self).wf(),
        ensures
            final(self).wf(),
            final(self).size() == old(self).size(),
            final(self).same_perms(*old(self)),
            r is Ok <==> old(self).writable(addr, data@.len() as u64),
            r is Ok && data@.len() == 0 ==> final(self).mem() == old(self).mem(),
            r is Ok && data@.len() > 0 ==> final(self).mem() == splice(
                old(self).mem(),
                addr as int,
                data@,
            ),
            r is Err ==> *final(self) == *old(self),
            r matches Err(e) ==> e == Errno::EFAULT,
    {
        if !self.check_write(addr, data.len() as u64) {
            return Err(Errno::EFAULT);
        }
        if data.len() == 0 {
            return Ok(());
        }
        let a = addr as usize;
        let n = data.len();
        let mut i: usize = 0;
        while i < n
            invariant
                old(self).wf(),
                a == addr,
                n == data@.len(),
                addr + n <= old(self).size(),
                i <= n,
                self.read_ok@ == old(self).read_ok@,
                self.write_ok@ == old(self).write_ok@,
                self.bytes@.len() == old(self).bytes@.len(),
                forall|j: int| 0 <= j < i ==> self.bytes@[a + j] == data@[j],
                forall|j: int|
                    0 <= j < old(self).size() && !(addr <= j < addr + i) ==> self.bytes@[j] == old(
                        self,
                    ).bytes@[j],
            decreases n - i,
        {
            self.bytes.set(a + i, data[i]);
            i = i + 1;
        }
        proof {
            assert(final(self).mem() =~= splice(old(self).mem(), addr as int, data@));
        }
        Ok(())
    }

    /// One validated caller byte.
    pub fn byte_at(&self, addr: u64) -> (r: Result<u8, Errno>)
        requires
            self.wf(),
        ensures
            r is Ok <==> self.readable(addr, 1),
            r matches Ok(v) ==> v == self.mem()[addr as int],
            r matches Err(e) ==> e == Errno::EFAULT,
    {
        if !self.check_read(addr, 1) {
            return Err(Errno::EFAULT);
        }
        Ok(self.bytes[addr as usize])
    }

    /// A validated little-endian 32-bit caller word.
    pub fn read_u32(&self, addr: u64) -> (r: Result<u32, Errno>)
        requires
            self.wf(),
        ensures
            r is Ok <==> self.readable(addr, 4),
            r matches Ok(v) ==> v == le32_at(self.mem(), addr as int),
            r matches Err(e) ==> e == Errno::EFAULT,
    {
        if !self.check_read(addr, 4) {
            return Err(Errno::EFAULT);
        }
        let a = addr as usize;
        let b0 = self.bytes[a] as u32;
        let b1 = self.bytes[a + 1] as u32;
        let b2 = self.bytes[a + 2] as u32;
        let b3 = self.bytes[a + 3] as u32;
        Ok(b0 + b1 * 0x100 + b2 * 0x10000 + b3 * 0x1000000)
    }

    /// A validated little-endian 64-bit caller word.
    pub fn read_u64(&self, addr: u64) -> (r: Result<u64, Errno>)
        requires
            self.wf(),
        ensures
            r is Ok <==> self.readable(addr, 8),
            r matches Ok(v) ==> v == le64_at(self.mem(), addr as int),
            r matches Err(e) ==> e == Errno::EFAULT,
    {
        if !self.check_read(addr, 8) {
            return Err(Errno::EFAULT);
        }
        let a = addr as usize;
        let b0 = self.bytes[a] as u64;
        let b1 = self.bytes[a + 1] as u64;
        let b2 = self.bytes[a + 2] as u64;
        let b3 = self.bytes[a + 3] as u64;
        let b4 = self.bytes[a + 4] as u64;
        let b5 = self.bytes[a + 5] as u64;
        let b6 = self.bytes[a + 6] as u64;
        let b7 = self.bytes[a + 7] as u64;
        Ok(
            b0 + b1 * 0x100 + b2 * 0x10000 + b3 * 0x1000000 + b4 * 0x100000000 + b5 * 0x10000000000
                + b6 * 0x1000000000000 + b7 * 0x100000000000000,
        )
    }

    /// Validated store of a little-endian 32-bit value.
    pub fn write_u32(&mut self, addr: u64, v: u32) -> (r: Result<(), Errno>)
        requires
            old(self).wf(),
        ensures
            final(self).wf(),
            final(self).size() == old(self).size(),
            final(self).same_perms(*old(self)),
            r is Ok <==> old(self).writable(addr, 4),
            r is Ok ==> final(self).mem() == splice(old(self).mem(), addr as int, u32_le(v)),
            r is Err ==> *final(self) == *old(self),
            r matches Err(e) ==> e == Errno::EFAULT,
    {
        let mut data: Vec<u8> = Vec::new();
        data.push((v % 0x100) as u8);
        data.push(((v / 0x100) % 0x100) as u8);
        data.push(((v / 0x10000) % 0x100) as u8);
        data.push(((v / 0x1000000) % 0x100) as u8);
        proof {
            assert(data@ =~= u32_le(v));
        }
        self.write_range(addr, &data)
    }

    /// Validated store of a little-endian 64-bit value.
    pub fn write_u64(&mut self, addr: u64, v: u64) -> (r: Result<(), Errno>)
        requires
            old(self).wf(),
        ensures
            final(self).wf(),
            final(self).size() == old(self).size(),
            final(self).same_perms(*old(self)),
            r is Ok <==> old(self).writable(addr, 8),
            r is Ok ==> final(self).mem() == splice(old(self).mem(), addr as int, u64_le(v)),
            r is Err ==> *final(self) == *old(self),
            r matches Err(e) ==> e == Errno::EFAULT,
    {
        let mut data: Vec<u8> = Vec::new();
        data.push((v % 0x100) as u8);
        data.push(((v / 0x100) % 0x100) as u8);
        data.push(((v / 0x10000) % 0x100) as u8);
        data.push(((v / 0x1000000) % 0x100) as u8);
        data.push(((v / 0x100000000) % 0x100) as u8);
        data.push(((v / 0x10000000000) % 0x100) as u8);
        data.push(((v / 0x1000000000000) % 0x100) as u8);
        data.push(((v / 0x100000000000000) % 0x100) as u8);
        proof {
            assert(data@ =~= u64_le(v));
        }
        self.write_range(addr, &data)
    }
}

} // verus!
