//! Materializers built on the memory validator: they copy NUL-terminated
//! strings, NULL-terminated pointer arrays, scatter/gather descriptors and
//! the foreign file-action list out of caller memory into owned data, under
//! bounded scanning, before anything else interprets them.

use vstd::prelude::*;

use crate::errno::Errno;
use crate::process::FileAction;
use crate::umem::{le32_at, le64_at, splice, UserMem, MEM_MAX};

verus! {

/// Longest NUL-terminated string the layer will scan for.
pub const CSTRING_MAX: u64 = 4096;

/// Most entries of a NULL-terminated pointer array the layer will walk.
pub const CARRAY_MAX: u64 = 1024;

/// `s[k]` holds a NUL-terminated string of `n` non-zero bytes at `ptr`:
/// the terminator included, all of it owned by the caller for reading.
pub open spec fn is_cstr_at(m: UserMem, ptr: u64, n: int) -> bool {
    &&& 0 <= n < CSTRING_MAX
    &&& m.readable(ptr, (n + 1) as u64)
    &&& (forall|j: int| 0 <= j < n ==> #[trigger] m.mem()[ptr + j] != 0)
    &&& m.mem()[ptr + n] == 0
}

/// Why a string fails to materialize: an unterminated run of readable
/// bytes at the scan bound is a length error, anything else is a fault.
pub open spec fn cstr_error(m: UserMem, ptr: u64) -> Errno {
    if m.readable(ptr, CSTRING_MAX) && (forall|j: int|
        0 <= j < CSTRING_MAX ==> #[trigger] m.mem()[ptr + j] != 0) {
        Errno::ENAMETOOLONG
    } else {
        Errno::EFAULT
    }
}

/// The one string materialized from `p`, or the error.
pub open spec fn cstring_at(m: UserMem, p: u64) -> Result<Seq<u8>, Errno> {
    if exists|n: int| is_cstr_at(m, p, n) {
        let n = choose|n: int| is_cstr_at(m, p, n);
        Ok(m.mem().subrange(p as int, p + n))
    } else {
        Err(cstr_error(m, p))
    }
}

/// A string has at most one terminator position.
pub proof fn lemma_cstr_unique(m: UserMem, p: u64, n1: int, n2: int)
    requires
        is_cstr_at(m, p, n1),
        is_cstr_at(m, p, n2),
    ensures
        n1 == n2,
{
    if n1 < n2 {
        assert(m.mem()[p + n1] != 0);
    }
    if n2 < n1 {
        assert(m.mem()[p + n2] != 0);
    }
}

/// Validate-and-copy a NUL-terminated caller string, scanning at most
/// `CSTRING_MAX` bytes: the copied bytes without the terminator, or the
/// fault/length error of the first byte that stops the scan.
pub fn clone_cstring_safely(m: &UserMem, ptr: u64) -> (r: Result<Vec<u8>, Errno>)
    requires
        m.wf(),
    ensures
        r is Ok <==> exists|n: int| is_cstr_at(*m, ptr, n),
        r matches Ok(v) ==> is_cstr_at(*m, ptr, v@.len() as int) && v@ == m.mem().subrange(
            ptr as int,
            ptr + v@.len(),
        ),
        r matches Ok(v) ==> cstring_at(*m, ptr) == Ok::<Seq<u8>, Errno>(v@),
        r matches Err(e) ==> e == cstr_error(*m, ptr) && cstring_at(*m, ptr) == Err::<
            Seq<u8>,
            Errno,
        >(e),
    {
        let mut out: Vec<u8> = Vec::new();
        let mut i: u64 = 0;
        while i < CSTRING_MAX
            invariant
                m.wf(),
                i <= CSTRING_MAX,
                out@.len() == i,
                m.readable(ptr, i),
                forall|j: int| 0 <= j < i ==> #[trigger] m.mem()[ptr + j] != 0,
                forall|j: int| 0 <= j < i ==> out@[j] == #[trigger] m.mem()[ptr + j],
            decreases CSTRING_MAX - i,
        {
            match m.byte_at(ptr + i) {
                Err(_) => {
                    proof {
                        assert forall|n: int| !is_cstr_at(*m, ptr, n) by {
                            if 0 <= n < CSTRING_MAX {
                                if n >= i {
                                    if is_cstr_at(*m, ptr, n) {
                                        assert(m.readable(ptr, (n + 1) as u64));
                                        assert(m.readable((ptr + i) as u64, 1));
                                    }
                                }
                            }
                        }
                        assert(!m.readable(ptr, CSTRING_MAX)) by {
                            if m.readable(ptr, CSTRING_MAX) {
                                assert(m.readable((ptr + i) as u64, 1));
                            }
                        }
                    }
                    return Err(Errno::EFAULT);
                },
                Ok(b) => {
                    if b == 0 {
                        proof {
                            assert(is_cstr_at(*m, ptr, i as int)) by {
                                assert(m.readable(ptr, (i + 1) as u64)) by {
                                    assert(forall|k: int|
                                        ptr <= k < ptr + i + 1 ==> m.read_perm()[k]);
                                }
                            }
                            assert(ptr + i <= m.mem().len());
                            assert forall|j: int| 0 <= j < i implies out@[j] == m.mem().subrange(
                                ptr as int,
                                ptr + i,
                            )[j] by {
                                assert(out@[j] == m.mem()[ptr + j]);
                            }
                            assert(out@ =~= m.mem().subrange(ptr as int, ptr + i));
                            let n0 = choose|n: int| is_cstr_at(*m, ptr, n);
                            lemma_cstr_unique(*m, ptr, n0, i as int);
                        }
                        return Ok(out);
                    }
                    out.push(b);
                    proof {
                        assert(m.readable(ptr, (i + 1) as u64)) by {
                            assert(forall|k: int| ptr <= k < ptr + i + 1 ==> m.read_perm()[k]);
                        }
                    }
                    i = i + 1;
                },
            }
        }
        proof {
            assert forall|n: int| !is_cstr_at(*m, ptr, n) by {
                if 0 <= n < CSTRING_MAX {
                    assert(m.mem()[ptr + n] != 0);
                }
            }
        }
        Err(Errno::ENAMETOOLONG)
    }

/// The views of a sequence of owned byte vectors.
pub open spec fn views_of(s: Seq<Vec<u8>>) -> Seq<Seq<u8>> {
    Seq::new(s.len(), |i: int| s[i]@)
}

/// Slot `k` of a NULL-terminated pointer array at `ptr` lies inside the
/// possible address space.
pub open spec fn slot_addr_ok(ptr: u64, k: int) -> bool {
    ptr + 8 * k + 8 <= MEM_MAX
}

/// The strings materialized from slots `k..` of the NULL-terminated
/// pointer array at `ptr`, or the first error the walk meets: a fault for
/// an unreadable slot or string, a length error past the entry bound.
pub open spec fn cstrings_from(m: UserMem, ptr: u64, k: int) -> Result<Seq<Seq<u8>>, Errno>
    decreases CARRAY_MAX - k
    when 0 <= k <= CARRAY_MAX
{
    if k >= CARRAY_MAX {
        Err(Errno::ENAMETOOLONG)
    } else if !slot_addr_ok(ptr, k) || !m.readable((ptr + 8 * k) as u64, 8) {
        Err(Errno::EFAULT)
    } else {
        let p = le64_at(m.mem(), ptr + 8 * k);
        if p == 0 {
            Ok(Seq::empty())
        } else {
            match cstring_at(m, p) {
                Err(e) => Err(e),
                Ok(s) => match cstrings_from(m, ptr, k + 1) {
                    Err(e) => Err(e),
                    Ok(rest) => Ok(seq![s] + rest),
                },
            }
        }
    }
}

/// Validate-and-copy a NULL-terminated array of string pointers: each slot
/// is validated, each named string independently materialized, in array
/// order, under the entry bound.
pub fn clone_cstrings_safely(m: &UserMem, ptr: u64) -> (r: Result<Vec<Vec<u8>>, Errno>)
    requires
        m.wf(),
    ensures
        r matches Ok(v) ==> cstrings_from(*m, ptr, 0) == Ok::<Seq<Seq<u8>>, Errno>(views_of(v@)),
        r matches Err(e) ==> cstrings_from(*m, ptr, 0) == Err::<Seq<Seq<u8>>, Errno>(e),
{
    let mut out: Vec<Vec<u8>> = Vec::new();
    let mut i: u64 = 0;
    while i < CARRAY_MAX
        invariant
            m.wf(),
            i <= CARRAY_MAX,
            out@.len() == i,
            match cstrings_from(*m, ptr, i as int) {
                Ok(t) => cstrings_from(*m, ptr, 0) == Ok::<Seq<Seq<u8>>, Errno>(
                    views_of(out@) + t,
                ),
                Err(e) => cstrings_from(*m, ptr, 0) == Err::<Seq<Seq<u8>>, Errno>(e),
            },
        decreases CARRAY_MAX - i,
    {
        if ptr > MEM_MAX - 8 - 8 * i {
            proof {
                assert(cstrings_from(*m, ptr, i as int) == Err::<Seq<Seq<u8>>, Errno>(
                    Errno::EFAULT,
                ));
            }
            return Err(Errno::EFAULT);
        }
        let addr = ptr + 8 * i;
        match m.read_u64(addr) {
            Err(_) => {
                proof {
                    assert(cstrings_from(*m, ptr, i as int) == Err::<Seq<Seq<u8>>, Errno>(
                        Errno::EFAULT,
                    ));
                }
                return Err(Errno::EFAULT);
            },
            Ok(p) => {
                if p == 0 {
                    proof {
                        assert(cstrings_from(*m, ptr, i as int) == Ok::<Seq<Seq<u8>>, Errno>(
                            Seq::empty(),
                        ));
                        assert(views_of(out@) + Seq::<Seq<u8>>::empty() =~= views_of(out@));
                    }
                    return Ok(out);
                }
                match clone_cstring_safely(m, p) {
                    Err(e) => {
                        return Err(e);
                    },
                    Ok(s) => {
                        proof {
                            let t_next = cstrings_from(*m, ptr, i + 1);
                            if t_next is Ok {
                                assert(views_of(out@.push(s)) + t_next->Ok_0 =~= views_of(out@) + (
                                seq![s@] + t_next->Ok_0));
                            }
                        }
                        out.push(s);
                        i = i + 1;
                    },
                }
            },
        }
    }
    Err(Errno::ENAMETOOLONG)
}

/// Most scatter/gather fragments one request may name.
pub const IOV_MAX: u64 = 1024;

/// Size in bytes of one scatter/gather descriptor in caller memory:
/// a base address and a length, each eight bytes, little endian.
pub const IOV_SIZE: u64 = 16;

/// One scatter/gather descriptor: one fragment of the operation.
#[allow(non_camel_case_types)]
#[derive(Clone, Copy, PartialEq, Eq, Structural, Debug)]
pub struct iovec_t {
    pub base: u64,
    pub len: u64,
}

/// The `k`-th descriptor of the array at `ptr`, as caller memory holds it.
pub open spec fn iovec_at(m: UserMem, ptr: u64, k: int) -> iovec_t {
    iovec_t {
        base: le64_at(m.mem(), ptr + 16 * k),
        len: le64_at(m.mem(), ptr + 16 * k + 8),
    }
}

/// The whole descriptor array is readable and every fragment it names is
/// owned by the caller for the requested access mode.
pub open spec fn iovecs_ok(m: UserMem, ptr: u64, count: int, write: bool) -> bool {
    &&& (count > 0 ==> m.readable(ptr, (16 * count) as u64))
    &&& (forall|k: int|
        0 <= k < count ==> {
            let v = #[trigger] iovec_at(m, ptr, k);
            if write {
                m.writable(v.base, v.len)
            } else {
                m.readable(v.base, v.len)
            }
        })
}

/// Validate-and-copy a scatter/gather descriptor array: a negative or
/// oversized count is `EINVAL`; then the descriptor slots themselves and
/// each named fragment are validated for the access mode, in array order,
/// any failure being `EFAULT`.
pub fn materialize_iovecs(m: &UserMem, ptr: u64, count: i32, write: bool) -> (r: Result<
    Vec<iovec_t>,
    Errno,
>)
    requires
        m.wf(),
    ensures
        count < 0 || count > IOV_MAX ==> r == Err::<Vec<iovec_t>, Errno>(Errno::EINVAL),
        0 <= count <= IOV_MAX ==> ((r is Ok) <==> iovecs_ok(*m, ptr, count as int, write)),
        0 <= count <= IOV_MAX ==> (r matches Err(e) ==> e == Errno::EFAULT),
        r matches Ok(v) ==> {
            &&& v@.len() == count
            &&& (forall|k: int| 0 <= k < count ==> v@[k] == iovec_at(*m, ptr, k))
            &&& (forall|k: int|
                0 <= k < count ==> (#[trigger] v@[k]).len <= MEM_MAX)
        },
{
    if count < 0 || count as u64 > IOV_MAX {
        return Err(Errno::EINVAL);
    }
    let cnt = count as u64;
    if cnt > 0 && !m.check_read(ptr, 16 * cnt) {
        return Err(Errno::EFAULT);
    }
    let mut out: Vec<iovec_t> = Vec::new();
    let mut k: u64 = 0;
    while k < cnt
        invariant
            m.wf(),
            cnt <= IOV_MAX,
            cnt == count,
            0 <= count <= IOV_MAX,
            k <= cnt,
            cnt > 0 ==> m.readable(ptr, (16 * cnt) as u64),
            out@.len() == k,
            forall|j: int| 0 <= j < k ==> out@[j] == iovec_at(*m, ptr, j),
            forall|j: int|
                0 <= j < k ==> {
                    let v = #[trigger] iovec_at(*m, ptr, j);
                    if write {
                        m.writable(v.base, v.len)
                    } else {
                        m.readable(v.base, v.len)
                    }
                },
        decreases cnt - k,
    {
        proof {
            assert(m.readable((ptr + 16 * k) as u64, 8)) by {
                assert(forall|t: int| ptr <= t < ptr + 16 * cnt ==> m.read_perm()[t]);
            }
            assert(m.readable((ptr + 16 * k + 8) as u64, 8)) by {
                assert(forall|t: int| ptr <= t < ptr + 16 * cnt ==> m.read_perm()[t]);
            }
        }
        let base = match m.read_u64(ptr + 16 * k) {
            Ok(v) => v,
            Err(_) => {
                proof {
                    assert(false);
                }
                return Err(Errno::EFAULT);
            },
        };
        let len = match m.read_u64(ptr + 16 * k + 8) {
            Ok(v) => v,
            Err(_) => {
                proof {
                    assert(false);
                }
                return Err(Errno::EFAULT);
            },
        };
        let ok = if write {
            m.check_write(base, len)
        } else {
            m.check_read(base, len)
        };
        if !ok {
            proof {
                assert(iovec_at(*m, ptr, k as int) == iovec_t { base, len });
                assert(!iovecs_ok(*m, ptr, cnt as int, write));
            }
            return Err(Errno::EFAULT);
        }
        out.push(iovec_t { base, len });
        k = k + 1;
    }
    Ok(out)
}

/// Sum of the fragment lengths a descriptor sequence asks for.
pub open spec fn total_len(iovs: Seq<iovec_t>) -> int
    decreases iovs.len(),
{
    if iovs.len() == 0 {
        0
    } else {
        total_len(iovs.drop_last()) + iovs.last().len
    }
}

/// The bytes of one fragment, as caller memory holds them.
pub open spec fn frag_bytes(mem: Seq<u8>, v: iovec_t) -> Seq<u8> {
    if v.len == 0 {
        Seq::empty()
    } else {
        mem.subrange(v.base as int, v.base + v.len)
    }
}

/// The bytes of all fragments, joined in array order.
pub open spec fn gathered(mem: Seq<u8>, iovs: Seq<iovec_t>) -> Seq<u8>
    decreases iovs.len(),
{
    if iovs.len() == 0 {
        Seq::empty()
    } else {
        gathered(mem, iovs.drop_last()) + frag_bytes(mem, iovs.last())
    }
}

/// Joining readable fragments yields exactly the sum of their lengths.
pub proof fn lemma_gathered_len(m: UserMem, iovs: Seq<iovec_t>)
    requires
        forall|k: int| 0 <= k < iovs.len() ==> m.readable((#[trigger] iovs[k]).base, iovs[k].len),
    ensures
        gathered(m.mem(), iovs).len() == total_len(iovs),
    decreases iovs.len(),
{
    if iovs.len() > 0 {
        assert forall|k: int|
            0 <= k < iovs.drop_last().len() implies m.readable(
            (#[trigger] iovs.drop_last()[k]).base,
            iovs.drop_last()[k].len,
        ) by {
            assert(iovs.drop_last()[k] == iovs[k]);
            assert(m.readable(iovs[k].base, iovs[k].len));
        }
        lemma_gathered_len(m, iovs.drop_last());
        assert(m.readable(iovs.last().base, iovs.last().len));
        if iovs.last().len == 0 {
            assert(frag_bytes(m.mem(), iovs.last()).len() == 0);
        } else {
            assert(frag_bytes(m.mem(), iovs.last()).len() == iovs.last().len);
        }
    }
}

/// Sum of the fragment lengths, as a machine word.
pub fn total_len_exec(iovs: &Vec<iovec_t>) -> (r: u64)
    requires
        iovs@.len() <= IOV_MAX,
        forall|k: int| 0 <= k < iovs@.len() ==> (#[trigger] iovs@[k]).len <= MEM_MAX,
    ensures
        r == total_len(iovs@),
        r <= IOV_MAX * MEM_MAX,
{
    let n = iovs.len();
    let mut sum: u64 = 0;
    let mut i: usize = 0;
    while i < n
        invariant
            n == iovs@.len(),
            n <= IOV_MAX,
            forall|k: int| 0 <= k < n ==> (#[trigger] iovs@[k]).len <= MEM_MAX,
            i <= n,
            sum == total_len(iovs@.subrange(0, i as int)),
            sum <= i * MEM_MAX,
        decreases n - i,
    {
        proof {
            assert(iovs@.subrange(0, i + 1).drop_last() =~= iovs@.subrange(0, i as int));
            assert(iovs@.subrange(0, i + 1).last() == iovs@[i as int]);
            assert((i + 1) * MEM_MAX == i * MEM_MAX + MEM_MAX) by (nonlinear_arith);
        }
        sum = sum + iovs[i].len;
        i = i + 1;
    }
    proof {
        assert(iovs@.subrange(0, n as int) =~= iovs@);
        assert(n * MEM_MAX <= 1024 * MEM_MAX) by (nonlinear_arith)
            requires n <= 1024;
    }
    sum
}

/// Copy all fragments out of caller memory, joined in array order.
pub fn gather(m: &UserMem, iovs: &Vec<iovec_t>) -> (r: Vec<u8>)
    requires
        m.wf(),
        forall|k: int|
            0 <= k < iovs@.len() ==> m.readable((#[trigger] iovs@[k]).base, iovs@[k].len),
    ensures
        r@ == gathered(m.mem(), iovs@),
{
    let n = iovs.len();
    let mut out: Vec<u8> = Vec::new();
    let mut i: usize = 0;
    while i < n
        invariant
            m.wf(),
            n == iovs@.len(),
            forall|k: int|
                0 <= k < iovs@.len() ==> m.readable((#[trigger] iovs@[k]).base, iovs@[k].len),
            i <= n,
            out@ == gathered(m.mem(), iovs@.subrange(0, i as int)),
        decreases n - i,
    {
        let v = iovs[i];
        let frag = match m.read_range(v.base, v.len) {
            Ok(f) => f,
            Err(_) => {
                proof {
                    assert(false);
                }
                return Vec::new();
            },
        };
        let mut j: usize = 0;
        let flen = frag.len();
        proof {
            assert(iovs@.subrange(0, i + 1).drop_last() =~= iovs@.subrange(0, i as int));
            assert(iovs@.subrange(0, i + 1).last() == iovs@[i as int]);
            if v.len > 0 {
                assert(frag@ == frag_bytes(m.mem(), v));
            } else {
                assert(frag@ =~= Seq::<u8>::empty());
                assert(frag@ =~= frag_bytes(m.mem(), v));
            }
            assert(out@ =~= gathered(m.mem(), iovs@.subrange(0, i as int)) + frag@.subrange(0, 0));
        }
        while j < flen
            invariant
                flen == frag@.len(),
                j <= flen,
                out@ == gathered(m.mem(), iovs@.subrange(0, i as int)) + frag@.subrange(
                    0,
                    j as int,
                ),
            decreases flen - j,
        {
            out.push(frag[j]);
            proof {
                assert(out@ =~= gathered(m.mem(), iovs@.subrange(0, i as int)) + frag@.subrange(
                    0,
                    j + 1,
                ));
            }
            j = j + 1;
        }
        proof {
            assert(frag@.subrange(0, flen as int) =~= frag@);
            assert(out@ == gathered(m.mem(), iovs@.subrange(0, i + 1)));
        }
        i = i + 1;
    }
    proof {
        assert(iovs@.subrange(0, n as int) =~= iovs@);
    }
    out
}

/// Caller memory after writing `data` across the fragments in array
/// order, each fragment taking the next `len` bytes of `data` until it
/// runs out.
pub open spec fn scattered(mem: Seq<u8>, iovs: Seq<iovec_t>, data: Seq<u8>) -> Seq<u8>
    decreases iovs.len(),
{
    if iovs.len() == 0 {
        mem
    } else {
        let v = iovs[0];
        let l: int = if v.len <= data.len() {
            v.len as int
        } else {
            data.len() as int
        };
        let mem1 = if l > 0 {
            splice(mem, v.base as int, data.take(l))
        } else {
            mem
        };
        scattered(mem1, iovs.skip(1), data.skip(l))
    }
}

/// Write `data` across writable fragments in array order. Returns how
/// many bytes were placed: all of them, `data` never being longer than
/// the fragments' combined length here.
pub fn scatter(m: &mut UserMem, iovs: &Vec<iovec_t>, data: &Vec<u8>) -> (r: u64)
    requires
        old(m).wf(),
        forall|k: int|
            0 <= k < iovs@.len() ==> old(m).writable((#[trigger] iovs@[k]).base, iovs@[k].len),
        data@.len() <= total_len(iovs@),
    ensures
        final(m).wf(),
        final(m).size() == old(m).size(),
        final(m).same_perms(*old(m)),
        final(m).mem() == scattered(old(m).mem(), iovs@, data@),
        r == data@.len(),
{
    let n = iovs.len();
    let mut i: usize = 0;
    let mut consumed: usize = 0;
    proof {
        assert(iovs@.skip(0) =~= iovs@);
        assert(data@.skip(0) =~= data@);
    }
    while i < n
        invariant
            m.wf(),
            m.size() == old(m).size(),
            m.same_perms(*old(m)),
            n == iovs@.len(),
            i <= n,
            consumed <= data@.len(),
            data@.len() - consumed <= total_len(iovs@.skip(i as int)),
            forall|k: int|
                0 <= k < iovs@.len() ==> old(m).writable((#[trigger] iovs@[k]).base, iovs@[k].len),
            scattered(old(m).mem(), iovs@, data@) == scattered(
                m.mem(),
                iovs@.skip(i as int),
                data@.skip(consumed as int),
            ),
        decreases n - i,
    {
        let v = iovs[i];
        proof {
            let rest = iovs@.skip(i as int);
            assert(rest[0] == iovs@[i as int]);
            assert(rest.skip(1) =~= iovs@.skip(i + 1));
            lemma_total_len_first(rest);
            lemma_total_len_nonneg(iovs@.skip(i + 1));
        }
        let remaining = data.len() - consumed;
        let l: usize = if (v.len as usize) <= remaining {
            v.len as usize
        } else {
            remaining
        };
        let mut chunk: Vec<u8> = Vec::new();
        let mut j: usize = 0;
        while j < l
            invariant
                j <= l,
                consumed + l <= data@.len(),
                consumed + l <= usize::MAX,
                chunk@.len() == j,
                forall|t: int| 0 <= t < j ==> chunk@[t] == data@[consumed + t],
            decreases l - j,
        {
            chunk.push(data[consumed + j]);
            j = j + 1;
        }
        proof {
            assert(chunk@ =~= data@.skip(consumed as int).take(l as int));
            assert(m.writable(v.base, v.len));
            assert(m.writable(v.base, l as u64)) by {
                assert(forall|t: int| v.base <= t < v.base + v.len ==> m.write_perm()[t]);
            }
        }
        match m.write_range(v.base, &chunk) {
            Ok(_) => {},
            Err(_) => {
                proof {
                    assert(false);
                }
            },
        };
        proof {
            assert(data@.skip(consumed as int).skip(l as int) =~= data@.skip(consumed + l));
        }
        consumed = consumed + l;
        i = i + 1;
    }
    proof {
        assert(iovs@.skip(n as int) =~= Seq::<iovec_t>::empty());
        assert(data@.skip(consumed as int) =~= Seq::<u8>::empty());
        assert(scattered(m.mem(), Seq::<iovec_t>::empty(), Seq::<u8>::empty()) == m.mem());
    }
    consumed as u64
}

/// A fragment sum is never negative.
pub proof fn lemma_total_len_nonneg(iovs: Seq<iovec_t>)
    ensures
        total_len(iovs) >= 0,
    decreases iovs.len(),
{
    if iovs.len() > 0 {
        lemma_total_len_nonneg(iovs.drop_last());
    }
}

/// The fragment sum counted from the front.
pub proof fn lemma_total_len_first(iovs: Seq<iovec_t>)
    requires
        iovs.len() > 0,
    ensures
        total_len(iovs) == iovs[0].len + total_len(iovs.skip(1)),
    decreases iovs.len(),
{
    if iovs.len() == 1 {
        assert(iovs.skip(1) =~= Seq::<iovec_t>::empty());
        assert(iovs.drop_last() =~= Seq::<iovec_t>::empty());
    } else {
        lemma_total_len_first(iovs.drop_last());
        assert(iovs.drop_last()[0] == iovs[0]);
        assert(iovs.skip(1).drop_last() =~= iovs.drop_last().skip(1));
        assert(iovs.skip(1).last() == iovs.last());
    }
}

/// Command word of a foreign action record: close a descriptor.
pub const FDOP_CLOSE: u32 = 1;

/// Command word of a foreign action record: duplicate a descriptor.
pub const FDOP_DUP2: u32 = 2;

/// Command word of a foreign action record: open a path. Accepted as a
/// tag, but materializing it is a defined failure.
pub const FDOP_OPEN: u32 = 3;

/// Size in bytes of one foreign action record, fixed by the caller
/// runtime's record layout.
pub const FDOP_SIZE: u64 = 48;

/// Most nodes of the foreign action list the layer will traverse: the
/// caller declares termination by a null link, which cannot be verified,
/// so traversal is bounded to stay finite on a cyclic or absurd chain.
pub const FDOP_LIST_MAX: u64 = 1024;

/// One foreign action record, decoded from its fixed layout in caller
/// memory: `prev` at offset 0, `next` at 8, then `cmd`, `fd`, `srcfd`,
/// `oflag`, `mode` as 32-bit words from offset 16, and `path` at 40. The
/// field order is an ABI compatibility requirement of the caller runtime.
#[derive(Clone, Copy, PartialEq, Eq, Structural, Debug)]
pub struct FdOp {
    pub prev: u64,
    pub next: u64,
    pub cmd: u32,
    pub fd: u32,
    pub srcfd: u32,
    pub oflag: u32,
    pub mode: u32,
    pub path: u64,
}

/// The record stored at `a` in caller memory.
pub open spec fn fdop_at(m: UserMem, a: u64) -> FdOp {
    FdOp {
        prev: le64_at(m.mem(), a as int),
        next: le64_at(m.mem(), a + 8),
        cmd: le32_at(m.mem(), a + 16),
        fd: le32_at(m.mem(), a + 20),
        srcfd: le32_at(m.mem(), a + 24),
        oflag: le32_at(m.mem(), a + 28),
        mode: le32_at(m.mem(), a + 32),
        path: le64_at(m.mem(), a + 40),
    }
}

/// Validate-and-decode one foreign action record.
pub fn read_fdop(m: &UserMem, a: u64) -> (r: Result<FdOp, Errno>)
    requires
        m.wf(),
    ensures
        r is Ok <==> m.readable(a, FDOP_SIZE),
        r matches Ok(op) ==> op == fdop_at(*m, a),
        r matches Err(e) ==> e == Errno::EFAULT,
{
    if !m.check_read(a, FDOP_SIZE) {
        return Err(Errno::EFAULT);
    }
    proof {
        assert(forall|t: int| a <= t < a + FDOP_SIZE ==> m.read_perm()[t]);
        assert(m.readable(a, 8));
        assert(m.readable((a + 8) as u64, 8));
        assert(m.readable((a + 16) as u64, 4));
        assert(m.readable((a + 20) as u64, 4));
        assert(m.readable((a + 24) as u64, 4));
        assert(m.readable((a + 28) as u64, 4));
        assert(m.readable((a + 32) as u64, 4));
        assert(m.readable((a + 40) as u64, 8));
    }
    let prev = match m.read_u64(a) {
        Ok(v) => v,
        Err(_) => {
            proof {
                assert(false);
            }
            return Err(Errno::EFAULT);
        },
    };
    let next = match m.read_u64(a + 8) {
        Ok(v) => v,
        Err(_) => {
            proof {
                assert(false);
            }
            return Err(Errno::EFAULT);
        },
    };
    let cmd = match m.read_u32(a + 16) {
        Ok(v) => v,
        Err(_) => {
            proof {
                assert(false);
            }
            return Err(Errno::EFAULT);
        },
    };
    let fd = match m.read_u32(a + 20) {
        Ok(v) => v,
        Err(_) => {
            proof {
                assert(false);
            }
            return Err(Errno::EFAULT);
        },
    };
    let srcfd = match m.read_u32(a + 24) {
        Ok(v) => v,
        Err(_) => {
            proof {
                assert(false);
            }
            return Err(Errno::EFAULT);
        },
    };
    let oflag = match m.read_u32(a + 28) {
        Ok(v) => v,
        Err(_) => {
            proof {
                assert(false);
            }
            return Err(Errno::EFAULT);
        },
    };
    let mode = match m.read_u32(a + 32) {
        Ok(v) => v,
        Err(_) => {
            proof {
                assert(false);
            }
            return Err(Errno::EFAULT);
        },
    };
    let path = match m.read_u64(a + 40) {
        Ok(v) => v,
        Err(_) => {
            proof {
                assert(false);
            }
            return Err(Errno::EFAULT);
        },
    };
    Ok(FdOp { prev, next, cmd, fd, srcfd, oflag, mode, path })
}

/// The typed actions materialized by walking the foreign action list from
/// `ptr` with `fuel` traversal steps left, or the first error: a fault for
/// an unreadable node, `EINVAL` for an open-kind or unknown command, a
/// length error when the bounded traversal gives out before a null link.
pub open spec fn actions_from(m: UserMem, ptr: u64, fuel: nat) -> Result<Seq<FileAction>, Errno>
    decreases fuel,
{
    if ptr == 0 {
        Ok(Seq::empty())
    } else if fuel == 0 {
        Err(Errno::ENAMETOOLONG)
    } else if !m.readable(ptr, FDOP_SIZE) {
        Err(Errno::EFAULT)
    } else {
        let node = fdop_at(m, ptr);
        if node.cmd == FDOP_CLOSE || node.cmd == FDOP_DUP2 {
            let act = if node.cmd == FDOP_CLOSE {
                FileAction::Close(node.fd)
            } else {
                FileAction::Dup2(node.srcfd, node.fd)
            };
            match actions_from(m, node.next, (fuel - 1) as nat) {
                Ok(t) => Ok(seq![act] + t),
                Err(e) => Err(e),
            }
        } else {
            Err(Errno::EINVAL)
        }
    }
}

/// Walk the caller's action-record list and materialize every action, in
/// list order, atomically: any unreadable node, any open-kind or unknown
/// command, or a chain longer than the traversal bound fails the whole
/// parse, and the spawn it serves must then create nothing.
pub fn clone_file_actions_safely(m: &UserMem, fdop_ptr: u64) -> (r: Result<Vec<FileAction>, Errno>)
    requires
        m.wf(),
    ensures
        r matches Ok(v) ==> actions_from(*m, fdop_ptr, FDOP_LIST_MAX as nat) == Ok::<
            Seq<FileAction>,
            Errno,
        >(v@),
        r matches Err(e) ==> actions_from(*m, fdop_ptr, FDOP_LIST_MAX as nat) == Err::<
            Seq<FileAction>,
            Errno,
        >(e),
{
    let mut out: Vec<FileAction> = Vec::new();
    let mut cur = fdop_ptr;
    let mut fuel: u64 = FDOP_LIST_MAX;
    while cur != 0
        invariant
            m.wf(),
            fuel <= FDOP_LIST_MAX,
            match actions_from(*m, cur, fuel as nat) {
                Ok(t) => actions_from(*m, fdop_ptr, FDOP_LIST_MAX as nat) == Ok::<
                    Seq<FileAction>,
                    Errno,
                >(out@ + t),
                Err(e) => actions_from(*m, fdop_ptr, FDOP_LIST_MAX as nat) == Err::<
                    Seq<FileAction>,
                    Errno,
                >(e),
            },
        decreases fuel,
    {
        if fuel == 0 {
            return Err(Errno::ENAMETOOLONG);
        }
        let node = match read_fdop(m, cur) {
            Ok(n) => n,
            Err(_) => {
                return Err(Errno::EFAULT);
            },
        };
        let act = if node.cmd == FDOP_CLOSE {
            FileAction::Close(node.fd)
        } else if node.cmd == FDOP_DUP2 {
            FileAction::Dup2(node.srcfd, node.fd)
        } else {
            return Err(Errno::EINVAL);
        };
        proof {
            let t_next = actions_from(*m, node.next, (fuel - 1) as nat);
            if t_next is Ok {
                assert((out@ + seq![act]) + t_next->Ok_0 =~= out@ + (seq![act] + t_next->Ok_0));
            }
            assert(out@.push(act) =~= out@ + seq![act]);
        }
        out.push(act);
        cur = node.next;
        fuel = fuel - 1;
    }
    proof {
        assert(out@ + Seq::<FileAction>::empty() =~= out@);
    }
    Ok(out)
}

} // verus!
