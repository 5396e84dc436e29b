use vstd::prelude::*;

verus! {

/// A contiguous stretch of physical memory starting at address `base`:
/// `bytes[i]` is the byte at address `base + i`.
pub struct PhysMem {
    pub base: usize,
    pub bytes: Vec<u8>,
}

/// `s` with the `len` bytes from offset `off` set to zero.
pub open spec fn zero_range(s: Seq<u8>, off: int, len: int) -> Seq<u8> {
    Seq::new(s.len(), |i: int| if off <= i < off + len { 0u8 } else { s[i] })
}

/// `s` with the `len` bytes from offset `dst` replaced by the `len` bytes of
/// `s` from offset `src`.
pub open spec fn copy_range(s: Seq<u8>, src: int, dst: int, len: int) -> Seq<u8> {
    Seq::new(s.len(), |i: int| if dst <= i < dst + len { s[src + (i - dst)] } else { s[i] })
}

/// Zeroing keeps the length, zeroes exactly the `len` bytes from `off`, and
/// leaves every other byte as it was.
pub proof fn lemma_zero_range(s: Seq<u8>, off: int, len: int)
    ensures
        zero_range(s, off, len).len() == s.len(),
        forall|i: int| 0 <= i < s.len() && off <= i < off + len ==> #[trigger] zero_range(s, off, len)[i] == 0,
        forall|i: int| 0 <= i < s.len() && !(off <= i < off + len) ==> #[trigger] zero_range(s, off, len)[i] == s[i],
{
}

/// Copying keeps the length, puts the byte from `src + k` at `dst + k` for
/// each `k < len`, and leaves every other byte as it was.
pub proof fn lemma_copy_range(s: Seq<u8>, src: int, dst: int, len: int)
    ensures
        copy_range(s, src, dst, len).len() == s.len(),
        forall|k: int| 0 <= k < len && 0 <= dst + k < s.len() ==> #[trigger] copy_range(s, src, dst, len)[dst + k] == s[src + k],
        forall|i: int| 0 <= i < s.len() && !(dst <= i < dst + len) ==> #[trigger] copy_range(s, src, dst, len)[i] == s[i],
{
    assert forall|k: int| 0 <= k < len && 0 <= dst + k < s.len() implies #[trigger] copy_range(s, src, dst, len)[dst + k]
        == s[src + k] by {
        assert(src + ((dst + k) - dst) == src + k);
    }
}

impl PhysMem {
    /// One past the last address held.
    pub open spec fn end(&self) -> int {
        self.base + self.bytes.len()
    }

    /// The held addresses lie within the address space.
    pub open spec fn wf(&self) -> bool {
        self.end() <= usize::MAX + 1
    }

    /// Whether the `len` bytes from address `addr` are all held.
    pub open spec fn covers(&self, addr: int, len: int) -> bool {
        &&& 0 <= len
        &&& self.base <= addr
        &&& addr + len <= self.end()
    }

    /// The byte at address `addr`.
    pub open spec fn byte_at(&self, addr: int) -> u8 {
        self.bytes@[addr - self.base]
    }

    /// Sets the `len` bytes from address `addr` to zero.
    pub fn fill_zero(&mut self, addr: usize, len: usize)
        requires
            old(self).covers(addr as int, len as int),
        ensures
            final(self).base == old(self).base,
            final(self).bytes@ == zero_range(old(self).bytes@, addr - old(self).base, len as int),
    {
        let off = addr - self.base;
        let ghost s0 = self.bytes@;
        let mut i: usize = 0;
        while i < len
            invariant
                self.base == old(self).base,
                s0 == old(self).bytes@,
                off == addr - self.base,
                off + len <= s0.len(),
                s0.len() <= usize::MAX,
                i <= len,
                self.bytes@.len() == s0.len(),
                forall|j: int| 0 <= j < s0.len() ==> #[trigger] self.bytes@[j] == if off <= j < off + i { 0u8 } else { s0[j] },
            decreases len - i,
        {
            self.bytes.set(off + i, 0);
            i += 1;
        }
        assert(self.bytes@ =~= zero_range(s0, off as int, len as int));
    }

    /// Copies the `len` bytes at address `src` to address `dst`; the bytes
    /// written are those held at `src` before the copy.
    pub fn copy_bytes(&mut self, src: usize, dst: usize, len: usize)
        requires
            old(self).covers(src as int, len as int),
            old(self).covers(dst as int, len as int),
        ensures
            final(self).base == old(self).base,
            final(self).bytes@ == copy_range(
                old(self).bytes@,
                src - old(self).base,
                dst - old(self).base,
                len as int,
            ),
    {
        let src_off = src - self.base;
        let dst_off = dst - self.base;
        let ghost s0 = self.bytes@;
        let mut tmp: Vec<u8> = Vec::new();
        let mut i: usize = 0;
        while i < len
            invariant
                s0 == self.bytes@,
                src_off + len <= s0.len(),
                s0.len() <= usize::MAX,
                i <= len,
                tmp.len() == i,
                forall|j: int| 0 <= j < i ==> #[trigger] tmp@[j] == s0[src_off + j],
            decreases len - i,
        {
            tmp.push(self.bytes[src_off + i]);
            i += 1;
        }
        let mut i: usize = 0;
        while i < len
            invariant
                self.base == old(self).base,
                s0 == old(self).bytes@,
                dst_off + len <= s0.len(),
                src_off + len <= s0.len(),
                s0.len() <= usize::MAX,
                i <= len,
                tmp.len() == len,
                forall|j: int| 0 <= j < len ==> #[trigger] tmp@[j] == s0[src_off + j],
                self.bytes@.len() == s0.len(),
                forall|j: int|
                    0 <= j < s0.len() ==> #[trigger] self.bytes@[j] == if dst_off <= j < dst_off + i {
                        s0[src_off + (j - dst_off)]
                    } else {
                        s0[j]
                    },
            decreases len - i,
        {
            self.bytes.set(dst_off + i, tmp[i]);
            i += 1;
        }
        assert(self.bytes@ =~= copy_range(s0, src_off as int, dst_off as int, len as int));
    }
}

/// Zeroes the memory from `start` up to (not including) `end`: the
/// uninitialised-data section of a program.
pub fn clear_bss(mem: &mut PhysMem, start: usize, end: usize)
    requires
        start <= end,
        old(mem).covers(start as int, end - start),
    ensures
        final(mem).base == old(mem).base,
        final(mem).bytes@ == zero_range(old(mem).bytes@, start - old(mem).base, end - start),
{
    mem.fill_zero(start, end - start);
}

} // verus!
