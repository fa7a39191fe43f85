//! A toy byte-addressable memory: one flat buffer, a bump-allocated heap
//! growing up from a fixed base toward the stack top.
use vstd::prelude::*;
use vstd::string::StringSliceAdditionalSpecFns;

verus! {

/// Bytes of memory: 1 MiB.
pub const SIZE: usize = 1048576;

/// Where the heap starts.
pub const HEAP_BASE: usize = 0x5000;

/// The stack's top address; the heap must stay below it.
pub const STACK_TOP: usize = 0xFFFFF;

/// The longest string `read_string` returns, in chars.
pub const MAX_STRING: usize = 1001;

/// Relies on String::push: appends one char.
#[verifier::external_body]
fn push_char(s: &mut String, c: char)
    ensures
        final(s)@ == old(s)@.push(c),
{
    s.push(c)
}

/// A fresh buffer: `SIZE` zero bytes.
pub fn default_buffer() -> (r: Vec<u8>)
    ensures
        r@ == Seq::new(SIZE as nat, |i: int| 0u8),
{
    let r = vec![0u8; SIZE];
    assert(r@ =~= Seq::new(SIZE as nat, |i: int| 0u8));
    r
}

/// The little-endian `i32` of four bytes.
pub open spec fn le_i32(b0: u8, b1: u8, b2: u8, b3: u8) -> i32 {
    ((b0 as u32) | ((b1 as u32) << 8u32) | ((b2 as u32) << 16u32) | ((b3 as u32) << 24u32)) as i32
}

/// The byte of `v` (in two's complement) that starts `shift` bits up.
pub open spec fn le_byte(v: i32, shift: u32) -> u8 {
    ((#[verifier::truncate] (v as u32) >> shift) & 0xffu32) as u8
}

/// What `read_string` reads from `addr`: the bytes up to the first zero,
/// the end of memory or `MAX_STRING` chars, each taken as one char.
pub open spec fn c_string_from(buf: Seq<u8>, addr: int, ptr: int) -> Seq<char>
    decreases SIZE - ptr,
{
    if ptr < 0 || ptr >= SIZE || ptr >= buf.len() || buf[ptr] == 0 {
        Seq::empty()
    } else if ptr + 1 - addr > 1000 {
        seq![buf[ptr] as char]
    } else {
        seq![buf[ptr] as char] + c_string_from(buf, addr, ptr + 1)
    }
}

/// The memory after writing the bytes `b` at `addr`, then a zero: writes
/// past the end are dropped.
pub open spec fn with_c_string(buf: Seq<u8>, addr: int, b: Seq<u8>) -> Seq<u8> {
    Seq::new(
        buf.len(),
        |j: int|
            if addr <= j < addr + b.len() {
                b[j - addr]
            } else if j == addr + b.len() {
                0u8
            } else {
                buf[j]
            },
    )
}

/// The VM's memory.
pub struct Memory {
    pub buffer: Vec<u8>,
    pub heap_ptr: usize,
}

impl Default for Memory {
    fn default() -> (r: Memory)
        ensures
            r.wf(),
            r.buffer@ == Seq::new(SIZE as nat, |i: int| 0u8),
            r.heap_ptr == HEAP_BASE,
    {
        Memory::new()
    }
}

impl Memory {
    /// The buffer spans all of memory.
    pub open spec fn wf(&self) -> bool {
        self.buffer@.len() == SIZE
    }

    /// All zeros, heap empty.
    pub fn new() -> (r: Memory)
        ensures
            r.wf(),
            r.buffer@ == Seq::new(SIZE as nat, |i: int| 0u8),
            r.heap_ptr == HEAP_BASE,
    {
        Memory { buffer: default_buffer(), heap_ptr: HEAP_BASE }
    }

    /// Zeroes every byte and empties the heap.
    pub fn reset(&mut self)
        ensures
            final(self).buffer@ == Seq::new(old(self).buffer@.len(), |i: int| 0u8),
            final(self).heap_ptr == HEAP_BASE,
    {
        let n = self.buffer.len();
        let mut i: usize = 0;
        while i < n
            invariant
                n == self.buffer@.len(),
                i <= n,
                forall|k: int| 0 <= k < i ==> self.buffer@[k] == 0u8,
            decreases n - i,
        {
            self.buffer.set(i, 0);
            i = i + 1;
        }
        assert(self.buffer@ =~= Seq::new(n as nat, |i: int| 0u8));
        self.heap_ptr = HEAP_BASE;
    }

    /// The byte at `addr`, zero outside memory.
    pub fn read8(&self, addr: usize) -> (r: u8)
        ensures
            r == (if addr < self.buffer@.len() { self.buffer@[addr as int] } else { 0u8 }),
    {
        if addr < self.buffer.len() {
            self.buffer[addr]
        } else {
            0
        }
    }

    /// Stores `val` at `addr`; a write outside memory is dropped.
    pub fn write8(&mut self, addr: usize, val: u8)
        requires
            old(self).wf(),
        ensures
            final(self).heap_ptr == old(self).heap_ptr,
            final(self).buffer@ == (if addr < SIZE {
                old(self).buffer@.update(addr as int, val)
            } else {
                old(self).buffer@
            }),
    {
        if addr < SIZE {
            self.buffer.set(addr, val);
        }
    }

    /// The little-endian `i32` at `addr`, zero where it does not fit in memory.
    pub fn read32(&self, addr: usize) -> (r: i32)
        requires
            self.wf(),
        ensures
            r == (if addr <= SIZE - 4 {
                le_i32(
                    self.buffer@[addr as int],
                    self.buffer@[addr + 1],
                    self.buffer@[addr + 2],
                    self.buffer@[addr + 3],
                )
            } else {
                0i32
            }),
    {
        if addr <= SIZE - 4 {
            let b0 = self.buffer[addr] as u32;
            let b1 = self.buffer[addr + 1] as u32;
            let b2 = self.buffer[addr + 2] as u32;
            let b3 = self.buffer[addr + 3] as u32;
            (b0 | (b1 << 8u32) | (b2 << 16u32) | (b3 << 24u32)) as i32
        } else {
            0
        }
    }

    /// Stores `val` little-endian at `addr`; a write that does not fit in
    /// memory is dropped.
    pub fn write32(&mut self, addr: usize, val: i32)
        requires
            old(self).wf(),
        ensures
            final(self).heap_ptr == old(self).heap_ptr,
            final(self).buffer@ == (if addr <= SIZE - 4 {
                old(self).buffer@.update(addr as int, le_byte(val, 0u32)).update(
                    addr + 1,
                    le_byte(val, 8u32),
                ).update(addr + 2, le_byte(val, 16u32)).update(addr + 3, le_byte(val, 24u32))
            } else {
                old(self).buffer@
            }),
    {
        if addr <= SIZE - 4 {
            let u = #[verifier::truncate] (val as u32);
            self.buffer.set(addr, ((u >> 0u32) & 0xffu32) as u8);
            self.buffer.set(addr + 1, ((u >> 8u32) & 0xffu32) as u8);
            self.buffer.set(addr + 2, ((u >> 16u32) & 0xffu32) as u8);
            self.buffer.set(addr + 3, ((u >> 24u32) & 0xffu32) as u8);
        }
    }

    /// Stores the UTF-8 bytes of `s` at `addr` followed by a zero; bytes
    /// that fall outside memory are dropped.
    pub fn write_string(&mut self, addr: usize, s: &str)
        requires
            old(self).wf(),
            addr + s.spec_bytes().len() <= usize::MAX,
        ensures
            final(self).wf(),
            final(self).heap_ptr == old(self).heap_ptr,
            final(self).buffer@ == with_c_string(old(self).buffer@, addr as int, s.spec_bytes()),
    {
        let bytes = s.as_bytes();
        let n = bytes.len();
        let ghost start = self.buffer@;
        let mut i: usize = 0;
        while i < n
            invariant
                n == bytes@.len(),
                bytes@ == s.spec_bytes(),
                addr + n <= usize::MAX,
                i <= n,
                self.wf(),
                self.heap_ptr == old(self).heap_ptr,
                start == old(self).buffer@,
                forall|j: int|
                    0 <= j < SIZE ==> self.buffer@[j] == (if addr <= j < addr + i {
                        bytes@[j - addr]
                    } else {
                        start[j]
                    }),
            decreases n - i,
        {
            self.write8(addr + i, bytes[i]);
            i = i + 1;
        }
        self.write8(addr + n, 0);
        assert(self.buffer@ =~= with_c_string(start, addr as int, bytes@));
    }

    /// The string at `addr`: its bytes up to the first zero, the end of
    /// memory or `MAX_STRING` chars, each byte taken as one char.
    pub fn read_string(&self, addr: usize) -> (r: String)
        requires
            self.wf(),
        ensures
            r@ == c_string_from(self.buffer@, addr as int, addr as int),
    {
        let mut s = String::new();
        let mut ptr = addr;
        let ghost full = c_string_from(self.buffer@, addr as int, addr as int);
        while ptr < SIZE && ptr - addr <= 1000
            invariant_except_break
                self.wf(),
                addr <= ptr,
                ptr - addr <= 1000 ==> s@ + c_string_from(self.buffer@, addr as int, ptr as int)
                    == full,
                ptr - addr > 1000 ==> s@ == full,
            ensures
                s@ == full,
            decreases SIZE - ptr,
        {
            let byte = self.read8(ptr);
            if byte == 0 {
                assert(c_string_from(self.buffer@, addr as int, ptr as int) =~= Seq::<char>::empty());
                assert(s@ =~= full);
                break;
            }
            let ghost before = s@;
            push_char(&mut s, byte as char);
            ptr = ptr + 1;
            assert(ptr - addr > 1000 ==> s@ =~= before + c_string_from(self.buffer@, addr as int, ptr - 1));
            assert(ptr - addr <= 1000 ==> s@ + c_string_from(self.buffer@, addr as int, ptr as int) =~= before
                + c_string_from(self.buffer@, addr as int, ptr - 1));
        }
        s
    }

    /// Reserves `size` bytes of heap and returns where they start. The heap
    /// pointer advances even when the heap runs into the stack, which is
    /// then reported as an error.
    pub fn malloc(&mut self, size: usize) -> (r: Result<usize, String>)
        requires
            old(self).heap_ptr + size <= usize::MAX,
        ensures
            final(self).buffer@ == old(self).buffer@,
            final(self).heap_ptr == old(self).heap_ptr + size,
            final(self).heap_ptr < STACK_TOP ==> r == Ok::<usize, String>(old(self).heap_ptr),
            final(self).heap_ptr >= STACK_TOP ==> r is Err && r->Err_0@
                == "Out of Memory (Heap Collision)"@,
    {
        let ptr = self.heap_ptr;
        self.heap_ptr = self.heap_ptr + size;
        if self.heap_ptr >= STACK_TOP {
            return Err("Out of Memory (Heap Collision)".to_string());
        }
        Ok(ptr)
    }

    /// Heap bytes reserved so far.
    pub fn get_usage(&self) -> (r: usize)
        requires
            self.heap_ptr >= HEAP_BASE,
        ensures
            r == self.heap_ptr - HEAP_BASE,
    {
        self.heap_ptr - HEAP_BASE
    }
}

} // verus!
