use vstd::prelude::*;
use std::collections::HashMap;
use crate::memory::{le_u32, le_u64, u32_from_le};

verus! {

broadcast use vstd::std_specs::hash::group_hash_axioms;

/// Size of the unit in which target memory is fetched and cached.
pub const PAGE_SIZE: u64 = 0x1000;

/// Why a read at target addresses did not produce a value.
#[derive(Debug, Clone, Copy, PartialEq, Eq, Structural)]
pub enum Fault {
    /// The page with this number has not been fetched yet: fetch it and run
    /// the computation again.
    Missing(u64),
    /// The bytes lie in memory that the target does not map for reading.
    Unreadable,
}

/// What is known of the target's memory: for each fetched page number, its
/// bytes, or `None` when the page could not be read.
pub type PageMap = Map<u64, Option<Seq<u8>>>;

/// The byte at address `a`. A page shorter than `PAGE_SIZE` holds only its
/// first bytes; the rest of it reads as unmapped.
pub closed spec fn byte_at(m: PageMap, a: int) -> Result<u8, Fault> {
    let p = (a / PAGE_SIZE as int) as u64;
    let off = a % PAGE_SIZE as int;
    if !m.contains_key(p) {
        Err(Fault::Missing(p))
    } else {
        match m[p] {
            Some(b) => if off < b.len() {
                Ok(b[off])
            } else {
                Err(Fault::Unreadable)
            },
            None => Err(Fault::Unreadable),
        }
    }
}

/// The `n` bytes from address `a` on, read in order; the first byte that
/// cannot be read decides the fault.
pub closed spec fn bytes_from(m: PageMap, a: int, n: nat) -> Result<Seq<u8>, Fault>
    decreases n,
{
    if n == 0 {
        Ok(Seq::empty())
    } else {
        match bytes_from(m, a, (n - 1) as nat) {
            Err(f) => Err(f),
            Ok(s) => match byte_at(m, a + n - 1) {
                Err(f) => Err(f),
                Ok(b) => Ok(s.push(b)),
            },
        }
    }
}

/// A read of `n` bytes at `a`; one that reaches the last byte of the
/// address space fails.
pub closed spec fn read_at(m: PageMap, a: u64, n: nat) -> Result<Seq<u8>, Fault> {
    if a + n > u64::MAX {
        Err(Fault::Unreadable)
    } else {
        bytes_from(m, a as int, n)
    }
}

pub closed spec fn u8_at(m: PageMap, a: u64) -> Result<u8, Fault> {
    match read_at(m, a, 1) {
        Ok(s) => Ok(s[0]),
        Err(f) => Err(f),
    }
}

pub closed spec fn u16_at(m: PageMap, a: u64) -> Result<u16, Fault> {
    match read_at(m, a, 2) {
        Ok(s) => Ok((s[0] + s[1] * 0x100) as u16),
        Err(f) => Err(f),
    }
}

pub closed spec fn u32_at(m: PageMap, a: u64) -> Result<u32, Fault> {
    match read_at(m, a, 4) {
        Ok(s) => Ok(le_u32(s, 0)),
        Err(f) => Err(f),
    }
}

/// Two's complement reading of the four bytes at `a`.
pub closed spec fn i32_at(m: PageMap, a: u64) -> Result<i32, Fault> {
    match u32_at(m, a) {
        Ok(v) => Ok(v as i32),
        Err(f) => Err(f),
    }
}

pub closed spec fn u64_at(m: PageMap, a: u64) -> Result<u64, Fault> {
    match read_at(m, a, 8) {
        Ok(s) => Ok(le_u64(s, 0)),
        Err(f) => Err(f),
    }
}

/// The NUL-terminated string at `a`. It also ends before the first byte that
/// cannot be read, and at the top of the address space; only a page not yet
/// fetched makes it fail.
pub closed spec fn string_at(m: PageMap, a: u64) -> Result<Seq<u8>, Fault>
    decreases u64::MAX - a,
{
    match byte_at(m, a as int) {
        Err(Fault::Missing(p)) => Err(Fault::Missing(p)),
        Err(Fault::Unreadable) => Ok(Seq::empty()),
        Ok(b) => if b == 0 {
            Ok(Seq::empty())
        } else if a == u64::MAX {
            Ok(seq![b])
        } else {
            match string_at(m, (a + 1) as u64) {
                Ok(s) => Ok(seq![b] + s),
                Err(f) => Err(f),
            }
        },
    }
}

/// Once a prefix of a read fails, the whole read fails the same way.
proof fn lemma_fault_persists(m: PageMap, a: int, k: nat, n: nat)
    requires
        k <= n,
        bytes_from(m, a, k) is Err,
    ensures
        bytes_from(m, a, n) == bytes_from(m, a, k),
    decreases n - k,
{
    if k < n {
        lemma_fault_persists(m, a, k, (n - 1) as nat);
    }
}

/// Where a byte within a page lies.
proof fn lemma_page_position(a: u64, j: int)
    requires
        0 <= j,
        a % PAGE_SIZE + j < PAGE_SIZE,
    ensures
        ((a + j) / PAGE_SIZE as int) as u64 == a / PAGE_SIZE,
        (a + j) % PAGE_SIZE as int == a % PAGE_SIZE + j,
{
    let q = a / PAGE_SIZE;
    let r = a % PAGE_SIZE;
    assert(a == q * PAGE_SIZE + r);
    assert((q * 4096 + (r + j)) / 4096 == q && (q * 4096 + (r + j)) % 4096 == r + j) by (nonlinear_arith)
        requires
            0 <= r + j < 4096,
            q >= 0,
    ;
}

proof fn lemma_bytes_in_page(m: PageMap, a: u64, n: nat)
    requires
        m.contains_key(a / PAGE_SIZE),
        m[a / PAGE_SIZE] is Some,
        a % PAGE_SIZE + n <= m[a / PAGE_SIZE]->Some_0.len(),
        a % PAGE_SIZE + n <= PAGE_SIZE,
    ensures
        bytes_from(m, a as int, n) == Ok::<Seq<u8>, Fault>(
            m[a / PAGE_SIZE]->Some_0.subrange((a % PAGE_SIZE) as int, a % PAGE_SIZE + n),
        ),
    decreases n,
{
    let page = m[a / PAGE_SIZE]->Some_0;
    let off = (a % PAGE_SIZE) as int;
    if n > 0 {
        lemma_bytes_in_page(m, a, (n - 1) as nat);
        lemma_page_position(a, n - 1);
        assert(byte_at(m, a + n - 1) == Ok::<u8, Fault>(page[off + n - 1]));
        assert(page.subrange(off, off + n - 1).push(page[off + n - 1]) =~= page.subrange(off, off + n));
    } else {
        assert(page.subrange(off, off) =~= Seq::<u8>::empty());
    }
}

/// A read that lies within one fetched, mapped page gives that page's bytes.
pub proof fn lemma_read_in_page(m: PageMap, a: u64, n: nat)
    requires
        m.contains_key(a / PAGE_SIZE),
        m[a / PAGE_SIZE] is Some,
        a % PAGE_SIZE + n <= m[a / PAGE_SIZE]->Some_0.len(),
        a % PAGE_SIZE + n <= PAGE_SIZE,
        a + n <= u64::MAX,
    ensures
        read_at(m, a, n) == Ok::<Seq<u8>, Fault>(
            m[a / PAGE_SIZE]->Some_0.subrange((a % PAGE_SIZE) as int, a % PAGE_SIZE + n),
        ),
{
    lemma_bytes_in_page(m, a, n);
}

/// A read whose first byte lies in a page not fetched yet asks for that page.
pub proof fn lemma_read_missing(m: PageMap, a: u64, n: nat)
    requires
        !m.contains_key(a / PAGE_SIZE),
        n > 0,
        a + n <= u64::MAX,
    ensures
        read_at(m, a, n) == Err::<Seq<u8>, Fault>(Fault::Missing(a / PAGE_SIZE)),
{
    assert(bytes_from(m, a as int, 0) == Ok::<Seq<u8>, Fault>(Seq::empty()));
    assert(bytes_from(m, a as int, 1) == Err::<Seq<u8>, Fault>(Fault::Missing(a / PAGE_SIZE)));
    lemma_fault_persists(m, a as int, 1, n);
}

/// The typed reads within one fetched, mapped page.
pub proof fn lemma_values_in_page(m: PageMap, a: u64, n: nat)
    requires
        m.contains_key(a / PAGE_SIZE),
        m[a / PAGE_SIZE] is Some,
        n == 1 || n == 2 || n == 4 || n == 8,
        a % PAGE_SIZE + n <= m[a / PAGE_SIZE]->Some_0.len(),
        a % PAGE_SIZE + n <= PAGE_SIZE,
        a + n <= u64::MAX,
    ensures
        ({
            let page = m[a / PAGE_SIZE]->Some_0;
            let off = (a % PAGE_SIZE) as int;
            &&& n == 1 ==> u8_at(m, a) == Ok::<u8, Fault>(page[off])
            &&& n == 2 ==> u16_at(m, a) == Ok::<u16, Fault>((page[off] + page[off + 1] * 0x100) as u16)
            &&& n == 4 ==> u32_at(m, a) == Ok::<u32, Fault>(le_u32(page, off))
            &&& n == 4 ==> i32_at(m, a) == Ok::<i32, Fault>(le_u32(page, off) as i32)
            &&& n == 8 ==> u64_at(m, a) == Ok::<u64, Fault>(le_u64(page, off))
        }),
{
    lemma_read_in_page(m, a, n);
}

/// The part of the target's memory that has been fetched so far.
pub struct PageCache {
    pages: HashMap<u64, Option<Vec<u8>>>,
}

impl PageCache {
    pub closed spec fn view(&self) -> PageMap {
        self.pages@.map_values(|v: Option<Vec<u8>>| match v {
            Some(b) => Some(b@),
            None => None,
        })
    }

    /// A cache that knows no page yet.
    pub fn new() -> (r: PageCache)
        ensures
            r@ == PageMap::empty(),
    {
        let r = PageCache { pages: HashMap::new() };
        assert(r@ =~= PageMap::empty());
        r
    }

    /// Records what a fetch of page `page` gave: its bytes, or `None` when the
    /// target does not map it.
    pub fn insert_page(&mut self, page: u64, contents: Option<Vec<u8>>)
        ensures
            final(self)@ == old(self)@.insert(
                page,
                match contents {
                    Some(b) => Some(b@),
                    None => None,
                },
            ),
    {
        self.pages.insert(page, contents);
        assert(self@ =~= old(self)@.insert(
            page,
            match contents {
                Some(b) => Some(b@),
                None => None,
            },
        ));
    }

    /// The byte at address `a`.
    pub fn byte(&self, a: u64) -> (r: Result<u8, Fault>)
        ensures
            r == byte_at(self@, a as int),
    {
        let p = a / PAGE_SIZE;
        let off = (a % PAGE_SIZE) as usize;
        match self.pages.get(&p) {
            None => Err(Fault::Missing(p)),
            Some(None) => Err(Fault::Unreadable),
            Some(Some(b)) => if off < b.len() {
                Ok(b[off])
            } else {
                Err(Fault::Unreadable)
            },
        }
    }

    /// `n` bytes at address `a`.
    pub fn read_bytes(&self, a: u64, n: u64) -> (r: Result<Vec<u8>, Fault>)
        ensures
            match r {
                Ok(v) => read_at(self@, a, n as nat) == Ok::<Seq<u8>, Fault>(v@) && v@.len() == n,
                Err(f) => read_at(self@, a, n as nat) == Err::<Seq<u8>, Fault>(f),
            },
    {
        if n > u64::MAX - a {
            return Err(Fault::Unreadable);
        }
        let mut out: Vec<u8> = Vec::new();
        let mut k: u64 = 0;
        while k < n
            invariant
                k <= n,
                a + n <= u64::MAX,
                out@.len() == k,
                bytes_from(self@, a as int, k as nat) == Ok::<Seq<u8>, Fault>(out@),
            decreases n - k,
        {
            match self.byte(a + k) {
                Ok(b) => {
                    out.push(b);
                    k = k + 1;
                },
                Err(f) => {
                    proof {
                        lemma_fault_persists(self@, a as int, (k + 1) as nat, n as nat);
                    }
                    return Err(f);
                },
            }
        }
        Ok(out)
    }

    pub fn read_u8(&self, a: u64) -> (r: Result<u8, Fault>)
        ensures
            r == u8_at(self@, a),
    {
        match self.read_bytes(a, 1) {
            Ok(v) => Ok(v[0]),
            Err(f) => Err(f),
        }
    }

    pub fn read_u16(&self, a: u64) -> (r: Result<u16, Fault>)
        ensures
            r == u16_at(self@, a),
    {
        match self.read_bytes(a, 2) {
            Ok(v) => Ok(v[0] as u16 + v[1] as u16 * 0x100),
            Err(f) => Err(f),
        }
    }

    pub fn read_u32(&self, a: u64) -> (r: Result<u32, Fault>)
        ensures
            r == u32_at(self@, a),
    {
        match self.read_bytes(a, 4) {
            Ok(v) => Ok(u32_from_le(v[0], v[1], v[2], v[3])),
            Err(f) => Err(f),
        }
    }

    pub fn read_i32(&self, a: u64) -> (r: Result<i32, Fault>)
        ensures
            r == i32_at(self@, a),
    {
        match self.read_u32(a) {
            Ok(v) => Ok(v as i32),
            Err(f) => Err(f),
        }
    }

    pub fn read_u64(&self, a: u64) -> (r: Result<u64, Fault>)
        ensures
            r == u64_at(self@, a),
    {
        match self.read_bytes(a, 8) {
            Ok(v) => {
                let lo = u32_from_le(v[0], v[1], v[2], v[3]);
                let hi = u32_from_le(v[4], v[5], v[6], v[7]);
                Ok(lo as u64 + hi as u64 * 0x1_0000_0000)
            },
            Err(f) => Err(f),
        }
    }

    /// The NUL-terminated string at `a`, as raw bytes.
    pub fn read_string(&self, a: u64) -> (r: Result<Vec<u8>, Fault>)
        ensures
            match r {
                Ok(v) => string_at(self@, a) == Ok::<Seq<u8>, Fault>(v@),
                Err(f) => string_at(self@, a) == Err::<Seq<u8>, Fault>(f),
            },
    {
        let mut out: Vec<u8> = Vec::new();
        let mut i: u64 = a;
        loop
            invariant
                a <= i,
                out@.len() == i - a,
                match string_at(self@, i) {
                    Ok(s) => string_at(self@, a) == Ok::<Seq<u8>, Fault>(out@ + s),
                    Err(f) => string_at(self@, a) == Err::<Seq<u8>, Fault>(f),
                },
            decreases u64::MAX - i,
        {
            match self.byte(i) {
                Err(Fault::Missing(p)) => {
                    return Err(Fault::Missing(p));
                },
                Err(Fault::Unreadable) => {
                    assert(out@ + Seq::<u8>::empty() =~= out@);
                    return Ok(out);
                },
                Ok(b) => {
                    if b == 0 {
                        assert(out@ + Seq::<u8>::empty() =~= out@);
                        return Ok(out);
                    }
                    if i == u64::MAX {
                        assert(string_at(self@, i) == Ok::<Seq<u8>, Fault>(seq![b]));
                        let ghost prev = out@;
                        out.push(b);
                        assert(out@ =~= prev + seq![b]);
                        return Ok(out);
                    }
                    let ghost prev = out@;
                    out.push(b);
                    i = i + 1;
                    proof {
                        match string_at(self@, i) {
                            Ok(s) => {
                                assert(prev + (seq![b] + s) =~= out@ + s);
                            },
                            Err(f) => {},
                        }
                    }
                },
            }
        }
    }
}

} // verus!
