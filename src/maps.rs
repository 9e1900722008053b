use vstd::prelude::*;

verus! {

/// Why a module's base address could not be taken from a memory-map listing.
#[derive(Debug, Clone, Copy, PartialEq, Eq, Structural)]
pub enum MapsError {
    /// No line names the module.
    ModuleNotFound,
    /// The first line that names the module does not start with a
    /// hexadecimal address followed by `-`.
    BadAddress,
}

/// Index of the first newline at or after `i`, or the end of `s`.
pub open spec fn line_end(s: Seq<u8>, i: int) -> int
    decreases s.len() - i,
{
    if i >= s.len() || s[i] == 0x0A {
        i
    } else {
        line_end(s, i + 1)
    }
}

/// Whether `pat` occurs in `s` within `[lo, hi)`.
pub open spec fn occurs_within(s: Seq<u8>, lo: int, hi: int, pat: Seq<u8>) -> bool {
    exists|k: int| lo <= k && k + pat.len() <= hi && #[trigger] s.subrange(k, k + pat.len()) == pat
}

/// Start of the first line at or after line start `i` that contains `pat`.
pub open spec fn first_line_with(s: Seq<u8>, i: int, pat: Seq<u8>) -> Option<int>
    decreases s.len() - i
    via first_line_with_decreases

{
    if i < 0 || i > s.len() {
        None
    } else if occurs_within(s, i, line_end(s, i), pat) {
        Some(i)
    } else if line_end(s, i) >= s.len() {
        None
    } else {
        first_line_with(s, line_end(s, i) + 1, pat)
    }
}

proof fn lemma_line_end_bounds(s: Seq<u8>, i: int)
    requires
        0 <= i <= s.len(),
    ensures
        i <= line_end(s, i) <= s.len(),
    decreases s.len() - i,
{
    if i < s.len() && s[i] != 0x0A {
        lemma_line_end_bounds(s, i + 1);
    }
}

#[via_fn]
proof fn first_line_with_decreases(s: Seq<u8>, i: int, pat: Seq<u8>) {
    if 0 <= i <= s.len() {
        lemma_line_end_bounds(s, i);
    }
}

/// Value of an ASCII hexadecimal digit.
pub open spec fn hex_digit(c: u8) -> Option<int> {
    if 0x30 <= c <= 0x39 {
        Some(c - 0x30)
    } else if 0x61 <= c <= 0x66 {
        Some(c - 0x61 + 10)
    } else if 0x41 <= c <= 0x46 {
        Some(c - 0x41 + 10)
    } else {
        None
    }
}

/// Value of a string of hexadecimal digits, `None` if a character is not one.
pub open spec fn hex_value(d: Seq<u8>) -> Option<int>
    decreases d.len(),
{
    if d.len() == 0 {
        Some(0)
    } else {
        match (hex_value(d.drop_last()), hex_digit(d.last())) {
            (Some(v), Some(x)) => Some(v * 16 + x),
            _ => None,
        }
    }
}

/// The address at the head of the line `[lo, hi)`: the hexadecimal digits
/// before its first `-`.
pub open spec fn line_address(s: Seq<u8>, lo: int, hi: int) -> Option<u64> {
    if exists|k: int| lo <= k < hi && s[k] == 0x2D {
        let k = choose|k: int| lo <= k < hi && s[k] == 0x2D && forall|q: int| lo <= q < k ==> s[q] != 0x2D;
        let digits = s.subrange(lo, k);
        match hex_value(digits) {
            Some(v) => if digits.len() > 0 && v <= u64::MAX {
                Some(v as u64)
            } else {
                None
            },
            None => None,
        }
    } else {
        None
    }
}

/// The base address that a memory-map listing gives for a module: the
/// address at the head of the first line that names it.
pub open spec fn maps_module_base(s: Seq<u8>, module: Seq<u8>) -> Result<u64, MapsError> {
    match first_line_with(s, 0, module) {
        None => Err(MapsError::ModuleNotFound),
        Some(i) => match line_address(s, i, line_end(s, i)) {
            Some(v) => Ok(v),
            None => Err(MapsError::BadAddress),
        },
    }
}

proof fn lemma_hex_grows(d: Seq<u8>, k: int)
    requires
        0 <= k <= d.len(),
        hex_value(d) is Some,
    ensures
        hex_value(d.take(k)) is Some,
        hex_value(d.take(k))->0 <= hex_value(d)->0,
        hex_value(d.take(k))->0 >= 0,
    decreases d.len(),
{
    if d.len() > 0 {
        assert(d.drop_last() =~= d.take(d.len() - 1));
        if k == d.len() {
            assert(d.take(k) =~= d);
            lemma_hex_grows(d.drop_last(), 0);
        } else {
            lemma_hex_grows(d.drop_last(), k);
            assert(d.drop_last().take(k) =~= d.take(k));
        }
    } else {
        assert(d.take(k) =~= d);
    }
}

fn digit_value(c: u8) -> (r: Option<u64>)
    ensures
        match hex_digit(c) {
            Some(v) => r == Some(v as u64),
            None => r is None,
        },
{
    if 0x30 <= c && c <= 0x39 {
        Some((c - 0x30) as u64)
    } else if 0x61 <= c && c <= 0x66 {
        Some((c - 0x61 + 10) as u64)
    } else if 0x41 <= c && c <= 0x46 {
        Some((c - 0x41 + 10) as u64)
    } else {
        None
    }
}

/// Parses the hexadecimal digits in `s[lo..hi]`.
fn parse_hex(s: &[u8], lo: usize, hi: usize) -> (r: Option<u64>)
    requires
        lo <= hi <= s@.len(),
    ensures
        match hex_value(s@.subrange(lo as int, hi as int)) {
            Some(v) => if hi > lo && v <= u64::MAX {
                r == Some(v as u64)
            } else {
                r is None
            },
            None => r is None,
        },
{
    let ghost d = s@.subrange(lo as int, hi as int);
    if lo == hi {
        return None;
    }
    let mut v: u64 = 0;
    let mut i: usize = lo;
    while i < hi
        invariant
            lo <= i <= hi <= s@.len(),
            d == s@.subrange(lo as int, hi as int),
            hex_value(d.take(i - lo)) == Some(v as int),
        decreases hi - i,
    {
        let ghost t = d.take(i - lo + 1);
        assert(t.drop_last() =~= d.take(i - lo));
        assert(t.last() == s@[i as int]);
        let x = match digit_value(s[i]) {
            Some(x) => x,
            None => {
                proof {
                    if hex_value(d) is Some {
                        lemma_hex_grows(d, i - lo + 1);
                    }
                }
                return None;
            },
        };
        if v > (u64::MAX - x) / 16 {
            proof {
                if hex_value(d) is Some {
                    lemma_hex_grows(d, i - lo + 1);
                }
            }
            return None;
        }
        v = v * 16 + x;
        i = i + 1;
    }
    assert(d.take(hi - lo) =~= d);
    Some(v)
}

/// Base address of `module` in a memory-map listing (one mapping per line,
/// each starting `start-end`, in hexadecimal): the start address of the first
/// line that contains the module's name.
pub fn module_base_from_maps(maps: &[u8], module: &[u8]) -> (r: Result<u64, MapsError>)
    ensures
        r == maps_module_base(maps@, module@),
{
    let ghost s = maps@;
    let ghost pat = module@;
    let mut i: usize = 0;
    loop
        invariant
            i <= s.len(),
            s == maps@,
            pat == module@,
            first_line_with(s, 0, pat) == first_line_with(s, i as int, pat),
        decreases s.len() - i,
    {
        let end = end_of_line(maps, i);
        if occurs_in(maps, i, end, module) {
            return match address_of_line(maps, i, end) {
                Some(v) => Ok(v),
                None => Err(MapsError::BadAddress),
            };
        }
        if end >= maps.len() {
            return Err(MapsError::ModuleNotFound);
        }
        i = end + 1;
    }
}

fn end_of_line(s: &[u8], start: usize) -> (r: usize)
    requires
        start <= s@.len(),
    ensures
        r == line_end(s@, start as int),
        start <= r <= s@.len(),
{
    let mut i = start;
    while i < s.len() && s[i] != 0x0A
        invariant
            start <= i <= s@.len(),
            line_end(s@, start as int) == line_end(s@, i as int),
        decreases s@.len() - i,
    {
        i = i + 1;
    }
    i
}

fn occurs_in(s: &[u8], lo: usize, hi: usize, pat: &[u8]) -> (r: bool)
    requires
        lo <= hi <= s@.len(),
    ensures
        r == occurs_within(s@, lo as int, hi as int, pat@),
{
    let m = pat.len();
    if hi - lo < m {
        return false;
    }
    let mut k = lo;
    while k <= hi - m
        invariant
            lo <= k <= hi - m + 1,
            hi <= s@.len(),
            m == pat@.len(),
            m <= hi - lo,
            forall|q: int| lo <= q < k ==> #[trigger] s@.subrange(q, q + m) != pat@,
        decreases hi - m + 1 - k,
    {
        let mut j: usize = 0;
        while j < m && s[k + j] == pat[j]
            invariant
                j <= m,
                k + m <= hi <= s@.len(),
                m == pat@.len(),
                forall|q: int| 0 <= q < j ==> s@[k + q] == pat@[q],
            decreases m - j,
        {
            j = j + 1;
        }
        if j == m {
            assert(s@.subrange(k as int, k + m) =~= pat@);
            return true;
        }
        assert(s@.subrange(k as int, k + m)[j as int] != pat@[j as int]);
        k = k + 1;
    }
    false
}

fn address_of_line(s: &[u8], lo: usize, hi: usize) -> (r: Option<u64>)
    requires
        lo <= hi <= s@.len(),
    ensures
        r == line_address(s@, lo as int, hi as int),
{
    let mut k = lo;
    while k < hi && s[k] != 0x2D
        invariant
            lo <= k <= hi <= s@.len(),
            forall|q: int| lo <= q < k ==> s@[q] != 0x2D,
        decreases hi - k,
    {
        k = k + 1;
    }
    if k == hi {
        return None;
    }
    proof {
        let c = choose|c: int| lo <= c < hi && s@[c] == 0x2D && forall|q: int| lo <= q < c ==> s@[q] != 0x2D;
        assert(c == k) by {
            if c < k {
            } else if k < c {
            }
        }
    }
    parse_hex(s, lo, k)
}

} // verus!
