use vstd::prelude::*;
use vstd::arithmetic::div_mod::lemma_fundamental_div_mod;
use crate::error::ReadError;
use crate::error::WriteError;

verus! {

// ---------------------------------------------------------------------
// Sequence helpers
// ---------------------------------------------------------------------

pub proof fn lemma_concat_skip(a: Seq<u8>, b: Seq<u8>)
    ensures
        (a + b).skip(a.len() as int) == b,
{
    assert((a + b).skip(a.len() as int) =~= b);
}

pub proof fn seq_assoc(a: Seq<u8>, b: Seq<u8>, c: Seq<u8>)
    ensures
        (a + b) + c == a + (b + c),
{
    assert((a + b) + c =~= a + (b + c));
}

pub proof fn lemma_skip_skip(s: Seq<u8>, a: int, b: int)
    requires
        0 <= a,
        0 <= b,
        a + b <= s.len(),
    ensures
        s.skip(a).skip(b) == s.skip(a + b),
{
    assert(s.skip(a).skip(b) =~= s.skip(a + b));
}

// ---------------------------------------------------------------------
// Little-endian integers: the wire meaning
// ---------------------------------------------------------------------

pub open spec fn sp_u8(s: Seq<u8>) -> Result<(u8, Seq<u8>), ReadError> {
    if s.len() >= 1 {
        Ok((s[0], s.skip(1)))
    } else {
        Err(ReadError::ShortRead { expected: 1 })
    }
}

pub open spec fn se_u8(x: u8) -> Seq<u8> {
    seq![x]
}

pub open spec fn sp_u16(s: Seq<u8>) -> Result<(u16, Seq<u8>), ReadError> {
    if s.len() >= 2 {
        Ok((((s[1] as int) * 256 + (s[0] as int)) as u16, s.skip(2)))
    } else {
        Err(ReadError::ShortRead { expected: 2 })
    }
}

pub open spec fn se_u16(x: u16) -> Seq<u8> {
    seq![(x as int % 256) as u8, (x as int / 256) as u8]
}

pub open spec fn sp_u32(s: Seq<u8>) -> Result<(u32, Seq<u8>), ReadError> {
    match sp_u16(s) {
        Ok((lo, s1)) => match sp_u16(s1) {
            Ok((hi, s2)) => Ok((((hi as int) * 65536 + (lo as int)) as u32, s2)),
            Err(e) => Err(e),
        },
        Err(e) => Err(e),
    }
}

pub open spec fn se_u32(x: u32) -> Seq<u8> {
    se_u16((x as int % 65536) as u16) + se_u16((x as int / 65536) as u16)
}

pub open spec fn sp_u64(s: Seq<u8>) -> Result<(u64, Seq<u8>), ReadError> {
    match sp_u32(s) {
        Ok((lo, s1)) => match sp_u32(s1) {
            Ok((hi, s2)) => Ok((((hi as int) * 4294967296 + (lo as int)) as u64, s2)),
            Err(e) => Err(e),
        },
        Err(e) => Err(e),
    }
}

pub open spec fn se_u64(x: u64) -> Seq<u8> {
    se_u32((x as int % 4294967296) as u32) + se_u32((x as int / 4294967296) as u32)
}

// ---------------------------------------------------------------------
// Booleans: one byte, zero is false, any nonzero is true
// ---------------------------------------------------------------------

pub open spec fn sp_bool(s: Seq<u8>) -> Result<(bool, Seq<u8>), ReadError> {
    match sp_u8(s) {
        Ok((b, s1)) => Ok((b != 0, s1)),
        Err(e) => Err(e),
    }
}

pub open spec fn se_bool(b: bool) -> Seq<u8> {
    seq![if b { 1u8 } else { 0u8 }]
}

// ---------------------------------------------------------------------
// UTF-8 validity
// ---------------------------------------------------------------------

pub open spec fn is_cont(b: u8) -> bool {
    0x80 <= b && b <= 0xBF
}

/// Length of the first UTF-8 scalar of `s`, or 0 when `s` does not
/// start with a valid scalar.
pub open spec fn utf8_step(s: Seq<u8>) -> int {
    if s.len() >= 1 && s[0] < 0x80 {
        1
    } else if s.len() >= 2 && 0xC2 <= s[0] && s[0] <= 0xDF && is_cont(s[1]) {
        2
    } else if s.len() >= 3 && s[0] == 0xE0 && 0xA0 <= s[1] && s[1] <= 0xBF && is_cont(s[2]) {
        3
    } else if s.len() >= 3 && 0xE1 <= s[0] && s[0] <= 0xEC && is_cont(s[1]) && is_cont(s[2]) {
        3
    } else if s.len() >= 3 && s[0] == 0xED && 0x80 <= s[1] && s[1] <= 0x9F && is_cont(s[2]) {
        3
    } else if s.len() >= 3 && 0xEE <= s[0] && s[0] <= 0xEF && is_cont(s[1]) && is_cont(s[2]) {
        3
    } else if s.len() >= 4 && s[0] == 0xF0 && 0x90 <= s[1] && s[1] <= 0xBF && is_cont(s[2])
        && is_cont(s[3]) {
        4
    } else if s.len() >= 4 && 0xF1 <= s[0] && s[0] <= 0xF3 && is_cont(s[1]) && is_cont(s[2])
        && is_cont(s[3]) {
        4
    } else if s.len() >= 4 && s[0] == 0xF4 && 0x80 <= s[1] && s[1] <= 0x8F && is_cont(s[2])
        && is_cont(s[3]) {
        4
    } else {
        0
    }
}

pub open spec fn is_utf8(s: Seq<u8>) -> bool
    decreases s.len(),
{
    if s.len() == 0 {
        true
    } else if utf8_step(s) > 0 {
        is_utf8(s.skip(utf8_step(s)))
    } else {
        false
    }
}

/// Width of the UTF-8 scalar starting at `v[i]`, or 0 when invalid.
fn utf8_step_at(v: &Vec<u8>, i: usize) -> (st: usize)
    requires
        i <= v@.len(),
    ensures
        st as int == utf8_step(v@.skip(i as int)),
        st <= v@.len() - i,
{
    let n = v.len();
    proof {
        let s = v@.skip(i as int);
        assert forall|k: int| 0 <= k < s.len() implies s[k] == v@[i + k] by {}
    }
    if n - i >= 1 && v[i] < 0x80 {
        1
    } else if n - i >= 2 && 0xC2 <= v[i] && v[i] <= 0xDF && 0x80 <= v[i + 1] && v[i + 1] <= 0xBF {
        2
    } else if n - i >= 3 && v[i] == 0xE0 && 0xA0 <= v[i + 1] && v[i + 1] <= 0xBF && 0x80 <= v[i + 2]
        && v[i + 2] <= 0xBF {
        3
    } else if n - i >= 3 && 0xE1 <= v[i] && v[i] <= 0xEC && 0x80 <= v[i + 1] && v[i + 1] <= 0xBF
        && 0x80 <= v[i + 2] && v[i + 2] <= 0xBF {
        3
    } else if n - i >= 3 && v[i] == 0xED && 0x80 <= v[i + 1] && v[i + 1] <= 0x9F && 0x80 <= v[i + 2]
        && v[i + 2] <= 0xBF {
        3
    } else if n - i >= 3 && 0xEE <= v[i] && v[i] <= 0xEF && 0x80 <= v[i + 1] && v[i + 1] <= 0xBF
        && 0x80 <= v[i + 2] && v[i + 2] <= 0xBF {
        3
    } else if n - i >= 4 && v[i] == 0xF0 && 0x90 <= v[i + 1] && v[i + 1] <= 0xBF && 0x80 <= v[i + 2]
        && v[i + 2] <= 0xBF && 0x80 <= v[i + 3] && v[i + 3] <= 0xBF {
        4
    } else if n - i >= 4 && 0xF1 <= v[i] && v[i] <= 0xF3 && 0x80 <= v[i + 1] && v[i + 1] <= 0xBF
        && 0x80 <= v[i + 2] && v[i + 2] <= 0xBF && 0x80 <= v[i + 3] && v[i + 3] <= 0xBF {
        4
    } else if n - i >= 4 && v[i] == 0xF4 && 0x80 <= v[i + 1] && v[i + 1] <= 0x8F && 0x80 <= v[i + 2]
        && v[i + 2] <= 0xBF && 0x80 <= v[i + 3] && v[i + 3] <= 0xBF {
        4
    } else {
        0
    }
}

/// Whether the bytes of `v` form valid UTF-8.
pub fn check_utf8(v: &Vec<u8>) -> (r: bool)
    ensures
        r == is_utf8(v@),
{
    let n = v.len();
    let mut i: usize = 0;
    proof {
        assert(v@.skip(0) =~= v@);
    }
    loop
        invariant
            i <= n,
            n == v@.len(),
            is_utf8(v@) == is_utf8(v@.skip(i as int)),
        decreases n - i,
    {
        if i >= n {
            proof {
                assert(v@.skip(i as int) =~= Seq::<u8>::empty());
            }
            return true;
        }
        let st = utf8_step_at(v, i);
        if st == 0 {
            proof {
                assert(v@.skip(i as int).len() > 0);
            }
            return false;
        }
        proof {
            lemma_skip_skip(v@, i as int, st as int);
        }
        i = i + st;
    }
}

/// A sequence of plain ASCII bytes is valid UTF-8.
pub proof fn lemma_ascii_is_utf8(s: Seq<u8>)
    requires
        forall|i: int| 0 <= i < s.len() ==> s[i] < 0x80,
    ensures
        is_utf8(s),
    decreases s.len(),
{
    if s.len() > 0 {
        assert(s[0] < 0x80);
        assert(utf8_step(s) == 1);
        let tail = s.skip(1);
        assert(forall|i: int| 0 <= i < tail.len() ==> #[trigger] tail[i] == s[i + 1]);
        lemma_ascii_is_utf8(tail);
    }
}

/// Byte-wise equality of two vectors.
pub fn vec_u8_eq(a: &Vec<u8>, b: &Vec<u8>) -> (r: bool)
    ensures
        r == (a@ == b@),
{
    let n = a.len();
    if n != b.len() {
        return false;
    }
    let mut i: usize = 0;
    while i < n
        invariant
            i <= n,
            n == a@.len(),
            n == b@.len(),
            forall|j: int| 0 <= j < i ==> a@[j] == b@[j],
        decreases n - i,
    {
        if a[i] != b[i] {
            return false;
        }
        i = i + 1;
    }
    proof {
        assert(a@ =~= b@);
    }
    true
}

// ---------------------------------------------------------------------
// Length-prefixed strings and byte arrays
// ---------------------------------------------------------------------

/// A u32-length-prefixed UTF-8 string, kept as its raw bytes.
pub open spec fn sp_string(s: Seq<u8>) -> Result<(Seq<u8>, Seq<u8>), ReadError> {
    match sp_u32(s) {
        Ok((n, s1)) => if s1.len() < n {
            Err(ReadError::ShortRead { expected: n as usize })
        } else if !is_utf8(s1.take(n as int)) {
            Err(ReadError::BadUtf8)
        } else {
            Ok((s1.take(n as int), s1.skip(n as int)))
        },
        Err(e) => Err(e),
    }
}

pub open spec fn se_string(str: Seq<u8>) -> Result<Seq<u8>, WriteError> {
    if str.len() > 0xFFFF_FFFF {
        Err(WriteError::IntOverflow)
    } else {
        Ok(se_u32(str.len() as u32) + str)
    }
}

/// A u32-length-prefixed raw byte array.
pub open spec fn sp_byte_array(s: Seq<u8>) -> Result<(Seq<u8>, Seq<u8>), ReadError> {
    match sp_u32(s) {
        Ok((n, s1)) => if s1.len() < n {
            Err(ReadError::ShortRead { expected: n as usize })
        } else {
            Ok((s1.take(n as int), s1.skip(n as int)))
        },
        Err(e) => Err(e),
    }
}

pub open spec fn se_byte_array(b: Seq<u8>) -> Result<Seq<u8>, WriteError> {
    if b.len() > 0xFFFF_FFFF {
        Err(WriteError::IntOverflow)
    } else {
        Ok(se_u32(b.len() as u32) + b)
    }
}

/// An optional string: a boolean byte, then the string when present.
pub open spec fn sp_opt_string(s: Seq<u8>) -> Result<(Option<Seq<u8>>, Seq<u8>), ReadError> {
    match sp_bool(s) {
        Ok((present, s1)) => if present {
            match sp_string(s1) {
                Ok((str, s2)) => Ok((Some(str), s2)),
                Err(e) => Err(e),
            }
        } else {
            Ok((None, s1))
        },
        Err(e) => Err(e),
    }
}

pub open spec fn se_opt_string(o: Option<Seq<u8>>) -> Result<Seq<u8>, WriteError> {
    match o {
        None => Ok(se_bool(false)),
        Some(str) => match se_string(str) {
            Ok(b) => Ok(se_bool(true) + b),
            Err(e) => Err(e),
        },
    }
}

/// A string the parser accepted is valid UTF-8.
pub proof fn lemma_string_utf8(s: Seq<u8>, str: Seq<u8>, rest: Seq<u8>)
    requires
        sp_string(s) == Ok::<(Seq<u8>, Seq<u8>), ReadError>((str, rest)),
    ensures
        is_utf8(str),
{
}

pub proof fn lemma_opt_string_utf8(s: Seq<u8>, o: Option<Seq<u8>>, rest: Seq<u8>)
    requires
        sp_opt_string(s) == Ok::<(Option<Seq<u8>>, Seq<u8>), ReadError>((o, rest)),
    ensures
        match o {
            Some(x) => is_utf8(x),
            None => true,
        },
{
}

// ---------------------------------------------------------------------
// Executable readers
// ---------------------------------------------------------------------

pub fn read_u8(data: &Vec<u8>, off: usize) -> (r: Result<(u8, usize), ReadError>)
    requires
        off <= data@.len(),
    ensures
        match r {
            Ok((x, off2)) => off <= off2 <= data@.len() && sp_u8(data@.skip(off as int)) == Ok::<
                _,
                ReadError,
            >((x, data@.skip(off2 as int))),
            Err(e) => sp_u8(data@.skip(off as int)) == Err::<(u8, Seq<u8>), _>(e),
        },
{
    if data.len() - off >= 1 {
        let x = data[off];
        proof {
            assert(data@.skip(off as int)[0] == data@[off as int]);
            lemma_skip_skip(data@, off as int, 1);
        }
        Ok((x, off + 1))
    } else {
        Err(ReadError::ShortRead { expected: 1 })
    }
}

pub fn read_u16(data: &Vec<u8>, off: usize) -> (r: Result<(u16, usize), ReadError>)
    requires
        off <= data@.len(),
    ensures
        match r {
            Ok((x, off2)) => off <= off2 <= data@.len() && sp_u16(data@.skip(off as int)) == Ok::<
                _,
                ReadError,
            >((x, data@.skip(off2 as int))),
            Err(e) => sp_u16(data@.skip(off as int)) == Err::<(u16, Seq<u8>), _>(e),
        },
{
    if data.len() - off >= 2 {
        let lo = data[off];
        let hi = data[off + 1];
        let x: u16 = (hi as u16) * 256 + (lo as u16);
        proof {
            let s = data@.skip(off as int);
            assert(s[0] == data@[off as int]);
            assert(s[1] == data@[off as int + 1]);
            lemma_skip_skip(data@, off as int, 2);
        }
        Ok((x, off + 2))
    } else {
        Err(ReadError::ShortRead { expected: 2 })
    }
}

pub fn read_u32(data: &Vec<u8>, off: usize) -> (r: Result<(u32, usize), ReadError>)
    requires
        off <= data@.len(),
    ensures
        match r {
            Ok((x, off2)) => off <= off2 <= data@.len() && sp_u32(data@.skip(off as int)) == Ok::<
                _,
                ReadError,
            >((x, data@.skip(off2 as int))),
            Err(e) => sp_u32(data@.skip(off as int)) == Err::<(u32, Seq<u8>), _>(e),
        },
{
    match read_u16(data, off) {
        Ok((lo, o1)) => match read_u16(data, o1) {
            Ok((hi, o2)) => Ok(((hi as u32) * 65536 + (lo as u32), o2)),
            Err(e) => Err(e),
        },
        Err(e) => Err(e),
    }
}

pub fn read_u64(data: &Vec<u8>, off: usize) -> (r: Result<(u64, usize), ReadError>)
    requires
        off <= data@.len(),
    ensures
        match r {
            Ok((x, off2)) => off <= off2 <= data@.len() && sp_u64(data@.skip(off as int)) == Ok::<
                _,
                ReadError,
            >((x, data@.skip(off2 as int))),
            Err(e) => sp_u64(data@.skip(off as int)) == Err::<(u64, Seq<u8>), _>(e),
        },
{
    match read_u32(data, off) {
        Ok((lo, o1)) => match read_u32(data, o1) {
            Ok((hi, o2)) => Ok(((hi as u64) * 4294967296 + (lo as u64), o2)),
            Err(e) => Err(e),
        },
        Err(e) => Err(e),
    }
}

pub fn read_bool(data: &Vec<u8>, off: usize) -> (r: Result<(bool, usize), ReadError>)
    requires
        off <= data@.len(),
    ensures
        match r {
            Ok((x, off2)) => off <= off2 <= data@.len() && sp_bool(data@.skip(off as int)) == Ok::<
                _,
                ReadError,
            >((x, data@.skip(off2 as int))),
            Err(e) => sp_bool(data@.skip(off as int)) == Err::<(bool, Seq<u8>), _>(e),
        },
{
    match read_u8(data, off) {
        Ok((b, o1)) => Ok((b != 0, o1)),
        Err(e) => Err(e),
    }
}

/// Copy `n` bytes of `data` starting at `start` into a fresh vector.
pub fn copy_range(data: &Vec<u8>, start: usize, n: usize) -> (r: Vec<u8>)
    requires
        start + n <= data@.len(),
    ensures
        r@ == data@.subrange(start as int, start as int + n as int),
{
    let dlen = data.len();
    let mut r: Vec<u8> = Vec::new();
    let mut i: usize = 0;
    while i < n
        invariant
            i <= n,
            start + n <= dlen,
            dlen == data@.len(),
            r@ =~= data@.subrange(start as int, start as int + i as int),
        decreases n - i,
    {
        r.push(data[start + i]);
        i = i + 1;
        proof {
            assert(r@ =~= data@.subrange(start as int, start as int + i as int));
        }
    }
    r
}

pub fn read_string(data: &Vec<u8>, off: usize) -> (r: Result<(Vec<u8>, usize), ReadError>)
    requires
        off <= data@.len(),
    ensures
        match r {
            Ok((str, off2)) => off <= off2 <= data@.len() && sp_string(data@.skip(off as int))
                == Ok::<_, ReadError>((str@, data@.skip(off2 as int))),
            Err(e) => sp_string(data@.skip(off as int)) == Err::<(Seq<u8>, Seq<u8>), _>(e),
        },
{
    match read_u32(data, off) {
        Ok((n, o1)) => {
            let n_us = n as usize;
            if data.len() - o1 < n_us {
                proof {
                    assert(data@.skip(o1 as int).len() < n);
                }
                Err(ReadError::ShortRead { expected: n_us })
            } else {
                let str = copy_range(data, o1, n_us);
                proof {
                    assert(str@ =~= data@.skip(o1 as int).take(n as int));
                    lemma_skip_skip(data@, o1 as int, n as int);
                }
                if check_utf8(&str) {
                    Ok((str, o1 + n_us))
                } else {
                    Err(ReadError::BadUtf8)
                }
            }
        },
        Err(e) => Err(e),
    }
}

pub fn read_byte_array(data: &Vec<u8>, off: usize) -> (r: Result<(Vec<u8>, usize), ReadError>)
    requires
        off <= data@.len(),
    ensures
        match r {
            Ok((b, off2)) => off <= off2 <= data@.len() && sp_byte_array(data@.skip(off as int))
                == Ok::<_, ReadError>((b@, data@.skip(off2 as int))),
            Err(e) => sp_byte_array(data@.skip(off as int)) == Err::<(Seq<u8>, Seq<u8>), _>(e),
        },
{
    match read_u32(data, off) {
        Ok((n, o1)) => {
            let n_us = n as usize;
            if data.len() - o1 < n_us {
                proof {
                    assert(data@.skip(o1 as int).len() < n);
                }
                Err(ReadError::ShortRead { expected: n_us })
            } else {
                let b = copy_range(data, o1, n_us);
                proof {
                    assert(b@ =~= data@.skip(o1 as int).take(n as int));
                    lemma_skip_skip(data@, o1 as int, n as int);
                }
                Ok((b, o1 + n_us))
            }
        },
        Err(e) => Err(e),
    }
}

pub fn read_opt_string(data: &Vec<u8>, off: usize) -> (r: Result<
    (Option<Vec<u8>>, usize),
    ReadError,
>)
    requires
        off <= data@.len(),
    ensures
        match r {
            Ok((o, off2)) => off <= off2 <= data@.len() && sp_opt_string(data@.skip(off as int))
                == Ok::<_, ReadError>(
                (
                    match o {
                        Some(s) => Some(s@),
                        None => None::<Seq<u8>>,
                    },
                    data@.skip(off2 as int),
                ),
            ),
            Err(e) => sp_opt_string(data@.skip(off as int)) == Err::<
                (Option<Seq<u8>>, Seq<u8>),
                _,
            >(e),
        },
{
    match read_bool(data, off) {
        Ok((present, o1)) => if present {
            match read_string(data, o1) {
                Ok((s, o2)) => Ok((Some(s), o2)),
                Err(e) => Err(e),
            }
        } else {
            Ok((None, o1))
        },
        Err(e) => Err(e),
    }
}

// ---------------------------------------------------------------------
// Executable writers
// ---------------------------------------------------------------------

pub fn write_u8(out: &mut Vec<u8>, x: u8)
    ensures
        final(out)@ == old(out)@ + se_u8(x),
{
    out.push(x);
    proof {
        assert(out@ =~= old(out)@ + se_u8(x));
    }
}

pub fn write_u16(out: &mut Vec<u8>, x: u16)
    ensures
        final(out)@ == old(out)@ + se_u16(x),
{
    out.push((x % 256) as u8);
    out.push((x / 256) as u8);
    proof {
        assert(out@ =~= old(out)@ + se_u16(x));
    }
}

pub fn write_u32(out: &mut Vec<u8>, x: u32)
    ensures
        final(out)@ == old(out)@ + se_u32(x),
{
    write_u16(out, (x % 65536) as u16);
    write_u16(out, (x / 65536) as u16);
    proof {
        assert(out@ =~= old(out)@ + se_u32(x));
    }
}

pub fn write_u64(out: &mut Vec<u8>, x: u64)
    ensures
        final(out)@ == old(out)@ + se_u64(x),
{
    write_u32(out, (x % 4294967296) as u32);
    write_u32(out, (x / 4294967296) as u32);
    proof {
        assert(out@ =~= old(out)@ + se_u64(x));
    }
}

pub fn write_bool(out: &mut Vec<u8>, b: bool)
    ensures
        final(out)@ == old(out)@ + se_bool(b),
{
    out.push(if b { 1 } else { 0 });
    proof {
        assert(out@ =~= old(out)@ + se_bool(b));
    }
}

/// Append all bytes of `b` to `out`.
pub fn write_raw(out: &mut Vec<u8>, b: &Vec<u8>)
    ensures
        final(out)@ == old(out)@ + b@,
{
    let n = b.len();
    let mut i: usize = 0;
    while i < n
        invariant
            i <= n,
            n == b@.len(),
            out@ =~= old(out)@ + b@.take(i as int),
        decreases n - i,
    {
        out.push(b[i]);
        i = i + 1;
        proof {
            assert(out@ =~= old(out)@ + b@.take(i as int));
        }
    }
    proof {
        assert(old(out)@ + b@.take(n as int) =~= old(out)@ + b@);
    }
}

pub fn write_string(s: &Vec<u8>, out: &mut Vec<u8>) -> (r: Result<(), WriteError>)
    ensures
        match se_string(s@) {
            Ok(b) => r == Ok::<(), WriteError>(()) && final(out)@ == old(out)@ + b,
            Err(e) => r == Err::<(), WriteError>(e),
        },
{
    if s.len() as u64 > 0xFFFF_FFFFu64 {
        Err(WriteError::IntOverflow)
    } else {
        write_u32(out, s.len() as u32);
        write_raw(out, s);
        proof {
            assert(out@ =~= old(out)@ + (se_u32(s@.len() as u32) + s@));
        }
        Ok(())
    }
}

pub fn write_byte_array(b: &Vec<u8>, out: &mut Vec<u8>) -> (r: Result<(), WriteError>)
    ensures
        match se_byte_array(b@) {
            Ok(bs) => r == Ok::<(), WriteError>(()) && final(out)@ == old(out)@ + bs,
            Err(e) => r == Err::<(), WriteError>(e),
        },
{
    if b.len() as u64 > 0xFFFF_FFFFu64 {
        Err(WriteError::IntOverflow)
    } else {
        write_u32(out, b.len() as u32);
        write_raw(out, b);
        proof {
            assert(out@ =~= old(out)@ + (se_u32(b@.len() as u32) + b@));
        }
        Ok(())
    }
}

pub fn optional_write(o: &Option<Vec<u8>>, out: &mut Vec<u8>) -> (r: Result<(), WriteError>)
    ensures
        match se_opt_string(
            match o {
                Some(s) => Some(s@),
                None => None::<Seq<u8>>,
            },
        ) {
            Ok(b) => r == Ok::<(), WriteError>(()) && final(out)@ == old(out)@ + b,
            Err(e) => r == Err::<(), WriteError>(e),
        },
{
    match o {
        None => {
            write_bool(out, false);
            Ok(())
        },
        Some(s) => {
            write_bool(out, true);
            match write_string(s, out) {
                Ok(()) => {
                    proof {
                        match se_string(s@) {
                            Ok(b) => {
                                assert(out@ =~= old(out)@ + (se_bool(true) + b));
                            },
                            Err(_) => {},
                        }
                    }
                    Ok(())
                },
                Err(e) => Err(e),
            }
        },
    }
}

// ---------------------------------------------------------------------
// Round trips of the primitives
// ---------------------------------------------------------------------

pub proof fn lemma_u8_rt(x: u8, rest: Seq<u8>)
    ensures
        sp_u8(se_u8(x) + rest) == Ok::<_, ReadError>((x, rest)),
{
    lemma_concat_skip(se_u8(x), rest);
}

pub proof fn lemma_u16_rt(x: u16, rest: Seq<u8>)
    ensures
        sp_u16(se_u16(x) + rest) == Ok::<_, ReadError>((x, rest)),
{
    lemma_fundamental_div_mod(x as int, 256);
    lemma_concat_skip(se_u16(x), rest);
}

pub proof fn lemma_u32_rt(x: u32, rest: Seq<u8>)
    ensures
        sp_u32(se_u32(x) + rest) == Ok::<_, ReadError>((x, rest)),
{
    let lo = (x as int % 65536) as u16;
    let hi = (x as int / 65536) as u16;
    lemma_fundamental_div_mod(x as int, 65536);
    assert(se_u32(x) + rest =~= se_u16(lo) + (se_u16(hi) + rest));
    lemma_u16_rt(lo, se_u16(hi) + rest);
    lemma_u16_rt(hi, rest);
}

pub proof fn lemma_u64_rt(x: u64, rest: Seq<u8>)
    ensures
        sp_u64(se_u64(x) + rest) == Ok::<_, ReadError>((x, rest)),
{
    let lo = (x as int % 4294967296) as u32;
    let hi = (x as int / 4294967296) as u32;
    lemma_fundamental_div_mod(x as int, 4294967296);
    assert(se_u64(x) + rest =~= se_u32(lo) + (se_u32(hi) + rest));
    lemma_u32_rt(lo, se_u32(hi) + rest);
    lemma_u32_rt(hi, rest);
}

pub proof fn lemma_bool_rt(b: bool, rest: Seq<u8>)
    ensures
        sp_bool(se_bool(b) + rest) == Ok::<_, ReadError>((b, rest)),
{
    lemma_u8_rt(if b { 1u8 } else { 0u8 }, rest);
    assert(se_bool(b) == se_u8(if b { 1u8 } else { 0u8 }));
}

pub proof fn lemma_string_rt(str: Seq<u8>, rest: Seq<u8>)
    requires
        is_utf8(str),
    ensures
        match se_string(str) {
            Ok(b) => sp_string(b + rest) == Ok::<_, ReadError>((str, rest)),
            Err(_) => true,
        },
{
    if str.len() <= 0xFFFF_FFFF {
        let n = str.len() as u32;
        assert(se_u32(n) + str + rest =~= se_u32(n) + (str + rest));
        lemma_u32_rt(n, str + rest);
        assert((str + rest).take(n as int) =~= str);
        assert((str + rest).skip(n as int) =~= rest);
    }
}

pub proof fn lemma_byte_array_rt(b: Seq<u8>, rest: Seq<u8>)
    ensures
        match se_byte_array(b) {
            Ok(bs) => sp_byte_array(bs + rest) == Ok::<_, ReadError>((b, rest)),
            Err(_) => true,
        },
{
    if b.len() <= 0xFFFF_FFFF {
        let n = b.len() as u32;
        assert(se_u32(n) + b + rest =~= se_u32(n) + (b + rest));
        lemma_u32_rt(n, b + rest);
        assert((b + rest).take(n as int) =~= b);
        assert((b + rest).skip(n as int) =~= rest);
    }
}

pub proof fn lemma_opt_string_rt(o: Option<Seq<u8>>, rest: Seq<u8>)
    requires
        match o {
            Some(s) => is_utf8(s),
            None => true,
        },
    ensures
        match se_opt_string(o) {
            Ok(b) => sp_opt_string(b + rest) == Ok::<_, ReadError>((o, rest)),
            Err(_) => true,
        },
{
    match o {
        None => {
            lemma_bool_rt(false, rest);
            assert(se_bool(false) + rest == se_u8(0) + rest);
        },
        Some(str) => {
            match se_string(str) {
                Ok(b) => {
                    assert(se_bool(true) + b + rest =~= se_bool(true) + (b + rest));
                    lemma_bool_rt(true, b + rest);
                    lemma_string_rt(str, rest);
                },
                Err(_) => {},
            }
        },
    }
}

} // verus!
