//! Length-prefixed lists of the scenario format: a `u8` or `u16` count, then
//! that many elements.
use vstd::prelude::*;
use smallvec::SmallVec;

verus! {

/// Byte order of multi-byte numbers.
#[derive(Debug, Clone, Copy, PartialEq, Eq, Structural)]
pub enum Endian {
    Big,
    Little,
}

/// A list stored with a `u8` count.
#[derive(Debug)]
pub struct U8List<T>(pub Vec<T>);

/// A list stored with a `u16` count.
#[derive(Debug)]
pub struct U16List<T>(pub Vec<T>);

/// A list of numbers with inline room for six, stored with a `u8` or `u16`
/// count. The vector is reached only through the functions below.
#[verifier::external_body]
#[derive(Debug)]
pub struct SmallList {
    items: SmallVec<[u16; 6]>,
}

/// The numbers a small list holds, in order.
pub uninterp spec fn small_items(l: SmallList) -> Seq<u16>;

/// Relies on `SmallVec::new`: the vector it makes is empty.
#[verifier::external_body]
fn small_new() -> (r: SmallList)
    ensures
        small_items(r) == Seq::<u16>::empty(),
{
    SmallList { items: SmallVec::new() }
}

/// Relies on `SmallVec::push`: the value is appended after the others. It
/// panics only when the grown capacity overflows `usize`.
#[verifier::external_body]
fn small_push(l: &mut SmallList, x: u16)
    requires
        small_items(*old(l)).len() < usize::MAX / 2,
    ensures
        small_items(*final(l)) == small_items(*old(l)).push(x),
{
    l.items.push(x)
}

/// Relies on `SmallVec::len`: the number of elements held.
#[verifier::external_body]
fn small_len(l: &SmallList) -> (r: usize)
    ensures
        r == small_items(*l).len(),
{
    l.items.len()
}

/// Relies on indexing a `SmallVec`: the element at `i`.
#[verifier::external_body]
fn small_get(l: &SmallList, i: usize) -> (r: u16)
    requires
        i < small_items(*l).len(),
    ensures
        r == small_items(*l)[i as int],
{
    l.items[i]
}

/// The `u16` stored at `pos` in byte order `e`.
pub open spec fn u16_at(b: Seq<u8>, pos: int, e: Endian) -> u16 {
    match e {
        Endian::Little => (b[pos] as int + 256 * b[pos + 1] as int) as u16,
        Endian::Big => (256 * b[pos] as int + b[pos + 1] as int) as u16,
    }
}

/// `n` consecutive `u16` values starting at `pos`.
pub open spec fn u16s_at(b: Seq<u8>, pos: int, n: int, e: Endian) -> Seq<u16> {
    Seq::new(n as nat, |i: int| u16_at(b, pos + 2 * i, e))
}

/// Reads the `u16` at `pos`, if two bytes are there.
pub fn read_u16(b: &[u8], pos: usize, e: Endian) -> (r: Option<u16>)
    ensures
        pos + 2 <= b@.len() ==> r == Some(u16_at(b@, pos as int, e)),
        pos + 2 > b@.len() ==> r is None,
{
    if pos > b.len() || b.len() - pos < 2 {
        return None;
    }
    let lo: u16;
    let hi: u16;
    match e {
        Endian::Little => {
            lo = b[pos] as u16;
            hi = b[pos + 1] as u16;
        },
        Endian::Big => {
            hi = b[pos] as u16;
            lo = b[pos + 1] as u16;
        },
    }
    Some(hi * 256 + lo)
}

/// Reads `n` `u16` values starting at `pos`, if they are all there.
fn read_u16s(b: &[u8], pos: usize, n: usize, e: Endian) -> (r: Option<Vec<u16>>)
    ensures
        pos + 2 * n <= b@.len() ==> (r matches Some(v) && v@ == u16s_at(b@, pos as int, n as int, e)),
        pos + 2 * n > b@.len() ==> r is None,
{
    if pos > b.len() || (b.len() - pos) / 2 < n {
        return None;
    }
    let len = b.len();
    let mut v: Vec<u16> = Vec::new();
    let mut i: usize = 0;
    while i < n
        invariant
            len == b@.len(),
            i <= n,
            pos + 2 * n <= b@.len(),
            v@ == u16s_at(b@, pos as int, i as int, e),
        decreases n - i,
    {
        let x = read_u16(b, pos + 2 * i, e);
        match x {
            Some(x) => v.push(x),
            None => {},
        }
        assert(v@ =~= u16s_at(b@, pos as int, i as int + 1, e));
        i = i + 1;
    }
    Some(v)
}

/// Reads `n` `u16` values starting at `pos` into a small vector.
fn read_small(b: &[u8], pos: usize, n: usize, e: Endian) -> (r: Option<SmallList>)
    requires
        n <= 0xffff,
    ensures
        pos + 2 * n <= b@.len() ==> (r matches Some(v) && small_items(v) == u16s_at(
            b@,
            pos as int,
            n as int,
            e,
        )),
        pos + 2 * n > b@.len() ==> r is None,
{
    if pos > b.len() || (b.len() - pos) / 2 < n {
        return None;
    }
    let len = b.len();
    let mut v = small_new();
    let mut i: usize = 0;
    while i < n
        invariant
            len == b@.len(),
            i <= n,
            n <= 0xffff,
            pos + 2 * n <= b@.len(),
            small_items(v) == u16s_at(b@, pos as int, i as int, e),
        decreases n - i,
    {
        let x = read_u16(b, pos + 2 * i, e);
        match x {
            Some(x) => small_push(&mut v, x),
            None => {},
        }
        assert(small_items(v) =~= u16s_at(b@, pos as int, i as int + 1, e));
        i = i + 1;
    }
    Some(v)
}

impl SmallList {
    /// The numbers held, in order.
    pub fn to_vec(&self) -> (r: Vec<u16>)
        ensures
            r@ == small_items(*self),
    {
        let n = small_len(self);
        let mut r: Vec<u16> = Vec::new();
        let mut i: usize = 0;
        while i < n
            invariant
                i <= n,
                n == small_items(*self).len(),
                r@ == small_items(*self).take(i as int),
            decreases n - i,
        {
            r.push(small_get(self, i));
            assert(r@ =~= small_items(*self).take(i as int + 1));
            i = i + 1;
        }
        assert(r@ =~= small_items(*self));
        r
    }

    /// Reads a `u8` count and that many `u16` values at `pos`; returns the list
    /// and the position after it, or `None` if the bytes end first.
    pub fn read_u8_counted(b: &[u8], pos: usize, e: Endian) -> (r: Option<(SmallList, usize)>)
        ensures
            match r {
                Some((list, end)) => {
                    &&& pos < b@.len()
                    &&& end == pos + 1 + 2 * b@[pos as int]
                    &&& end <= b@.len()
                    &&& small_items(list) == u16s_at(b@, pos + 1, b@[pos as int] as int, e)
                },
                None => pos >= b@.len() || pos + 1 + 2 * b@[pos as int] > b@.len(),
            },
    {
        if pos >= b.len() {
            return None;
        }
        let n = b[pos] as usize;
        match read_small(b, pos + 1, n, e) {
            Some(v) => Some((v, pos + 1 + 2 * n)),
            None => None,
        }
    }

    /// Reads a `u16` count and that many `u16` values at `pos`; returns the
    /// list and the position after it, or `None` if the bytes end first.
    pub fn read_u16_counted(b: &[u8], pos: usize, e: Endian) -> (r: Option<(SmallList, usize)>)
        ensures
            match r {
                Some((list, end)) => {
                    &&& pos + 2 <= b@.len()
                    &&& end == pos + 2 + 2 * u16_at(b@, pos as int, e)
                    &&& end <= b@.len()
                    &&& small_items(list) == u16s_at(
                        b@,
                        pos + 2,
                        u16_at(b@, pos as int, e) as int,
                        e,
                    )
                },
                None => pos + 2 > b@.len() || pos + 2 + 2 * u16_at(b@, pos as int, e) > b@.len(),
            },
    {
        let len = b.len();
        let n = match read_u16(b, pos, e) {
            Some(n) => n as usize,
            None => {
                return None;
            },
        };
        assert(pos + 2 <= len);
        match read_small(b, pos + 2, n, e) {
            Some(v) => Some((v, pos + 2 + 2 * n)),
            None => None,
        }
    }
}

impl U8List<u16> {
    /// Reads a `u8` count and that many `u16` values at `pos`; returns the list
    /// and the position after it, or `None` if the bytes end first.
    pub fn read_options(b: &[u8], pos: usize, e: Endian) -> (r: Option<(U8List<u16>, usize)>)
        ensures
            match r {
                Some((list, end)) => {
                    &&& pos < b@.len()
                    &&& end == pos + 1 + 2 * b@[pos as int]
                    &&& end <= b@.len()
                    &&& list.0@ == u16s_at(b@, pos + 1, b@[pos as int] as int, e)
                },
                None => pos >= b@.len() || pos + 1 + 2 * b@[pos as int] > b@.len(),
            },
    {
        if pos >= b.len() {
            return None;
        }
        let n = b[pos] as usize;
        match read_u16s(b, pos + 1, n, e) {
            Some(v) => Some((U8List(v), pos + 1 + 2 * n)),
            None => None,
        }
    }
}

impl U16List<u16> {
    /// Reads a `u16` count and that many `u16` values at `pos`; returns the
    /// list and the position after it, or `None` if the bytes end first.
    pub fn read_options(b: &[u8], pos: usize, e: Endian) -> (r: Option<(U16List<u16>, usize)>)
        ensures
            match r {
                Some((list, end)) => {
                    &&& pos + 2 <= b@.len()
                    &&& end == pos + 2 + 2 * u16_at(b@, pos as int, e)
                    &&& end <= b@.len()
                    &&& list.0@ == u16s_at(b@, pos + 2, u16_at(b@, pos as int, e) as int, e)
                },
                None => pos + 2 > b@.len() || pos + 2 + 2 * u16_at(b@, pos as int, e) > b@.len(),
            },
    {
        let len = b.len();
        let n = match read_u16(b, pos, e) {
            Some(n) => n as usize,
            None => {
                return None;
            },
        };
        assert(pos + 2 <= len);
        match read_u16s(b, pos + 2, n, e) {
            Some(v) => Some((U16List(v), pos + 2 + 2 * n)),
            None => None,
        }
    }
}

} // verus!

verus! {

/// Copies the `n` bytes starting at `pos`, if they are all there.
fn read_bytes(b: &[u8], pos: usize, n: usize) -> (r: Option<Vec<u8>>)
    ensures
        pos + n <= b@.len() ==> (r matches Some(v) && v@ == b@.subrange(
            pos as int,
            pos + n,
        )),
        pos + n > b@.len() ==> r is None,
{
    if pos > b.len() || b.len() - pos < n {
        return None;
    }
    let len = b.len();
    let mut v: Vec<u8> = Vec::new();
    let mut i: usize = 0;
    while i < n
        invariant
            len == b@.len(),
            i <= n,
            pos + n <= b@.len(),
            v@ == b@.subrange(pos as int, pos + i),
        decreases n - i,
    {
        v.push(b[pos + i]);
        assert(v@ =~= b@.subrange(pos as int, pos + i + 1));
        i = i + 1;
    }
    Some(v)
}

impl U8List<u8> {
    /// Reads a `u8` count and that many bytes at `pos`; returns the list and
    /// the position after it, or `None` if the bytes end first. Single bytes
    /// have no byte order.
    pub fn read_options(b: &[u8], pos: usize, _e: Endian) -> (r: Option<(U8List<u8>, usize)>)
        ensures
            match r {
                Some((list, end)) => {
                    &&& pos < b@.len()
                    &&& end == pos + 1 + b@[pos as int]
                    &&& end <= b@.len()
                    &&& list.0@ == b@.subrange(pos + 1, end as int)
                },
                None => pos >= b@.len() || pos + 1 + b@[pos as int] > b@.len(),
            },
    {
        if pos >= b.len() {
            return None;
        }
        let n = b[pos] as usize;
        match read_bytes(b, pos + 1, n) {
            Some(v) => Some((U8List(v), pos + 1 + n)),
            None => None,
        }
    }
}

impl U16List<u8> {
    /// Reads a `u16` count in byte order `e` and that many bytes at `pos`;
    /// returns the list and the position after it, or `None` if the bytes
    /// end first.
    pub fn read_options(b: &[u8], pos: usize, e: Endian) -> (r: Option<(U16List<u8>, usize)>)
        ensures
            match r {
                Some((list, end)) => {
                    &&& pos + 2 <= b@.len()
                    &&& end == pos + 2 + u16_at(b@, pos as int, e)
                    &&& end <= b@.len()
                    &&& list.0@ == b@.subrange(pos + 2, end as int)
                },
                None => pos + 2 > b@.len() || pos + 2 + u16_at(b@, pos as int, e) > b@.len(),
            },
    {
        let len = b.len();
        let n = match read_u16(b, pos, e) {
            Some(n) => n as usize,
            None => {
                return None;
            },
        };
        assert(pos + 2 <= len);
        match read_bytes(b, pos + 2, n) {
            Some(v) => Some((U16List(v), pos + 2 + n)),
            None => None,
        }
    }
}

} // verus!
