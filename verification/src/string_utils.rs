use vstd::prelude::*;

verus! {

/// Value of the hexadecimal digit `c`, either case.
pub open spec fn hex_digit(c: u8) -> Option<nat> {
    if 0x30 <= c <= 0x39 {
        Some((c - 0x30) as nat)
    } else if 0x61 <= c <= 0x66 {
        Some((c - 0x61 + 10) as nat)
    } else if 0x41 <= c <= 0x46 {
        Some((c - 0x41 + 10) as nat)
    } else {
        None
    }
}

/// Value of `s` read as hexadecimal digits, most significant first; `None`
/// when some byte is not a digit.
pub open spec fn hex_value(s: Seq<u8>) -> Option<nat>
    decreases s.len(),
{
    if s.len() == 0 {
        Some(0)
    } else {
        match (hex_value(s.drop_last()), hex_digit(s.last())) {
            (Some(v), Some(d)) => Some(v * 16 + d),
            _ => None,
        }
    }
}

/// `s` without a leading `0x` or `0X`.
pub open spec fn strip_hex_prefix(s: Seq<u8>) -> Seq<u8> {
    if s.len() >= 2 && s[0] == 0x30 && (s[1] == 0x78 || s[1] == 0x58) {
        s.subrange(2, s.len() as int)
    } else {
        s
    }
}

/// The number that `s` spells in hexadecimal: an optional `0x` or `0X`,
/// then an optional `+`, then at least one digit, with a value that fits
/// in `usize`.
pub open spec fn parse_hex(s: Seq<u8>) -> Option<usize> {
    let t = strip_hex_prefix(s);
    if t.len() == 0 || (t.len() == 1 && (t[0] == 0x2b || t[0] == 0x2d)) {
        None
    } else {
        let d = if t[0] == 0x2b {
            t.drop_first()
        } else {
            t
        };
        match hex_value(d) {
            Some(v) => if v <= usize::MAX {
                Some(v as usize)
            } else {
                None
            },
            None => None,
        }
    }
}

/// A prefix of a digit string has a value, and no larger one.
proof fn lemma_hex_value_prefix(s: Seq<u8>, i: nat, k: nat)
    requires
        i <= k <= s.len(),
        hex_value(s.take(k as int)) is Some,
    ensures
        hex_value(s.take(i as int)) is Some,
        hex_value(s.take(i as int))->0 <= hex_value(s.take(k as int))->0,
    decreases k - i,
{
    if i < k {
        let t = s.take(k as int);
        assert(t.drop_last() =~= s.take(k - 1));
        lemma_hex_value_prefix(s, i, (k - 1) as nat);
    }
}

/// Value of the hexadecimal digit `c`.
fn digit_value(c: u8) -> (r: Option<u8>)
    ensures
        r matches Some(d) ==> hex_digit(c) == Some(d as nat),
        r is None ==> hex_digit(c) is None,
{
    if 0x30 <= c && c <= 0x39 {
        Some(c - 0x30)
    } else if 0x61 <= c && c <= 0x66 {
        Some(c - 0x61 + 10)
    } else if 0x41 <= c && c <= 0x46 {
        Some(c - 0x41 + 10)
    } else {
        None
    }
}

/// Reads `slice` as a hexadecimal number, with an optional `0x` or `0X`
/// prefix and an optional `+` sign. Fails on an empty number, a byte that
/// is not a digit (bytes that are not UTF-8 among them), or a value beyond
/// `usize`.
pub fn slice_to_usize(slice: &[u8]) -> (r: Result<usize, ()>)
    ensures
        r matches Ok(v) ==> parse_hex(slice@) == Some(v),
        r is Err ==> parse_hex(slice@) is None,
{
    let n = slice.len();
    let mut start: usize = 0;
    if n >= 2 && slice[0] == 0x30 && (slice[1] == 0x78 || slice[1] == 0x58) {
        start = 2;
    }
    let ghost t = strip_hex_prefix(slice@);
    assert(t =~= slice@.subrange(start as int, n as int));
    if start == n || (n - start == 1 && (slice[start] == 0x2b || slice[start] == 0x2d)) {
        return Err(());
    }
    if slice[start] == 0x2b {
        start = start + 1;
    }
    let ghost d = slice@.subrange(start as int, n as int);
    assert(d == (if t[0] == 0x2b {
        t.drop_first()
    } else {
        t
    }));
    let mut acc: usize = 0;
    let mut i: usize = start;
    while i < n
        invariant
            start <= i <= n,
            n == slice@.len(),
            d == slice@.subrange(start as int, n as int),
            hex_value(d.take((i - start) as int)) == Some(acc as nat),
            parse_hex(slice@) == (match hex_value(d) {
                Some(v) => if v <= usize::MAX {
                    Some(v as usize)
                } else {
                    None
                },
                None => None,
            }),
        decreases n - i,
    {
        let ghost k = (i - start) as nat;
        assert(d.take(k + 1int).drop_last() =~= d.take(k as int));
        assert(d.take(k + 1int).last() == slice@[i as int]);
        let dv = match digit_value(slice[i]) {
            Some(v) => v,
            None => {
                proof {
                    if hex_value(d) is Some {
                        assert(d.take(d.len() as int) =~= d);
                        lemma_hex_value_prefix(d, k + 1, d.len());
                    }
                }
                return Err(());
            },
        };
        let next = match acc.checked_mul(16) {
            Some(m) => m.checked_add(dv as usize),
            None => None,
        };
        match next {
            Some(v) => {
                acc = v;
            },
            None => {
                proof {
                    assert(hex_value(d.take(k + 1int)) == Some((acc * 16 + dv) as nat));
                    if hex_value(d) is Some {
                        assert(d.take(d.len() as int) =~= d);
                        lemma_hex_value_prefix(d, k + 1, d.len());
                    }
                }
                return Err(());
            },
        }
        i = i + 1;
    }
    assert(d.take((n - start) as int) =~= d);
    Ok(acc)
}

/// Reads the hexadecimal number in `bytes` up to the first NUL (or to the
/// end of `bytes` when there is none), as `slice_to_usize` does.
pub fn hex_ptr_to_usize(bytes: &[u8]) -> (r: Result<usize, ()>)
    ensures
        ({
            let len = if exists|k: int| 0 <= k < bytes@.len() && bytes@[k] == 0 {
                choose|k: int|
                    0 <= k < bytes@.len() && bytes@[k] == 0 && forall|j: int|
                        0 <= j < k ==> bytes@[j] != 0
            } else {
                bytes@.len() as int
            };
            &&& r matches Ok(v) ==> parse_hex(bytes@.take(len)) == Some(v)
            &&& r is Err ==> parse_hex(bytes@.take(len)) is None
        }),
{
    let n = bytes.len();
    let mut len: usize = 0;
    while len < n && bytes[len] != 0
        invariant
            len <= n,
            n == bytes@.len(),
            forall|j: int| 0 <= j < len ==> bytes@[j] != 0,
        decreases n - len,
    {
        len = len + 1;
    }
    proof {
        if len < n {
            assert(bytes@[len as int] == 0);
            let c = choose|k: int|
                0 <= k < bytes@.len() && bytes@[k] == 0 && forall|j: int|
                    0 <= j < k ==> bytes@[j] != 0;
            assert(c == len);
        }
    }
    slice_to_usize(vstd::slice::slice_subrange(bytes, 0, len))
}

/// Reads the hexadecimal number in the first `len` bytes of `bytes`, as
/// `slice_to_usize` does.
pub fn hex_ptr_to_usize_length(bytes: &[u8], len: usize) -> (r: Result<usize, ()>)
    requires
        len <= bytes@.len(),
    ensures
        r matches Ok(v) ==> parse_hex(bytes@.take(len as int)) == Some(v),
        r is Err ==> parse_hex(bytes@.take(len as int)) is None,
{
    let head = vstd::slice::slice_subrange(bytes, 0, len);
    assert(head@ =~= bytes@.take(len as int));
    slice_to_usize(head)
}

} // verus!
