//! The binary wire format: little-endian integers, fixed byte arrays written
//! as they are, and variable byte strings and lists behind a four-byte
//! little-endian count. Each writer appends exactly the encoding of its value;
//! each reader parses exactly what the matching `parse_*` specification says.

use vstd::bytes::*;
use vstd::prelude::*;
use vstd::slice::slice_subrange;

use crate::crypto::{PublicKey, Sha256Digest, Signature};

verus! {

/// Why a byte string could not be decoded.
#[derive(Clone, Copy, Debug, PartialEq, Eq, Structural)]
pub enum DecodeError {
    /// The input ended, or held a value out of range, before a whole value was read.
    Malformed,
    /// A whole value was read but bytes were left over.
    TrailingBytes,
}

pub open spec fn enc_u8(v: u8) -> Seq<u8> {
    seq![v]
}

pub open spec fn parse_u8(s: Seq<u8>) -> Option<(u8, int)> {
    if s.len() >= 1 {
        Some((s[0], 1))
    } else {
        None
    }
}

pub open spec fn enc_u16(v: u16) -> Seq<u8> {
    spec_u16_to_le_bytes(v)
}

pub open spec fn parse_u16(s: Seq<u8>) -> Option<(u16, int)> {
    if s.len() >= 2 {
        Some((spec_u16_from_le_bytes(s.take(2)), 2))
    } else {
        None
    }
}

pub open spec fn enc_u32(v: u32) -> Seq<u8> {
    spec_u32_to_le_bytes(v)
}

pub open spec fn parse_u32(s: Seq<u8>) -> Option<(u32, int)> {
    if s.len() >= 4 {
        Some((spec_u32_from_le_bytes(s.take(4)), 4))
    } else {
        None
    }
}

pub open spec fn enc_u64(v: u64) -> Seq<u8> {
    spec_u64_to_le_bytes(v)
}

pub open spec fn parse_u64(s: Seq<u8>) -> Option<(u64, int)> {
    if s.len() >= 8 {
        Some((spec_u64_from_le_bytes(s.take(8)), 8))
    } else {
        None
    }
}

/// A fixed-length byte array is written as its bytes.
pub open spec fn parse_fixed(s: Seq<u8>, n: int) -> Option<(Seq<u8>, int)> {
    if s.len() >= n {
        Some((s.take(n), n))
    } else {
        None
    }
}

/// A byte string is written as its length, then its bytes.
pub open spec fn enc_bytes(b: Seq<u8>) -> Seq<u8> {
    enc_u32(b.len() as u32) + b
}

pub open spec fn parse_bytes(s: Seq<u8>) -> Option<(Seq<u8>, int)> {
    match parse_u32(s) {
        Some((n, k)) => if s.len() - k >= n {
            Some((s.subrange(k, k + n), k + n))
        } else {
            None
        },
        None => None,
    }
}

pub proof fn lemma_skip_prefix(a: Seq<u8>, b: Seq<u8>)
    ensures
        (a + b).skip(a.len() as int) == b,
{
    assert((a + b).skip(a.len() as int) =~= b);
}

pub proof fn lemma_skip_skip(s: Seq<u8>, a: int, b: int)
    requires
        0 <= a,
        0 <= b,
        a + b <= s.len(),
    ensures
        s.skip(a).skip(b) == s.skip(a + b),
{
    assert(s.skip(a).skip(b) =~= s.skip(a + b));
}

pub proof fn lemma_u8_round_trip(v: u8, rest: Seq<u8>)
    ensures
        parse_u8(enc_u8(v) + rest) == Some((v, 1int)),
        (enc_u8(v) + rest).skip(1) == rest,
{
    assert((enc_u8(v) + rest).skip(1) =~= rest);
}

pub proof fn lemma_u16_round_trip(v: u16, rest: Seq<u8>)
    ensures
        enc_u16(v).len() == 2,
        parse_u16(enc_u16(v) + rest) == Some((v, 2int)),
        (enc_u16(v) + rest).skip(2) == rest,
{
    lemma_auto_spec_u16_to_from_le_bytes();
    assert((enc_u16(v) + rest).take(2) =~= enc_u16(v));
    assert((enc_u16(v) + rest).skip(2) =~= rest);
}

pub proof fn lemma_u32_round_trip(v: u32, rest: Seq<u8>)
    ensures
        enc_u32(v).len() == 4,
        parse_u32(enc_u32(v) + rest) == Some((v, 4int)),
        (enc_u32(v) + rest).skip(4) == rest,
{
    lemma_auto_spec_u32_to_from_le_bytes();
    assert((enc_u32(v) + rest).take(4) =~= enc_u32(v));
    assert((enc_u32(v) + rest).skip(4) =~= rest);
}

pub proof fn lemma_u64_round_trip(v: u64, rest: Seq<u8>)
    ensures
        enc_u64(v).len() == 8,
        parse_u64(enc_u64(v) + rest) == Some((v, 8int)),
        (enc_u64(v) + rest).skip(8) == rest,
{
    lemma_auto_spec_u64_to_from_le_bytes();
    assert((enc_u64(v) + rest).take(8) =~= enc_u64(v));
    assert((enc_u64(v) + rest).skip(8) =~= rest);
}

pub proof fn lemma_fixed_round_trip(v: Seq<u8>, rest: Seq<u8>)
    ensures
        parse_fixed(v + rest, v.len() as int) == Some((v, v.len() as int)),
        (v + rest).skip(v.len() as int) == rest,
{
    assert((v + rest).take(v.len() as int) =~= v);
    assert((v + rest).skip(v.len() as int) =~= rest);
}

pub proof fn lemma_bytes_round_trip(v: Seq<u8>, rest: Seq<u8>)
    requires
        v.len() <= u32::MAX,
    ensures
        enc_bytes(v).len() == 4 + v.len(),
        parse_bytes(enc_bytes(v) + rest) == Some((v, 4 + v.len() as int)),
        (enc_bytes(v) + rest).skip(4 + v.len() as int) == rest,
{
    lemma_u32_round_trip(v.len() as u32, v + rest);
    assert(enc_bytes(v) + rest =~= enc_u32(v.len() as u32) + (v + rest));
    let s = enc_bytes(v) + rest;
    assert(s.subrange(4, 4 + v.len() as int) =~= v);
    assert(s.skip(4 + v.len() as int) =~= rest);
}

pub fn write_u8(v: u8, out: &mut Vec<u8>)
    ensures
        final(out)@ == old(out)@ + enc_u8(v),
{
    out.push(v);
    assert(final(out)@ =~= old(out)@ + enc_u8(v));
}

pub fn write_u16(v: u16, out: &mut Vec<u8>)
    ensures
        final(out)@ == old(out)@ + enc_u16(v),
{
    let mut b = u16_to_le_bytes(v);
    out.append(&mut b);
}

pub fn write_u32(v: u32, out: &mut Vec<u8>)
    ensures
        final(out)@ == old(out)@ + enc_u32(v),
{
    let mut b = u32_to_le_bytes(v);
    out.append(&mut b);
}

pub fn write_u64(v: u64, out: &mut Vec<u8>)
    ensures
        final(out)@ == old(out)@ + enc_u64(v),
{
    let mut b = u64_to_le_bytes(v);
    out.append(&mut b);
}

/// Appends the bytes of `v` one by one.
pub fn write_raw(v: &[u8], out: &mut Vec<u8>)
    ensures
        final(out)@ == old(out)@ + v@,
{
    let mut i: usize = 0;
    while i < v.len()
        invariant
            i <= v@.len(),
            out@ == old(out)@ + v@.take(i as int),
        decreases v@.len() - i,
    {
        out.push(v[i]);
        assert(v@.take(i + 1) =~= v@.take(i as int).push(v@[i as int]));
        i = i + 1;
    }
    assert(v@.take(i as int) =~= v@);
}

pub fn write_bytes(v: &Vec<u8>, out: &mut Vec<u8>)
    requires
        v@.len() <= u32::MAX,
    ensures
        final(out)@ == old(out)@ + enc_bytes(v@),
{
    write_u32(v.len() as u32, out);
    write_raw(v.as_slice(), out);
    assert(final(out)@ =~= old(out)@ + enc_bytes(v@));
}

pub fn read_u8(b: &[u8], pos: usize) -> (r: Option<(u8, usize)>)
    requires
        pos <= b@.len(),
    ensures
        match r {
            Some((v, p)) => parse_u8(b@.skip(pos as int)) == Some((v, p - pos)) && pos <= p <= b@.len(),
            None => parse_u8(b@.skip(pos as int)) is None,
        },
{
    if pos < b.len() {
        Some((b[pos], pos + 1))
    } else {
        None
    }
}

pub fn read_u16(b: &[u8], pos: usize) -> (r: Option<(u16, usize)>)
    requires
        pos <= b@.len(),
    ensures
        match r {
            Some((v, p)) => parse_u16(b@.skip(pos as int)) == Some((v, p - pos)) && pos <= p <= b@.len(),
            None => parse_u16(b@.skip(pos as int)) is None,
        },
{
    if b.len() - pos >= 2 {
        let s = slice_subrange(b, pos, pos + 2);
        assert(s@ =~= b@.skip(pos as int).take(2));
        Some((u16_from_le_bytes(s), pos + 2))
    } else {
        None
    }
}

pub fn read_u32(b: &[u8], pos: usize) -> (r: Option<(u32, usize)>)
    requires
        pos <= b@.len(),
    ensures
        match r {
            Some((v, p)) => parse_u32(b@.skip(pos as int)) == Some((v, p - pos)) && pos <= p <= b@.len(),
            None => parse_u32(b@.skip(pos as int)) is None,
        },
{
    if b.len() - pos >= 4 {
        let s = slice_subrange(b, pos, pos + 4);
        assert(s@ =~= b@.skip(pos as int).take(4));
        Some((u32_from_le_bytes(s), pos + 4))
    } else {
        None
    }
}

pub fn read_u64(b: &[u8], pos: usize) -> (r: Option<(u64, usize)>)
    requires
        pos <= b@.len(),
    ensures
        match r {
            Some((v, p)) => parse_u64(b@.skip(pos as int)) == Some((v, p - pos)) && pos <= p <= b@.len(),
            None => parse_u64(b@.skip(pos as int)) is None,
        },
{
    if b.len() - pos >= 8 {
        let s = slice_subrange(b, pos, pos + 8);
        assert(s@ =~= b@.skip(pos as int).take(8));
        Some((u64_from_le_bytes(s), pos + 8))
    } else {
        None
    }
}

pub fn read_array32(b: &[u8], pos: usize) -> (r: Option<([u8; 32], usize)>)
    requires
        pos <= b@.len(),
    ensures
        match r {
            Some((v, p)) => parse_fixed(b@.skip(pos as int), 32) == Some((v@, p - pos))
                && pos <= p <= b@.len(),
            None => parse_fixed(b@.skip(pos as int), 32) is None,
        },
{
    if b.len() - pos >= 32 {
        let mut a = [0u8; 32];
        let mut i: usize = 0;
        while i < 32
            invariant
                i <= 32,
                pos + 32 <= b.len(),
                a@.len() == 32,
                forall|j: int| 0 <= j < i ==> a@[j] == b@[pos + j],
            decreases 32 - i,
        {
            a[i] = b[pos + i];
            i = i + 1;
        }
        assert(a@ =~= b@.skip(pos as int).take(32));
        Some((a, pos + 32))
    } else {
        None
    }
}

pub fn read_array64(b: &[u8], pos: usize) -> (r: Option<([u8; 64], usize)>)
    requires
        pos <= b@.len(),
    ensures
        match r {
            Some((v, p)) => parse_fixed(b@.skip(pos as int), 64) == Some((v@, p - pos))
                && pos <= p <= b@.len(),
            None => parse_fixed(b@.skip(pos as int), 64) is None,
        },
{
    if b.len() - pos >= 64 {
        let mut a = [0u8; 64];
        let mut i: usize = 0;
        while i < 64
            invariant
                i <= 64,
                pos + 64 <= b.len(),
                a@.len() == 64,
                forall|j: int| 0 <= j < i ==> a@[j] == b@[pos + j],
            decreases 64 - i,
        {
            a[i] = b[pos + i];
            i = i + 1;
        }
        assert(a@ =~= b@.skip(pos as int).take(64));
        Some((a, pos + 64))
    } else {
        None
    }
}

pub fn read_array16(b: &[u8], pos: usize) -> (r: Option<([u8; 16], usize)>)
    requires
        pos <= b@.len(),
    ensures
        match r {
            Some((v, p)) => parse_fixed(b@.skip(pos as int), 16) == Some((v@, p - pos))
                && pos <= p <= b@.len(),
            None => parse_fixed(b@.skip(pos as int), 16) is None,
        },
{
    if b.len() - pos >= 16 {
        let mut a = [0u8; 16];
        let mut i: usize = 0;
        while i < 16
            invariant
                i <= 16,
                pos + 16 <= b.len(),
                a@.len() == 16,
                forall|j: int| 0 <= j < i ==> a@[j] == b@[pos + j],
            decreases 16 - i,
        {
            a[i] = b[pos + i];
            i = i + 1;
        }
        assert(a@ =~= b@.skip(pos as int).take(16));
        Some((a, pos + 16))
    } else {
        None
    }
}

pub fn read_bytes(b: &[u8], pos: usize) -> (r: Option<(Vec<u8>, usize)>)
    requires
        pos <= b@.len(),
    ensures
        match r {
            Some((v, p)) => parse_bytes(b@.skip(pos as int)) == Some((v@, p - pos))
                && pos <= p <= b@.len(),
            None => parse_bytes(b@.skip(pos as int)) is None,
        },
{
    match read_u32(b, pos) {
        None => None,
        Some((n, p)) => {
            if b.len() - p >= n as usize {
                let end = p + n as usize;
                let v = vstd::slice::slice_to_vec(slice_subrange(b, p, end));
                assert(v@ =~= b@.skip(pos as int).subrange(4, 4 + n));
                Some((v, end))
            } else {
                None
            }
        },
    }
}

/// A value with a place in the wire format: its model's encoding, the parser
/// that reads it back, and the writer and reader that carry both out.
pub trait Wire: Sized + View {
    /// The models that have an encoding (every list and string fits its count).
    spec fn wf_model(m: Self::V) -> bool;

    spec fn enc(m: Self::V) -> Seq<u8>;

    spec fn parse(s: Seq<u8>) -> Option<(Self::V, int)>;

    /// Reading back what was written gives the model back and consumes exactly its encoding.
    proof fn lemma_round_trip(m: Self::V, rest: Seq<u8>)
        requires
            Self::wf_model(m),
        ensures
            Self::parse(Self::enc(m) + rest) == Some((m, Self::enc(m).len() as int)),
    ;

    /// What the parser returns has an encoding and lies within its input.
    proof fn lemma_parse_wf(s: Seq<u8>)
        ensures
            Self::parse(s) matches Some((m, k)) ==> Self::wf_model(m) && 0 <= k <= s.len(),
    ;

    fn write(&self, out: &mut Vec<u8>)
        requires
            Self::wf_model(self@),
        ensures
            final(out)@ == old(out)@ + Self::enc(self@),
    ;

    fn read(b: &[u8], pos: usize) -> (r: Option<(Self, usize)>)
        requires
            pos <= b@.len(),
        ensures
            match r {
                Some((v, p)) => Self::parse(b@.skip(pos as int)) == Some((v@, p - pos))
                    && pos <= p <= b@.len(),
                None => Self::parse(b@.skip(pos as int)) is None,
            },
    ;
}

pub open spec fn models<T: View>(xs: Seq<T>) -> Seq<T::V> {
    xs.map_values(|x: T| x@)
}

pub open spec fn all_wf<T: Wire>(xs: Seq<T::V>) -> bool {
    forall|i: int| 0 <= i < xs.len() ==> T::wf_model(#[trigger] xs[i])
}

/// The encodings of the items, one after the other.
pub open spec fn enc_items<T: Wire>(xs: Seq<T::V>) -> Seq<u8>
    decreases xs.len(),
{
    if xs.len() == 0 {
        Seq::empty()
    } else {
        enc_items::<T>(xs.drop_last()) + T::enc(xs.last())
    }
}

/// A list is written as its item count, then its items.
pub open spec fn enc_list<T: Wire>(xs: Seq<T::V>) -> Seq<u8> {
    enc_u32(xs.len() as u32) + enc_items::<T>(xs)
}

pub open spec fn wf_list<T: Wire>(xs: Seq<T::V>) -> bool {
    xs.len() <= u32::MAX && all_wf::<T>(xs)
}

/// Parses `n` items one after the other.
pub open spec fn parse_items<T: Wire>(s: Seq<u8>, n: nat) -> Option<(Seq<T::V>, int)>
    decreases n,
{
    if n == 0 {
        Some((Seq::empty(), 0))
    } else {
        match T::parse(s) {
            None => None,
            Some((x, k)) => if 0 <= k <= s.len() {
                match parse_items::<T>(s.skip(k), (n - 1) as nat) {
                    None => None,
                    Some((xs, m)) => Some((seq![x] + xs, k + m)),
                }
            } else {
                None
            },
        }
    }
}

pub open spec fn parse_list<T: Wire>(s: Seq<u8>) -> Option<(Seq<T::V>, int)> {
    match parse_u32(s) {
        None => None,
        Some((n, k)) => match parse_items::<T>(s.skip(k), n as nat) {
            None => None,
            Some((xs, m)) => Some((xs, k + m)),
        },
    }
}

pub proof fn lemma_enc_items_front<T: Wire>(xs: Seq<T::V>)
    requires
        xs.len() > 0,
    ensures
        enc_items::<T>(xs) == T::enc(xs[0]) + enc_items::<T>(xs.skip(1)),
    decreases xs.len(),
{
    if xs.len() == 1 {
        assert(xs.drop_last() =~= Seq::<T::V>::empty());
        assert(xs.skip(1) =~= Seq::<T::V>::empty());
        assert(enc_items::<T>(xs) =~= T::enc(xs[0]) + enc_items::<T>(xs.skip(1)));
    } else {
        lemma_enc_items_front::<T>(xs.drop_last());
        assert(xs.drop_last().skip(1) =~= xs.skip(1).drop_last());
        assert(xs.skip(1).last() == xs.last());
        assert(enc_items::<T>(xs) =~= T::enc(xs[0]) + enc_items::<T>(xs.skip(1)));
    }
}

pub proof fn lemma_items_round_trip<T: Wire>(xs: Seq<T::V>, rest: Seq<u8>)
    requires
        all_wf::<T>(xs),
    ensures
        parse_items::<T>(enc_items::<T>(xs) + rest, xs.len()) == Some(
            (xs, enc_items::<T>(xs).len() as int),
        ),
    decreases xs.len(),
{
    if xs.len() == 0 {
        assert(xs =~= Seq::<T::V>::empty());
    } else {
        lemma_enc_items_front::<T>(xs);
        let tail = xs.skip(1);
        let e = T::enc(xs[0]);
        let s = enc_items::<T>(xs) + rest;
        assert(s =~= e + (enc_items::<T>(tail) + rest));
        T::lemma_round_trip(xs[0], enc_items::<T>(tail) + rest);
        assert(s.skip(e.len() as int) =~= enc_items::<T>(tail) + rest);
        assert(all_wf::<T>(tail));
        lemma_items_round_trip::<T>(tail, rest);
        assert(seq![xs[0]] + tail =~= xs);
    }
}

pub proof fn lemma_list_round_trip<T: Wire>(xs: Seq<T::V>, rest: Seq<u8>)
    requires
        wf_list::<T>(xs),
    ensures
        parse_list::<T>(enc_list::<T>(xs) + rest) == Some((xs, enc_list::<T>(xs).len() as int)),
{
    let s = enc_list::<T>(xs) + rest;
    lemma_u32_round_trip(xs.len() as u32, enc_items::<T>(xs) + rest);
    assert(s =~= enc_u32(xs.len() as u32) + (enc_items::<T>(xs) + rest));
    lemma_items_round_trip::<T>(xs, rest);
}

pub proof fn lemma_parse_items_wf<T: Wire>(s: Seq<u8>, n: nat)
    ensures
        parse_items::<T>(s, n) matches Some((xs, k)) ==> all_wf::<T>(xs) && xs.len() == n && 0
            <= k <= s.len(),
    decreases n,
{
    if n > 0 {
        T::lemma_parse_wf(s);
        if let Some((x, k)) = T::parse(s) {
            if 0 <= k <= s.len() {
                lemma_parse_items_wf::<T>(s.skip(k), (n - 1) as nat);
                if let Some((xs, m)) = parse_items::<T>(s.skip(k), (n - 1) as nat) {
                    let ys = seq![x] + xs;
                    assert forall|i: int| 0 <= i < ys.len() implies T::wf_model(#[trigger] ys[i]) by {
                        if i > 0 {
                            assert(ys[i] == xs[i - 1]);
                        }
                    }
                }
            }
        }
    }
}

pub proof fn lemma_parse_list_wf<T: Wire>(s: Seq<u8>)
    ensures
        parse_list::<T>(s) matches Some((xs, k)) ==> wf_list::<T>(xs) && 0 <= k <= s.len(),
{
    if let Some((n, k)) = parse_u32(s) {
        lemma_parse_items_wf::<T>(s.skip(k), n as nat);
    }
}

pub fn write_list<T: Wire>(v: &Vec<T>, out: &mut Vec<u8>)
    requires
        wf_list::<T>(models(v@)),
    ensures
        final(out)@ == old(out)@ + enc_list::<T>(models(v@)),
{
    write_u32(v.len() as u32, out);
    let ghost start = out@;
    let mut i: usize = 0;
    while i < v.len()
        invariant
            i <= v@.len(),
            wf_list::<T>(models(v@)),
            out@ == start + enc_items::<T>(models(v@.take(i as int))),
        decreases v@.len() - i,
    {
        assert(T::wf_model(models(v@)[i as int]));
        v[i].write(out);
        assert(models(v@.take(i + 1)).drop_last() =~= models(v@.take(i as int)));
        i = i + 1;
    }
    assert(v@.take(i as int) =~= v@);
    assert(final(out)@ =~= old(out)@ + enc_list::<T>(models(v@)));
}

pub open spec fn then_items<V>(acc: Seq<V>, k: int, r: Option<(Seq<V>, int)>) -> Option<
    (Seq<V>, int),
> {
    match r {
        None => None,
        Some((xs, m)) => Some((acc + xs, k + m)),
    }
}

pub fn read_list<T: Wire>(b: &[u8], pos: usize) -> (r: Option<(Vec<T>, usize)>)
    requires
        pos <= b@.len(),
    ensures
        match r {
            Some((v, p)) => parse_list::<T>(b@.skip(pos as int)) == Some((models(v@), p - pos))
                && pos <= p <= b@.len(),
            None => parse_list::<T>(b@.skip(pos as int)) is None,
        },
{
    let (n, p0) = match read_u32(b, pos) {
        None => return None,
        Some(x) => x,
    };
    proof {
        lemma_skip_skip(b@, pos as int, 4);
    }
    let mut v: Vec<T> = Vec::new();
    let mut p = p0;
    let mut i: u32 = 0;
    while i < n
        invariant
            pos + 4 == p0,
            p0 <= p <= b@.len(),
            i <= n,
            v@.len() == i,
            parse_u32(b@.skip(pos as int)) == Some((n, 4int)),
            b@.skip(pos as int).skip(4) == b@.skip(p0 as int),
            parse_items::<T>(b@.skip(p0 as int), n as nat) == then_items(
                models(v@),
                p - p0,
                parse_items::<T>(b@.skip(p as int), (n - i) as nat),
            ),
        decreases n - i,
    {
        proof {
            T::lemma_parse_wf(b@.skip(p as int));
        }
        match T::read(b, p) {
            None => {
                assert(parse_items::<T>(b@.skip(p as int), (n - i) as nat) is None);
                return None;
            },
            Some((x, q)) => {
                proof {
                    lemma_skip_skip(b@, p as int, q - p);
                    assert(models(v@.push(x)) =~= models(v@).push(x@));
                    let tl = parse_items::<T>(b@.skip(q as int), (n - i - 1) as nat);
                    if let Some((xs, m)) = tl {
                        assert(models(v@) + (seq![x@] + xs) =~= models(v@).push(x@) + xs);
                    }
                }
                v.push(x);
                p = q;
                i = i + 1;
            },
        }
    }
    assert(models(v@) + Seq::<T::V>::empty() =~= models(v@));
    Some((v, p))
}

/// Written as its 32 bytes.
impl Wire for Sha256Digest {
    open spec fn wf_model(m: Seq<u8>) -> bool {
        m.len() == 32
    }

    open spec fn enc(m: Seq<u8>) -> Seq<u8> {
        m
    }

    open spec fn parse(s: Seq<u8>) -> Option<(Seq<u8>, int)> {
        parse_fixed(s, 32)
    }

    proof fn lemma_round_trip(m: Seq<u8>, rest: Seq<u8>) {
        lemma_fixed_round_trip(m, rest);
    }

    proof fn lemma_parse_wf(s: Seq<u8>) {
    }

    fn write(&self, out: &mut Vec<u8>) {
        write_raw(self.data.as_slice(), out);
    }

    fn read(b: &[u8], pos: usize) -> (r: Option<(Sha256Digest, usize)>) {
        match read_array32(b, pos) {
            None => None,
            Some((a, p)) => Some((Sha256Digest { data: a }, p)),
        }
    }
}

/// Written as its 32 bytes.
impl Wire for PublicKey {
    open spec fn wf_model(m: Seq<u8>) -> bool {
        m.len() == 32
    }

    open spec fn enc(m: Seq<u8>) -> Seq<u8> {
        m
    }

    open spec fn parse(s: Seq<u8>) -> Option<(Seq<u8>, int)> {
        parse_fixed(s, 32)
    }

    proof fn lemma_round_trip(m: Seq<u8>, rest: Seq<u8>) {
        lemma_fixed_round_trip(m, rest);
    }

    proof fn lemma_parse_wf(s: Seq<u8>) {
    }

    fn write(&self, out: &mut Vec<u8>) {
        write_raw(self.bytes.as_slice(), out);
    }

    fn read(b: &[u8], pos: usize) -> (r: Option<(PublicKey, usize)>) {
        match read_array32(b, pos) {
            None => None,
            Some((a, p)) => Some((PublicKey { bytes: a }, p)),
        }
    }
}

/// Written as its 64 bytes.
impl Wire for Signature {
    open spec fn wf_model(m: Seq<u8>) -> bool {
        m.len() == 64
    }

    open spec fn enc(m: Seq<u8>) -> Seq<u8> {
        m
    }

    open spec fn parse(s: Seq<u8>) -> Option<(Seq<u8>, int)> {
        parse_fixed(s, 64)
    }

    proof fn lemma_round_trip(m: Seq<u8>, rest: Seq<u8>) {
        lemma_fixed_round_trip(m, rest);
    }

    proof fn lemma_parse_wf(s: Seq<u8>) {
    }

    fn write(&self, out: &mut Vec<u8>) {
        write_raw(self.bytes.as_slice(), out);
    }

    fn read(b: &[u8], pos: usize) -> (r: Option<(Signature, usize)>) {
        match read_array64(b, pos) {
            None => None,
            Some((a, p)) => Some((Signature { bytes: a }, p)),
        }
    }
}

/// What decoding a whole byte string gives: the value, if one value's
/// encoding is all of it.
pub open spec fn decoded<T: Wire>(b: Seq<u8>) -> Result<T::V, DecodeError> {
    match T::parse(b) {
        None => Err(DecodeError::Malformed),
        Some((m, k)) => if k == b.len() {
            Ok(m)
        } else {
            Err(DecodeError::TrailingBytes)
        },
    }
}

/// The encoding of a value.
pub fn encode<T: Wire>(x: &T) -> (r: Vec<u8>)
    requires
        T::wf_model(x@),
    ensures
        r@ == T::enc(x@),
{
    let mut out: Vec<u8> = Vec::new();
    x.write(&mut out);
    assert(out@ =~= T::enc(x@));
    out
}

/// Decodes a value that must take up the whole byte string.
pub fn decode<T: Wire>(b: &[u8]) -> (r: Result<T, DecodeError>)
    ensures
        match r {
            Ok(v) => decoded::<T>(b@) == Ok::<T::V, DecodeError>(v@),
            Err(e) => decoded::<T>(b@) == Err::<T::V, DecodeError>(e),
        },
{
    assert(b@.skip(0) =~= b@);
    match T::read(b, 0) {
        None => Err(DecodeError::Malformed),
        Some((v, p)) => {
            if p == b.len() {
                Ok(v)
            } else {
                Err(DecodeError::TrailingBytes)
            }
        },
    }
}

/// Decoding the encoding of any value that has one gives that value back.
pub proof fn lemma_decode_encode<T: Wire>(m: T::V)
    requires
        T::wf_model(m),
    ensures
        decoded::<T>(T::enc(m)) == Ok::<T::V, DecodeError>(m),
{
    T::lemma_round_trip(m, Seq::empty());
    assert(T::enc(m) + Seq::<u8>::empty() =~= T::enc(m));
}

/// The encoding of a value is never the encoding of another value.
pub proof fn lemma_encoding_injective<T: Wire>(m1: T::V, m2: T::V)
    requires
        T::wf_model(m1),
        T::wf_model(m2),
        T::enc(m1) == T::enc(m2),
    ensures
        m1 == m2,
{
    lemma_decode_encode::<T>(m1);
    lemma_decode_encode::<T>(m2);
}

} // verus!
