//! Fixed-width big-endian integers, the building block of the settings
//! snapshot format.

use vstd::prelude::*;

verus! {

/// `256^n`.
pub open spec fn pow256(n: nat) -> nat
    decreases n,
{
    if n == 0 {
        1
    } else {
        256 * pow256((n - 1) as nat)
    }
}

/// The number that a big-endian byte sequence denotes.
pub open spec fn be_value(s: Seq<u8>) -> nat
    decreases s.len(),
{
    if s.len() == 0 {
        0
    } else {
        be_value(s.drop_last()) * 256 + s.last() as nat
    }
}

/// The `n`-byte big-endian encoding of `v`.
pub open spec fn be_bytes(v: nat, n: nat) -> Seq<u8>
    decreases n,
{
    if n == 0 {
        Seq::empty()
    } else {
        be_bytes(v / 256, (n - 1) as nat).push((v % 256) as u8)
    }
}

pub proof fn lemma_pow256_monotone(a: nat, b: nat)
    requires
        a <= b,
    ensures
        1 <= pow256(a) <= pow256(b),
    decreases b,
{
    if b > 0 {
        if a < b {
            lemma_pow256_monotone(a, (b - 1) as nat);
        } else {
            lemma_pow256_monotone((a - 1) as nat, (b - 1) as nat);
        }
    }
}

pub proof fn lemma_pow256_values()
    ensures
        pow256(1) == 0x100,
        pow256(4) == 0x1_0000_0000,
        pow256(5) == 0x100_0000_0000,
        pow256(8) == 0x1_0000_0000_0000_0000,
        pow256(12) == 0x1_0000_0000_0000_0000_0000_0000,
        pow256(16) == 0x1_0000_0000_0000_0000_0000_0000_0000_0000,
{
    reveal_with_fuel(pow256, 17);
}

/// A big-endian value is below `256^len`.
pub proof fn lemma_be_value_bound(s: Seq<u8>)
    ensures
        be_value(s) < pow256(s.len()),
    decreases s.len(),
{
    if s.len() > 0 {
        lemma_be_value_bound(s.drop_last());
    }
}

/// Encoding then reading back gives the value.
pub proof fn lemma_be_roundtrip(v: nat, n: nat)
    requires
        v < pow256(n),
    ensures
        be_bytes(v, n).len() == n,
        be_value(be_bytes(v, n)) == v,
    decreases n,
{
    if n > 0 {
        lemma_be_roundtrip(v / 256, (n - 1) as nat);
        let b = be_bytes(v, n);
        assert(b.drop_last() =~= be_bytes(v / 256, (n - 1) as nat));
    }
}

/// Reading then encoding gives the bytes back.
pub proof fn lemma_be_bytes_of_value(s: Seq<u8>)
    ensures
        be_bytes(be_value(s), s.len()) == s,
    decreases s.len(),
{
    if s.len() > 0 {
        lemma_be_bytes_of_value(s.drop_last());
        let v = be_value(s);
        assert(v / 256 == be_value(s.drop_last()));
        assert(v % 256 == s.last());
        assert(be_bytes(v, s.len()) =~= s.drop_last().push(s.last()));
    }
}

/// Appends the `n`-byte big-endian encoding of `v`.
pub fn push_be(out: &mut Vec<u8>, v: u128, n: usize)
    requires
        n <= 16,
        v < pow256(n as nat),
    ensures
        final(out)@ == old(out)@ + be_bytes(v as nat, n as nat),
    decreases n,
{
    if n > 0 {
        push_be(out, v / 256, n - 1);
        out.push((v % 256) as u8);
        proof {
            assert(be_bytes(v as nat, n as nat) == be_bytes((v / 256) as nat, (n - 1) as nat).push(
                (v % 256) as u8,
            ));
        }
    } else {
        assert(old(out)@ + be_bytes(v as nat, 0) =~= old(out)@);
    }
}

/// Reads the `n` big-endian bytes at `pos`, which the buffer holds.
pub fn be_at(buf: &[u8], pos: usize, n: usize) -> (v: u128)
    requires
        n <= 16,
        pos + n <= buf@.len(),
    ensures
        v == be_value(buf@.subrange(pos as int, pos + n)),
        v < pow256(n as nat),
{
    let mut acc: u128 = 0;
    let mut i: usize = 0;
    proof {
        lemma_pow256_values();
        assert(buf@.subrange(pos as int, pos as int) =~= Seq::<u8>::empty());
    }
    while i < n
        invariant
            n <= 16,
            pos + n <= buf@.len(),
            buf@.len() == buf.len(),
            i <= n,
            acc == be_value(buf@.subrange(pos as int, pos + i)),
            pow256(16) == 0x1_0000_0000_0000_0000_0000_0000_0000_0000,
        decreases n - i,
    {
        proof {
            lemma_be_value_bound(buf@.subrange(pos as int, pos + i));
            lemma_pow256_monotone((i + 1) as nat, 16);
            assert(pow256((i + 1) as nat) == 256 * pow256(i as nat));
            let next = buf@.subrange(pos as int, pos + i + 1);
            assert(next.drop_last() =~= buf@.subrange(pos as int, pos + i));
        }
        acc = acc * 256 + buf[pos + i] as u128;
        i = i + 1;
    }
    proof {
        lemma_be_value_bound(buf@.subrange(pos as int, pos + n));
    }
    acc
}

/// Copies the `n` bytes at `pos`, which the buffer holds.
pub fn bytes_at(buf: &[u8], pos: usize, n: usize) -> (r: Vec<u8>)
    requires
        pos + n <= buf@.len(),
    ensures
        r@ == buf@.subrange(pos as int, pos + n),
{
    let mut r: Vec<u8> = Vec::new();
    let mut i: usize = 0;
    while i < n
        invariant
            pos + n <= buf@.len(),
            buf@.len() == buf.len(),
            i <= n,
            r@ == buf@.subrange(pos as int, pos + i),
        decreases n - i,
    {
        r.push(buf[pos + i]);
        i = i + 1;
        assert(r@ =~= buf@.subrange(pos as int, pos + i));
    }
    r
}

/// Appends all bytes of `src`.
pub fn push_bytes(out: &mut Vec<u8>, src: &Vec<u8>)
    ensures
        final(out)@ == old(out)@ + src@,
{
    let mut i: usize = 0;
    while i < src.len()
        invariant
            i <= src@.len(),
            out@ == old(out)@ + src@.subrange(0, i as int),
        decreases src@.len() - i,
    {
        out.push(src[i]);
        i = i + 1;
        assert(out@ =~= old(out)@ + src@.subrange(0, i as int));
    }
    assert(src@.subrange(0, src@.len() as int) =~= src@);
}

/// The concatenated encodings of a sequence of items.
pub open spec fn concat_items<T>(s: Seq<T>, enc: spec_fn(T) -> Seq<u8>) -> Seq<u8>
    decreases s.len(),
{
    if s.len() == 0 {
        Seq::empty()
    } else {
        concat_items(s.drop_last(), enc) + enc(s.last())
    }
}

/// Reads `k` consecutive items of `w` bytes each, starting at `pos`.
pub open spec fn parse_items<T>(
    b: Seq<u8>,
    pos: int,
    k: nat,
    w: nat,
    dec: spec_fn(Seq<u8>) -> T,
) -> Option<(Seq<T>, int)>
    decreases k,
{
    if k == 0 {
        if 0 <= pos <= b.len() {
            Some((Seq::empty(), pos))
        } else {
            None
        }
    } else {
        match parse_items(b, pos, (k - 1) as nat, w, dec) {
            None => None,
            Some((items, p)) => if p + w <= b.len() {
                Some((items.push(dec(b.subrange(p, p + w))), p + w))
            } else {
                None
            },
        }
    }
}

/// A counted list: one count byte, then that many items.
pub open spec fn parse_list<T>(b: Seq<u8>, pos: int, w: nat, dec: spec_fn(Seq<u8>) -> T) -> Option<
    ((u8, Seq<T>), int),
> {
    if 0 <= pos < b.len() {
        match parse_items(b, pos + 1, b[pos] as nat, w, dec) {
            None => None,
            Some((items, p)) => Some(((b[pos], items), p)),
        }
    } else {
        None
    }
}

/// The encoding of a counted list: the item count as one byte, then the items.
pub open spec fn list_bytes<T>(s: Seq<T>, enc: spec_fn(T) -> Seq<u8>) -> Seq<u8> {
    seq![s.len() as u8] + concat_items(s, enc)
}

/// Items of a fixed width that encode to exactly `w` bytes and decode back.
pub open spec fn item_codec_roundtrips<T>(
    w: nat,
    dec: spec_fn(Seq<u8>) -> T,
    enc: spec_fn(T) -> Seq<u8>,
    wf: spec_fn(T) -> bool,
) -> bool {
    &&& forall|x: T| #![trigger wf(x)] wf(x) ==> enc(x).len() == w && dec(enc(x)) == x
    &&& forall|v: Seq<u8>| #![trigger dec(v)] v.len() == w ==> enc(dec(v)) == v && wf(dec(v))
}

pub proof fn lemma_concat_items_push<T>(s: Seq<T>, x: T, enc: spec_fn(T) -> Seq<u8>)
    ensures
        concat_items(s.push(x), enc) == concat_items(s, enc) + enc(x),
{
    assert(s.push(x).drop_last() =~= s);
}

/// Reading items back from their concatenated encodings gives the items.
pub proof fn lemma_parse_items_of_concat<T>(
    b: Seq<u8>,
    pos: int,
    s: Seq<T>,
    w: nat,
    dec: spec_fn(Seq<u8>) -> T,
    enc: spec_fn(T) -> Seq<u8>,
    wf: spec_fn(T) -> bool,
)
    requires
        item_codec_roundtrips(w, dec, enc, wf),
        forall|i: int| 0 <= i < s.len() ==> #[trigger] wf(s[i]),
        0 <= pos,
        pos + concat_items(s, enc).len() <= b.len(),
        b.subrange(pos, pos + concat_items(s, enc).len()) == concat_items(s, enc),
    ensures
        parse_items(b, pos, s.len(), w, dec) == Some((s, pos + concat_items(s, enc).len())),
    decreases s.len(),
{
    if s.len() > 0 {
        let s0 = s.drop_last();
        let x = s.last();
        let e0 = concat_items(s0, enc);
        let e = concat_items(s, enc);
        assert(wf(s[s.len() - 1]));
        assert(e == e0 + enc(x));
        assert(b.subrange(pos, pos + e0.len()) =~= e.subrange(0, e0.len() as int));
        assert(e.subrange(0, e0.len() as int) =~= e0);
        assert forall|i: int| 0 <= i < s0.len() implies #[trigger] wf(s0[i]) by {
            assert(wf(s[i]));
        }
        lemma_parse_items_of_concat(b, pos, s0, w, dec, enc, wf);
        let p = pos + e0.len();
        assert(b.subrange(p, p + w) =~= e.subrange(e0.len() as int, e.len() as int));
        assert(e.subrange(e0.len() as int, e.len() as int) =~= enc(x));
        assert(s0.push(x) =~= s);
    }
}

/// What parses as items is the concatenation of their encodings.
pub proof fn lemma_concat_of_parse_items<T>(
    b: Seq<u8>,
    pos: int,
    k: nat,
    w: nat,
    dec: spec_fn(Seq<u8>) -> T,
    enc: spec_fn(T) -> Seq<u8>,
    wf: spec_fn(T) -> bool,
)
    requires
        item_codec_roundtrips(w, dec, enc, wf),
        parse_items(b, pos, k, w, dec) is Some,
    ensures
        ({
            let (s, p) = parse_items(b, pos, k, w, dec)->0;
            &&& s.len() == k
            &&& forall|i: int| 0 <= i < s.len() ==> #[trigger] wf(s[i])
            &&& 0 <= pos <= p <= b.len()
            &&& p == pos + concat_items(s, enc).len()
            &&& b.subrange(pos, p) == concat_items(s, enc)
        }),
    decreases k,
{
    if k == 0 {
        assert(b.subrange(pos, pos) =~= Seq::<u8>::empty());
    } else {
        lemma_concat_of_parse_items(b, pos, (k - 1) as nat, w, dec, enc, wf);
        let (s0, p0) = parse_items(b, pos, (k - 1) as nat, w, dec)->0;
        assert(p0 + w <= b.len());
        let v = b.subrange(p0, p0 + w);
        assert(v.len() == w);
        let x = dec(v);
        assert(enc(x) == v && wf(x));
        let s = s0.push(x);
        lemma_concat_items_push(s0, x, enc);
        assert(b.subrange(pos, p0 + w) =~= b.subrange(pos, p0) + v);
        assert forall|i: int| 0 <= i < s.len() implies #[trigger] wf(s[i]) by {
            if i < s0.len() {
                assert(wf(s0[i]));
            }
        }
    }
}


/// Once `j` items cannot be read, no more items can.
pub proof fn lemma_parse_items_none_grows<T>(
    b: Seq<u8>,
    pos: int,
    j: nat,
    k: nat,
    w: nat,
    dec: spec_fn(Seq<u8>) -> T,
)
    requires
        j <= k,
        parse_items(b, pos, j, w, dec) is None,
    ensures
        parse_items(b, pos, k, w, dec) is None,
    decreases k,
{
    if j < k {
        lemma_parse_items_none_grows(b, pos, j, (k - 1) as nat, w, dec);
    }
}

} // verus!
