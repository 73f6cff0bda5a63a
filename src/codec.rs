use vstd::prelude::*;

verus! {

/// Bytes of a key per group of its encoding.
pub const GROUP_SIZE: usize = 8;

/// Marker of a full group that more groups follow.
pub const MARKER: u8 = 255;

/// The memory-comparable encoding of a raw key: groups of eight bytes, the last
/// one padded with zeros, each followed by a marker byte that is 255 less the
/// padding.
pub open spec fn encoded(k: Seq<u8>) -> Seq<u8>
    decreases k.len(),
{
    if k.len() >= 8 {
        k.subrange(0, 8) + seq![255u8] + encoded(k.skip(8))
    } else {
        k + Seq::new((8 - k.len()) as nat, |i: int| 0u8) + seq![(255 - (8 - k.len())) as u8]
    }
}

/// The raw key that an encoded key starts with, if it is well formed: bytes
/// after the last group are ignored.
pub open spec fn decoded(e: Seq<u8>) -> Option<Seq<u8>>
    decreases e.len(),
{
    if e.len() < 9 {
        None
    } else if e[8] == 255 {
        match decoded(e.skip(9)) {
            None => None,
            Some(rest) => Some(e.subrange(0, 8) + rest),
        }
    } else if e[8] < 247 {
        None
    } else {
        let pad = 255 - e[8];
        if forall|i: int| 8 - pad <= i < 8 ==> e[i] == 0 {
            Some(e.subrange(0, 8 - pad))
        } else {
            None
        }
    }
}

/// Decoding an encoded key gives the key back.
pub proof fn lemma_decode_encoded(k: Seq<u8>)
    ensures
        decoded(encoded(k)) == Some(k),
    decreases k.len(),
{
    let e = encoded(k);
    if k.len() >= 8 {
        lemma_decode_encoded(k.skip(8));
        assert(e.skip(9) =~= encoded(k.skip(8)));
        assert(e.subrange(0, 8) + k.skip(8) =~= k);
    } else {
        assert(e.subrange(0, k.len() as int) =~= k);
    }
}

/// The encoded form of raw key `k`.
pub fn encode_key(k: &[u8]) -> (r: Vec<u8>)
    ensures
        r@ == encoded(k@),
{
    let mut r: Vec<u8> = Vec::new();
    let mut index: usize = 0;
    assert(k@.skip(0) =~= k@);
    assert(r@ + encoded(k@) =~= encoded(k@));
    while k.len() - index >= 8
        invariant
            index <= k@.len(),
            index % 8 == 0,
            r@ + encoded(k@.skip(index as int)) == encoded(k@),
        decreases k.len() - index,
    {
        let ghost before = r@;
        let mut j: usize = 0;
        while j < 8
            invariant
                j <= 8,
                index <= k@.len(),
                index + 8 <= k.len(),
                r@ == before + k@.subrange(index as int, index + j),
            decreases 8 - j,
        {
            let pos: usize = index + j;
            r.push(k[pos]);
            j = j + 1;
            assert(r@ =~= before + k@.subrange(index as int, index + j));
        }
        r.push(MARKER);
        proof {
            let s = k@.skip(index as int);
            assert(s.subrange(0, 8) =~= k@.subrange(index as int, index + 8));
            assert(s.skip(8) =~= k@.skip(index + 8));
            assert(r@ + encoded(k@.skip(index + 8)) =~= before + encoded(s));
        }
        index = index + 8;
    }
    let ghost before = r@;
    let remain: usize = k.len() - index;
    let mut j: usize = index;
    while j < k.len()
        invariant
            index <= j <= k@.len(),
            r@ == before + k@.subrange(index as int, j as int),
        decreases k.len() - j,
    {
        r.push(k[j]);
        j = j + 1;
        assert(r@ =~= before + k@.subrange(index as int, j as int));
    }
    let pad: usize = 8 - remain;
    let mut p: usize = 0;
    while p < pad
        invariant
            p <= pad,
            index <= k@.len(),
            pad == 8 - remain,
            r@ == before + k@.subrange(index as int, k@.len() as int) + Seq::new(
                p as nat,
                |i: int| 0u8,
            ),
        decreases pad - p,
    {
        r.push(0u8);
        p = p + 1;
        assert(r@ =~= before + k@.subrange(index as int, k@.len() as int) + Seq::new(
            p as nat,
            |i: int| 0u8,
        ));
    }
    r.push(MARKER - pad as u8);
    proof {
        let s = k@.skip(index as int);
        assert(s =~= k@.subrange(index as int, k@.len() as int));
        assert(r@ =~= before + encoded(s));
        assert(encoded(k@.skip(k@.len() as int)) == encoded(Seq::<u8>::empty()));
    }
    r
}

/// `head` followed by the key that `tail` holds, if any.
pub open spec fn prefixed(head: Seq<u8>, tail: Option<Seq<u8>>) -> Option<Seq<u8>> {
    match tail {
        None => None,
        Some(t) => Some(head + t),
    }
}

/// The raw key that the encoded key `e` starts with, or `None` where `e` is
/// not well formed.
pub fn decode_key(e: &[u8]) -> (r: Option<Vec<u8>>)
    ensures
        match r {
            None => decoded(e@) is None,
            Some(v) => decoded(e@) == Some(v@),
        },
{
    let n = e.len();
    let mut out: Vec<u8> = Vec::new();
    let mut pos: usize = 0;
    assert(e@.skip(0) =~= e@);
    assert(out@ + Seq::<u8>::empty() =~= Seq::<u8>::empty());
    while n - pos >= 9 && e[pos + 8] == MARKER
        invariant
            n == e@.len(),
            pos <= n,
            decoded(e@) == prefixed(out@, decoded(e@.skip(pos as int))),
        decreases n - pos,
    {
        let ghost before = out@;
        let ghost rest = e@.skip(pos as int);
        let mut j: usize = 0;
        while j < 8
            invariant
                j <= 8,
                pos + 9 <= n,
                n == e@.len(),
                out@ == before + e@.subrange(pos as int, pos + j),
            decreases 8 - j,
        {
            let at: usize = pos + j;
            out.push(e[at]);
            j = j + 1;
            assert(out@ =~= before + e@.subrange(pos as int, pos + j));
        }
        proof {
            assert(rest.skip(9) =~= e@.skip(pos + 9));
            assert(rest.subrange(0, 8) =~= e@.subrange(pos as int, pos + 8));
            match decoded(e@.skip(pos + 9)) {
                None => {},
                Some(t) => {
                    assert(before + (e@.subrange(pos as int, pos + 8) + t) =~= out@ + t);
                },
            }
        }
        pos = pos + 9;
    }
    let ghost rest = e@.skip(pos as int);
    if n - pos < 9 {
        return None;
    }
    let marker = e[pos + 8];
    if marker < MARKER - 8 {
        return None;
    }
    let pad: usize = (MARKER - marker) as usize;
    let mut q: usize = 8 - pad;
    while q < 8
        invariant
            pos + 9 <= n,
            n == e@.len(),
            8 - pad <= q <= 8,
            pad <= 8,
            rest == e@.skip(pos as int),
            marker == e@[pos + 8],
            marker >= 247,
            pad == 255 - marker,
            decoded(e@) == prefixed(out@, decoded(rest)),
            forall|i: int| 8 - pad <= i < q ==> rest[i] == 0,
        decreases 8 - q,
    {
        if e[pos + q] != 0 {
            assert(rest[q as int] != 0);
            assert(rest[8] == marker && pad == 255 - marker);
            assert(decoded(rest) is None);
            return None;
        }
        q = q + 1;
    }
    let ghost before = out@;
    let mut j: usize = 0;
    while j < 8 - pad
        invariant
            j <= 8 - pad,
            pad <= 8,
            pos + 9 <= n,
            n == e@.len(),
            out@ == before + e@.subrange(pos as int, pos + j),
        decreases 8 - pad - j,
    {
        let at: usize = pos + j;
        out.push(e[at]);
        j = j + 1;
        assert(out@ =~= before + e@.subrange(pos as int, pos + j));
    }
    assert(rest.subrange(0, 8 - pad) =~= e@.subrange(pos as int, pos + 8 - pad));
    Some(out)
}

} // verus!
