use vstd::prelude::*;
use crate::region::Region;

verus! {

/// The decimal digits of `n`, in ASCII.
pub open spec fn decimal(n: nat) -> Seq<u8>
    decreases n,
{
    if n < 10 {
        seq![(48 + n) as u8]
    } else {
        decimal(n / 10).push((48 + n % 10) as u8)
    }
}

/// The name of a shard's backup files: `{store_id}_{region_id}_{version}`, in ASCII.
pub open spec fn file_name_of(store_id: u64, region_id: u64, version: u64) -> Seq<u8> {
    decimal(store_id as nat) + seq![95u8] + decimal(region_id as nat) + seq![95u8] + decimal(
        version as nat,
    )
}

/// The characters of an ASCII byte string.
pub open spec fn ascii_chars(b: Seq<u8>) -> Seq<char> {
    Seq::new(b.len(), |i: int| b[i] as char)
}

pub(crate) proof fn lemma_decimal_ascii(n: nat)
    ensures
        forall|i: int| 0 <= i < decimal(n).len() ==> #[trigger] decimal(n)[i] < 128,
    decreases n,
{
    if n >= 10 {
        lemma_decimal_ascii(n / 10);
        let d = decimal(n);
        let p = decimal(n / 10);
        assert forall|i: int| 0 <= i < d.len() implies #[trigger] d[i] < 128 by {
            if i < p.len() {
                assert(d[i] == p[i]);
            }
        }
    }
}

/// Appends the decimal digits of `n`.
pub(crate) fn push_decimal(out: &mut Vec<u8>, n: u64)
    ensures
        final(out)@ == old(out)@ + decimal(n as nat),
    decreases n,
{
    if n >= 10 {
        push_decimal(out, n / 10);
    }
    out.push(48 + (n % 10) as u8);
    assert(final(out)@ =~= old(out)@ + decimal(n as nat));
}

/// Relies on `String::from_utf8`: ASCII bytes are valid UTF-8 and give one
/// character each.
#[verifier::external_body]
pub(crate) fn ascii_string(b: Vec<u8>) -> (r: String)
    requires
        forall|i: int| 0 <= i < b@.len() ==> #[trigger] b@[i] < 128,
    ensures
        r@ == ascii_chars(b@),
{
    match String::from_utf8(b) {
        Ok(s) => s,
        Err(_) => String::new(),
    }
}

/// The name of the backup files of `region` made on store `store_id`: the
/// store, the region and the region's epoch version, joined by `_`.
pub fn backup_file_name(store_id: u64, region: &Region) -> (r: String)
    ensures
        r@ == ascii_chars(file_name_of(store_id, region.id, region.epoch.version)),
{
    let mut b: Vec<u8> = Vec::new();
    push_decimal(&mut b, store_id);
    b.push(95);
    push_decimal(&mut b, region.id);
    b.push(95);
    push_decimal(&mut b, region.epoch.version);
    proof {
        lemma_decimal_ascii(store_id as nat);
        lemma_decimal_ascii(region.id as nat);
        lemma_decimal_ascii(region.epoch.version as nat);
        assert(b@ =~= file_name_of(store_id, region.id, region.epoch.version));
        let f = file_name_of(store_id, region.id, region.epoch.version);
        let d1 = decimal(store_id as nat);
        let d2 = decimal(region.id as nat);
        assert forall|i: int| 0 <= i < f.len() implies #[trigger] f[i] < 128 by {
            if i < d1.len() {
                assert(f[i] == d1[i]);
            } else if i == d1.len() {
            } else if i < d1.len() + 1 + d2.len() {
                assert(f[i] == d2[i - d1.len() - 1]);
            } else if i == d1.len() + 1 + d2.len() {
            } else {
                assert(f[i] == decimal(region.epoch.version as nat)[i - d1.len() - 2 - d2.len()]);
            }
        }
    }
    ascii_string(b)
}

/// All bytes of `b` are ASCII.
pub open spec fn is_ascii_bytes(b: Seq<u8>) -> bool {
    forall|i: int| 0 <= i < b.len() ==> #[trigger] b[i] < 128
}

pub(crate) proof fn lemma_ascii_concat(a: Seq<u8>, b: Seq<u8>)
    requires
        is_ascii_bytes(a),
        is_ascii_bytes(b),
    ensures
        is_ascii_bytes(a + b),
{
    assert forall|i: int| 0 <= i < (a + b).len() implies #[trigger] (a + b)[i] < 128 by {
        if i < a.len() {
            assert((a + b)[i] == a[i]);
        } else {
            assert((a + b)[i] == b[i - a.len()]);
        }
    }
}

/// The upper-case hexadecimal digit of `d`, below 16, in ASCII.
pub open spec fn hex_digit(d: u8) -> u8 {
    if d < 10 { (48 + d) as u8 } else { (55 + d) as u8 }
}

/// Two upper-case hexadecimal digits for each byte of `b`, in ASCII.
pub open spec fn hex_upper(b: Seq<u8>) -> Seq<u8>
    decreases b.len(),
{
    if b.len() == 0 {
        Seq::empty()
    } else {
        hex_upper(b.drop_last()) + seq![hex_digit(b.last() / 16), hex_digit(b.last() % 16)]
    }
}

pub(crate) proof fn lemma_hex_ascii(b: Seq<u8>)
    ensures
        is_ascii_bytes(hex_upper(b)),
    decreases b.len(),
{
    if b.len() > 0 {
        lemma_hex_ascii(b.drop_last());
        lemma_ascii_concat(
            hex_upper(b.drop_last()),
            seq![hex_digit(b.last() / 16), hex_digit(b.last() % 16)],
        );
    }
}

/// Appends the upper-case hexadecimal digits of `b`.
pub(crate) fn push_hex_upper(out: &mut Vec<u8>, b: &Vec<u8>)
    ensures
        final(out)@ == old(out)@ + hex_upper(b@),
{
    let ghost start = out@;
    let mut i: usize = 0;
    while i < b.len()
        invariant
            i <= b@.len(),
            out@ == start + hex_upper(b@.subrange(0, i as int)),
        decreases b.len() - i,
    {
        let hi = b[i] / 16;
        let lo = b[i] % 16;
        out.push(if hi < 10 { 48 + hi } else { 55 + hi });
        out.push(if lo < 10 { 48 + lo } else { 55 + lo });
        proof {
            let p = b@.subrange(0, i + 1);
            assert(p.drop_last() =~= b@.subrange(0, i as int));
            assert(p.last() == b@[i as int]);
        }
        i = i + 1;
        assert(out@ =~= start + hex_upper(b@.subrange(0, i as int)));
    }
    assert(b@.subrange(0, b@.len() as int) =~= b@);
}

/// Appends the bytes of `b`.
pub(crate) fn push_bytes(out: &mut Vec<u8>, b: &Vec<u8>)
    ensures
        final(out)@ == old(out)@ + b@,
{
    let ghost start = out@;
    let mut i: usize = 0;
    while i < b.len()
        invariant
            i <= b@.len(),
            out@ == start + b@.subrange(0, i as int),
        decreases b.len() - i,
    {
        out.push(b[i]);
        i = i + 1;
        assert(out@ =~= start + b@.subrange(0, i as int));
    }
    assert(b@.subrange(0, b@.len() as int) =~= b@);
}

} // verus!
