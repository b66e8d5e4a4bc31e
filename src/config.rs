//! Reading byte lists such as `192,168,0,1` from configuration text.
use vstd::prelude::*;
use vstd::slice::slice_subrange;
use vstd::string::StringSliceAdditionalSpecFns;

verus! {

/// An ASCII decimal digit.
pub open spec fn is_digit(b: u8) -> bool {
    0x30 <= b <= 0x39
}

/// The value of a string of decimal digits.
pub open spec fn decimal(d: Seq<u8>) -> nat
    decreases d.len(),
{
    if d.len() == 0 {
        0
    } else {
        decimal(d.drop_last()) * 10 + (d.last() - 0x30) as nat
    }
}

/// The digits of a field, without the `+` sign it may start with.
pub open spec fn field_digits(f: Seq<u8>) -> Seq<u8> {
    if f.len() > 0 && f[0] == 0x2Bu8 {
        f.drop_first()
    } else {
        f
    }
}

/// A field read as a byte, as Rust reads a `u8` from text: an optional `+`,
/// at least one digit and nothing else, at most 255.
pub open spec fn field_value(f: Seq<u8>) -> Option<u8> {
    let d = field_digits(f);
    if d.len() > 0 && (forall|i: int| 0 <= i < d.len() ==> is_digit(#[trigger] d[i])) && decimal(d)
        <= 255 {
        Some(decimal(d) as u8)
    } else {
        None
    }
}

/// The text between commas; one field more than there are commas.
pub open spec fn split_commas(b: Seq<u8>) -> Seq<Seq<u8>>
    decreases b.len(),
{
    if b.len() == 0 {
        seq![Seq::empty()]
    } else {
        let prev = split_commas(b.drop_last());
        if b.last() == 0x2Cu8 {
            prev.push(Seq::empty())
        } else {
            prev.update(prev.len() - 1, prev.last().push(b.last()))
        }
    }
}

/// The bytes that comma-separated text lists, when every field is one.
pub open spec fn csv_bytes(b: Seq<u8>) -> Option<Seq<u8>> {
    let fs = split_commas(b);
    if forall|j: int| 0 <= j < fs.len() ==> (#[trigger] field_value(fs[j])) is Some {
        Some(Seq::new(fs.len(), |j: int| field_value(fs[j])->0))
    } else {
        None
    }
}

proof fn lemma_split_commas_nonempty(b: Seq<u8>)
    ensures
        split_commas(b).len() >= 1,
    decreases b.len(),
{
    if b.len() > 0 {
        lemma_split_commas_nonempty(b.drop_last());
    }
}

/// A longer run of digits is worth at least as much as its prefix.
proof fn lemma_decimal_prefix(d: Seq<u8>, n: int)
    requires
        0 <= n <= d.len(),
        forall|i: int| 0 <= i < d.len() ==> is_digit(#[trigger] d[i]),
    ensures
        decimal(d.take(n)) <= decimal(d),
    decreases d.len() - n,
{
    if n < d.len() {
        lemma_decimal_prefix(d, n + 1);
        assert(d.take(n + 1).drop_last() =~= d.take(n));
    } else {
        assert(d.take(n) =~= d);
    }
}

/// Reads one field as a byte.
fn parse_field(f: &[u8]) -> (r: Option<u8>)
    ensures
        r == field_value(f@),
{
    let start: usize = if f.len() > 0 && f[0] == 0x2B {
        1
    } else {
        0
    };
    let ghost d = field_digits(f@);
    assert(d =~= f@.subrange(start as int, f@.len() as int));
    if start >= f.len() {
        return None;
    }
    let mut acc: u16 = 0;
    let mut i: usize = start;
    while i < f.len()
        invariant
            start <= i <= f@.len(),
            d == field_digits(f@),
            d == f@.subrange(start as int, f@.len() as int),
            forall|k: int| 0 <= k < i - start ==> is_digit(#[trigger] d[k]),
            acc as nat == decimal(d.take(i - start)),
            acc <= 255,
        decreases f@.len() - i,
    {
        let c = f[i];
        assert(d[i - start] == c);
        if c < 0x30 || c > 0x39 {
            assert(!(forall|k: int| 0 <= k < d.len() ==> is_digit(#[trigger] d[k])));
            return None;
        }
        let ghost k = i - start;
        assert(d.take(k + 1).drop_last() =~= d.take(k));
        assert(d.take(k + 1).last() == c);
        assert(decimal(d.take(k + 1)) == decimal(d.take(k)) * 10 + (c - 0x30) as nat);
        let next: u16 = acc * 10 + (c - 0x30) as u16;
        i = i + 1;
        if next > 255 {
            proof {
                if forall|j: int| 0 <= j < d.len() ==> is_digit(#[trigger] d[j]) {
                    lemma_decimal_prefix(d, k + 1);
                }
            }
            return None;
        }
        acc = next;
    }
    assert(d.take(d.len() as int) =~= d);
    Some(acc as u8)
}

/// The bytes that comma-separated decimal text lists (`192,168,0,1`), or
/// `None` when a field is not a number from 0 to 255.
pub fn csv_to_byte_array(text: &str) -> (r: Option<Vec<u8>>)
    ensures
        match csv_bytes(text.spec_bytes()) {
            Some(v) => r matches Some(out) && out@ == v,
            None => r is None,
        },
{
    let b = text.as_bytes();
    let ghost bs = b@;
    let mut out: Vec<u8> = Vec::new();
    let mut start: usize = 0;
    let mut i: usize = 0;
    assert(bs.take(0) =~= Seq::<u8>::empty());
    assert(split_commas(bs.take(0)) =~= seq![bs.subrange(0, 0)]);
    while i < b.len()
        invariant
            bs == b@,
            bs == text.spec_bytes(),
            start <= i <= bs.len(),
            split_commas(bs.take(i as int)).len() == out@.len() + 1,
            split_commas(bs.take(i as int)).last() == bs.subrange(start as int, i as int),
            forall|j: int|
                0 <= j < out@.len() ==> field_value(#[trigger] split_commas(bs.take(i as int))[j])
                    == Some(out@[j]),
        decreases bs.len() - i,
    {
        let ghost prev = split_commas(bs.take(i as int));
        assert(bs.take(i + 1).drop_last() =~= bs.take(i as int));
        assert(bs.take(i + 1).last() == bs[i as int]);
        if b[i] == 0x2C {
            let v = parse_field(slice_subrange(b, start, i));
            match v {
                Some(x) => {
                    out.push(x);
                },
                None => {
                    proof {
                        let fs = split_commas(bs);
                        assert(field_value(prev.last()) is None);
                        lemma_split_commas_prefix(bs, i + 1);
                        assert(split_commas(bs.take(i + 1)) == prev.push(Seq::<u8>::empty()));
                        assert(fs[out@.len() as int] == prev.last());
                        assert(field_value(fs[out@.len() as int]) is None);
                    }
                    return None;
                },
            }
            start = i + 1;
            i = i + 1;
            assert(bs.subrange(start as int, i as int) =~= Seq::<u8>::empty());
        } else {
            i = i + 1;
            assert(bs.subrange(start as int, i as int) =~= bs.subrange(start as int, i - 1).push(
                bs[i - 1],
            ));
        }
    }
    assert(bs.take(i as int) =~= bs);
    let v = parse_field(slice_subrange(b, start, i));
    match v {
        Some(x) => {
            out.push(x);
            assert(out@ =~= Seq::new(
                split_commas(bs).len(),
                |j: int| field_value(split_commas(bs)[j])->0,
            ));
            Some(out)
        },
        None => None,
    }
}

/// Fields already closed by a comma stay as they are when more text follows.
proof fn lemma_split_commas_prefix(b: Seq<u8>, n: int)
    requires
        0 <= n <= b.len(),
    ensures
        split_commas(b.take(n)).len() <= split_commas(b).len(),
        forall|j: int|
            0 <= j < split_commas(b.take(n)).len() - 1 ==> #[trigger] split_commas(b)[j]
                == split_commas(b.take(n))[j],
    decreases b.len() - n,
{
    lemma_split_commas_nonempty(b.take(n));
    if n < b.len() {
        lemma_split_commas_prefix(b, n + 1);
        assert(b.take(n + 1).drop_last() =~= b.take(n));
    } else {
        assert(b.take(n) =~= b);
    }
}

} // verus!
