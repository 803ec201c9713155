use vstd::prelude::*;

verus! {

/// The text of one digit in base sixteen (lowercase), or base ten for `d < 10`.
pub open spec fn digit_text(d: nat) -> Seq<char> {
    if d == 0 { "0"@ }
    else if d == 1 { "1"@ }
    else if d == 2 { "2"@ }
    else if d == 3 { "3"@ }
    else if d == 4 { "4"@ }
    else if d == 5 { "5"@ }
    else if d == 6 { "6"@ }
    else if d == 7 { "7"@ }
    else if d == 8 { "8"@ }
    else if d == 9 { "9"@ }
    else if d == 10 { "a"@ }
    else if d == 11 { "b"@ }
    else if d == 12 { "c"@ }
    else if d == 13 { "d"@ }
    else if d == 14 { "e"@ }
    else { "f"@ }
}

/// Decimal text of `n`, without leading zeros.
pub open spec fn decimal_text(n: nat) -> Seq<char>
    decreases n,
{
    if n < 10 {
        digit_text(n)
    } else {
        decimal_text(n / 10) + digit_text(n % 10)
    }
}

/// The base-sixteen digits of a big-endian byte string, two per byte.
pub open spec fn nibbles(b: Seq<u8>) -> Seq<nat>
    decreases b.len(),
{
    if b.len() == 0 {
        Seq::empty()
    } else {
        nibbles(b.drop_last()).push((b.last() / 16) as nat).push((b.last() % 16) as nat)
    }
}

/// Drops the leading zero digits.
pub open spec fn strip_zeros(ds: Seq<nat>) -> Seq<nat>
    decreases ds.len(),
{
    if ds.len() == 0 {
        ds
    } else if ds[0] == 0 {
        strip_zeros(ds.drop_first())
    } else {
        ds
    }
}

/// The digits `ds`, written out.
pub open spec fn digits_text(ds: Seq<nat>) -> Seq<char>
    decreases ds.len(),
{
    if ds.len() == 0 {
        Seq::empty()
    } else {
        digits_text(ds.drop_last()) + digit_text(ds.last())
    }
}

/// Lowercase hexadecimal text of the number whose big-endian bytes are `b`,
/// without leading zeros; `"0"` when that number is zero.
pub open spec fn address_hex(b: Seq<u8>) -> Seq<char> {
    let ds = strip_zeros(nibbles(b));
    if ds.len() == 0 {
        "0"@
    } else {
        digits_text(ds)
    }
}

proof fn lemma_strip_zeros_push(ds: Seq<nat>, d: nat)
    ensures
        strip_zeros(ds.push(d)) == (if strip_zeros(ds).len() == 0 {
            if d == 0 { Seq::<nat>::empty() } else { seq![d] }
        } else {
            strip_zeros(ds).push(d)
        }),
    decreases ds.len(),
{
    if ds.len() == 0 {
        assert(seq![d].drop_first() =~= Seq::<nat>::empty());
        assert(ds.push(d) =~= seq![d]);
        assert(strip_zeros(Seq::<nat>::empty()) == Seq::<nat>::empty());
    } else if ds[0] == 0 {
        assert(ds.push(d).drop_first() =~= ds.drop_first().push(d));
        lemma_strip_zeros_push(ds.drop_first(), d);
    }
}

proof fn lemma_digits_text_push(ds: Seq<nat>, d: nat)
    ensures
        digits_text(ds.push(d)) == digits_text(ds) + digit_text(d),
        digits_text(seq![d]) == digit_text(d),
{
    assert(ds.push(d).drop_last() =~= ds);
    assert(seq![d].drop_last() =~= Seq::<nat>::empty());
    assert(digits_text(Seq::<nat>::empty()) + digit_text(d) =~= digit_text(d));
}

fn digit_str(d: u8) -> (r: &'static str)
    requires
        d < 16,
    ensures
        r@ == digit_text(d as nat),
{
    match d {
        0 => "0",
        1 => "1",
        2 => "2",
        3 => "3",
        4 => "4",
        5 => "5",
        6 => "6",
        7 => "7",
        8 => "8",
        9 => "9",
        10 => "a",
        11 => "b",
        12 => "c",
        13 => "d",
        14 => "e",
        _ => "f",
    }
}

/// Decimal text of `n`.
pub fn decimal(n: u16) -> (r: String)
    ensures
        r@ == decimal_text(n as nat),
    decreases n,
{
    if n < 10 {
        String::from_str(digit_str(n as u8))
    } else {
        let mut s = decimal(n / 10);
        s.append(digit_str((n % 10) as u8));
        s
    }
}

/// Lowercase hexadecimal text of an address given by its big-endian bytes,
/// without leading zeros.
pub fn address_to_hex(b: &Vec<u8>) -> (r: String)
    ensures
        r@ == address_hex(b@),
{
    let mut acc = String::new();
    let mut started = false;
    let mut i: usize = 0;
    while i < b.len()
        invariant
            i <= b.len(),
            started <==> strip_zeros(nibbles(b@.take(i as int))).len() > 0,
            acc@ == digits_text(strip_zeros(nibbles(b@.take(i as int)))),
        decreases b.len() - i,
    {
        let ghost before = nibbles(b@.take(i as int));
        assert(b@.take(i as int + 1).drop_last() =~= b@.take(i as int));
        let hi: u8 = b[i] / 16;
        let lo: u8 = b[i] % 16;
        proof {
            lemma_strip_zeros_push(before, hi as nat);
            lemma_strip_zeros_push(before.push(hi as nat), lo as nat);
            lemma_digits_text_push(strip_zeros(before), hi as nat);
            lemma_digits_text_push(strip_zeros(before.push(hi as nat)), lo as nat);
        }
        if started || hi != 0 {
            acc.append(digit_str(hi));
            started = true;
        }
        if started || lo != 0 {
            acc.append(digit_str(lo));
            started = true;
        }
        i = i + 1;
    }
    assert(b@.take(b.len() as int) =~= b@);
    if !started {
        String::from_str("0")
    } else {
        acc
    }
}

} // verus!
