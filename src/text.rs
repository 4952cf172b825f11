use vstd::prelude::*;

verus! {

/// The lowercase digit for a value below 16.
pub open spec fn digit_char(d: int) -> char {
    if d == 0 { '0' } else if d == 1 { '1' } else if d == 2 { '2' } else if d == 3 { '3' }
    else if d == 4 { '4' } else if d == 5 { '5' } else if d == 6 { '6' } else if d == 7 { '7' }
    else if d == 8 { '8' } else if d == 9 { '9' } else if d == 10 { 'a' } else if d == 11 { 'b' }
    else if d == 12 { 'c' } else if d == 13 { 'd' } else if d == 14 { 'e' } else { 'f' }
}

/// Decimal digits of `n`, without leading zeros.
pub open spec fn decimal_digits(n: nat) -> Seq<char>
    decreases n,
{
    if n < 10 {
        seq![digit_char(n as int)]
    } else {
        decimal_digits(n / 10).push(digit_char((n % 10) as int))
    }
}

/// Lowercase hexadecimal digits of `n`, without leading zeros.
pub open spec fn hex_digits(n: nat) -> Seq<char>
    decreases n,
{
    if n < 16 {
        seq![digit_char(n as int)]
    } else {
        hex_digits(n / 16).push(digit_char((n % 16) as int))
    }
}

/// `s` preceded by as many zeros as it takes to reach `width` characters.
pub open spec fn pad_zeros(s: Seq<char>, width: int) -> Seq<char> {
    Seq::new(if width > s.len() { (width - s.len()) as nat } else { 0 }, |i: int| '0') + s
}

/// Decimal text of a signed value, with a leading minus sign when negative.
pub open spec fn signed_decimal(v: int) -> Seq<char> {
    if v < 0 {
        seq!['-'] + decimal_digits((-v) as nat)
    } else {
        decimal_digits(v as nat)
    }
}

/// Two lowercase hex digits for each byte, in order.
pub open spec fn hex_bytes(b: Seq<u8>) -> Seq<char>
    decreases b.len(),
{
    if b.len() == 0 {
        Seq::empty()
    } else {
        hex_bytes(b.drop_last()) + seq![digit_char(b.last() as int / 16), digit_char(b.last() as int % 16)]
    }
}

/// A lowercase hexadecimal digit.
pub open spec fn is_lower_hex(c: char) -> bool {
    c == '0' || c == '1' || c == '2' || c == '3' || c == '4' || c == '5' || c == '6' || c == '7'
        || c == '8' || c == '9' || c == 'a' || c == 'b' || c == 'c' || c == 'd' || c == 'e' || c == 'f'
}

/// The hex text of a byte string has two characters per byte, each a lowercase hex digit.
pub proof fn lemma_hex_bytes_shape(b: Seq<u8>)
    ensures
        hex_bytes(b).len() == 2 * b.len(),
        forall|i: int| 0 <= i < hex_bytes(b).len() ==> is_lower_hex(#[trigger] hex_bytes(b)[i]),
    decreases b.len(),
{
    if b.len() > 0 {
        lemma_hex_bytes_shape(b.drop_last());
        let prefix = hex_bytes(b.drop_last());
        let pair = seq![digit_char(b.last() as int / 16), digit_char(b.last() as int % 16)];
        assert(hex_bytes(b) == prefix + pair);
        assert forall|i: int| 0 <= i < hex_bytes(b).len() implies is_lower_hex(#[trigger] hex_bytes(b)[i]) by {
            if i < prefix.len() {
                assert(hex_bytes(b)[i] == prefix[i]);
            } else {
                assert(hex_bytes(b)[i] == pair[i - prefix.len()]);
            }
        }
    }
}

fn digit_text(d: u64) -> (r: &'static str)
    requires
        d < 16,
    ensures
        r@ == seq![digit_char(d as int)],
{
    let digits = "0123456789abcdef";
    proof {
        reveal_strlit("0123456789abcdef");
    }
    let r = digits.substring_char(d as usize, d as usize + 1);
    assert(r@ =~= seq![digit_char(d as int)]);
    r
}

fn push_decimal(out: &mut String, n: u64)
    ensures
        final(out)@ == old(out)@ + decimal_digits(n as nat),
    decreases n,
{
    if n >= 10 {
        push_decimal(out, n / 10);
    }
    out.append(digit_text(n % 10));
    proof {
        if n >= 10 {
            assert(old(out)@ + decimal_digits(n as nat) =~= old(out)@ + decimal_digits((n / 10) as nat)
                + seq![digit_char((n % 10) as int)]);
        } else {
            assert(decimal_digits(n as nat) =~= seq![digit_char((n % 10) as int)]);
        }
    }
}

fn push_hex(out: &mut String, n: u64)
    ensures
        final(out)@ == old(out)@ + hex_digits(n as nat),
    decreases n,
{
    if n >= 16 {
        push_hex(out, n / 16);
    }
    out.append(digit_text(n % 16));
    proof {
        if n >= 16 {
            assert(old(out)@ + hex_digits(n as nat) =~= old(out)@ + hex_digits((n / 16) as nat)
                + seq![digit_char((n % 16) as int)]);
        } else {
            assert(hex_digits(n as nat) =~= seq![digit_char((n % 16) as int)]);
        }
    }
}

/// Decimal text of `n`.
pub fn decimal_text(n: u64) -> (r: String)
    ensures
        r@ == decimal_digits(n as nat),
{
    let mut out = String::new();
    push_decimal(&mut out, n);
    assert(out@ =~= decimal_digits(n as nat));
    out
}

/// Decimal text of a signed 16-bit value.
pub fn signed_decimal_text(v: i16) -> (r: String)
    ensures
        r@ == signed_decimal(v as int),
{
    let mut out = String::new();
    if v < 0 {
        out.append("-");
        proof {
            reveal_strlit("-");
        }
        let m: u64 = (0 - (v as i32)) as u64;
        push_decimal(&mut out, m);
        assert(out@ =~= signed_decimal(v as int));
    } else {
        push_decimal(&mut out, v as u64);
        assert(out@ =~= signed_decimal(v as int));
    }
    out
}

/// Lowercase hex text of `n`, zero-padded to at least `width` characters.
pub fn hex_text(n: u64, width: usize) -> (r: String)
    ensures
        r@ == pad_zeros(hex_digits(n as nat), width as int),
{
    let mut digits = String::new();
    push_hex(&mut digits, n);
    let len = digits.as_str().unicode_len();
    let mut out = String::new();
    let mut k: usize = len;
    while k < width
        invariant
            len <= k <= if width > len { width } else { len },
            out@ == Seq::new((k - len) as nat, |i: int| '0'),
            digits@ == hex_digits(n as nat),
            len == digits@.len(),
        decreases width - k,
    {
        out.append("0");
        proof {
            reveal_strlit("0");
        }
        k = k + 1;
        assert(out@ =~= Seq::new((k - len) as nat, |i: int| '0'));
    }
    let ghost zeros = out@;
    assert(zeros =~= Seq::new(
        if width > hex_digits(n as nat).len() { (width - hex_digits(n as nat).len()) as nat } else { 0 },
        |i: int| '0',
    ));
    out.append(digits.as_str());
    assert(out@ =~= pad_zeros(hex_digits(n as nat), width as int));
    out
}

/// Lowercase hex text of a byte string, two digits per byte.
pub fn hex_lower(bytes: &Vec<u8>) -> (r: String)
    ensures
        r@ == hex_bytes(bytes@),
{
    let mut out = String::new();
    let mut i: usize = 0;
    while i < bytes.len()
        invariant
            i <= bytes.len(),
            out@ == hex_bytes(bytes@.subrange(0, i as int)),
        decreases bytes.len() - i,
    {
        let b = bytes[i];
        out.append(digit_text((b / 16) as u64));
        out.append(digit_text((b % 16) as u64));
        assert(bytes@.subrange(0, i as int + 1).drop_last() =~= bytes@.subrange(0, i as int));
        i = i + 1;
        assert(out@ =~= hex_bytes(bytes@.subrange(0, i as int)));
    }
    assert(bytes@.subrange(0, bytes.len() as int) =~= bytes@);
    out
}

} // verus!
