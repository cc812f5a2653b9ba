use vstd::prelude::*;

verus! {

/// The character for one decimal digit value.
pub open spec fn digit_char(d: int) -> char {
    if d == 0 {
        '0'
    } else if d == 1 {
        '1'
    } else if d == 2 {
        '2'
    } else if d == 3 {
        '3'
    } else if d == 4 {
        '4'
    } else if d == 5 {
        '5'
    } else if d == 6 {
        '6'
    } else if d == 7 {
        '7'
    } else if d == 8 {
        '8'
    } else {
        '9'
    }
}

/// True for the ten decimal digit characters.
pub open spec fn is_digit_char(c: char) -> bool {
    c == '0' || c == '1' || c == '2' || c == '3' || c == '4' || c == '5' || c == '6' || c == '7'
        || c == '8' || c == '9'
}

/// The numeric value of one decimal digit character.
pub open spec fn digit_val(c: char) -> int {
    if c == '0' {
        0
    } else if c == '1' {
        1
    } else if c == '2' {
        2
    } else if c == '3' {
        3
    } else if c == '4' {
        4
    } else if c == '5' {
        5
    } else if c == '6' {
        6
    } else if c == '7' {
        7
    } else if c == '8' {
        8
    } else {
        9
    }
}

/// The decimal rendering of `n`, most significant digit first, without
/// leading zeros.
pub open spec fn dec_digits(n: nat) -> Seq<char>
    decreases n,
{
    if n < 10 {
        seq![digit_char(n as int)]
    } else {
        dec_digits(n / 10) + seq![digit_char((n % 10) as int)]
    }
}

/// True when every character of `s` is a decimal digit.
pub open spec fn all_digits(s: Seq<char>) -> bool {
    forall|i: int| 0 <= i < s.len() ==> is_digit_char(#[trigger] s[i])
}

/// The numeric value of a digit string read most significant digit first.
pub open spec fn digits_val(s: Seq<char>) -> int
    decreases s.len(),
{
    if s.len() == 0 {
        0
    } else {
        digits_val(s.drop_last()) * 10 + digit_val(s.last())
    }
}

/// `s` left-padded with zeros up to `width` characters; `s` unchanged when
/// already that wide.
pub open spec fn zero_pad(s: Seq<char>, width: nat) -> Seq<char> {
    if s.len() >= width {
        s
    } else {
        Seq::new((width - s.len()) as nat, |i: int| '0') + s
    }
}

/// The directory-name prefix for a rank: its decimal digits, at least four
/// characters wide.
pub open spec fn rank_digits(rank: nat) -> Seq<char> {
    zero_pad(dec_digits(rank), 4)
}

/// A decimal rendering consists of digit characters and is never empty.
pub proof fn lemma_dec_digits_shape(n: nat)
    ensures
        all_digits(dec_digits(n)),
        dec_digits(n).len() >= 1,
    decreases n,
{
    if n >= 10 {
        lemma_dec_digits_shape(n / 10);
    }
}

/// Reading the decimal rendering of `n` back as a number gives `n`.
pub proof fn lemma_dec_digits_val(n: nat)
    ensures
        digits_val(dec_digits(n)) == n,
    decreases n,
{
    if n < 10 {
        let s = dec_digits(n);
        assert(s.drop_last() =~= Seq::<char>::empty());
        assert(digits_val(s) == digits_val(s.drop_last()) * 10 + digit_val(s.last()));
        assert(s.last() == digit_char(n as int));
        assert(digit_val(digit_char(n as int)) == n);
    } else {
        lemma_dec_digits_val(n / 10);
        let s = dec_digits(n);
        let hi = dec_digits(n / 10);
        assert(s.drop_last() =~= hi);
        assert(s.last() == digit_char((n % 10) as int));
        assert(digit_val(digit_char((n % 10) as int)) == n % 10);
        vstd::arithmetic::div_mod::lemma_fundamental_div_mod(n as int, 10);
        assert(digits_val(s) == (n / 10) * 10 + n % 10);
    }
}

/// Leading zeros do not change the value of a digit string.
proof fn lemma_zeros_prefix_val(z: Seq<char>, s: Seq<char>)
    requires
        forall|i: int| 0 <= i < z.len() ==> z[i] == '0',
    ensures
        digits_val(z + s) == digits_val(s),
    decreases z.len() + s.len(),
{
    if s.len() > 0 {
        assert((z + s).drop_last() =~= z + s.drop_last());
        assert((z + s).last() == s.last());
        lemma_zeros_prefix_val(z, s.drop_last());
    } else if z.len() > 0 {
        assert(z + s =~= z);
        assert(z.drop_last() + s =~= z.drop_last());
        lemma_zeros_prefix_val(z.drop_last(), s);
        assert(digits_val(z) == digits_val(z.drop_last()) * 10 + digit_val(z.last()));
    } else {
        assert(z + s =~= s);
    }
}

/// Padding preserves the value and the digit shape, and reaches the width.
proof fn lemma_zero_pad(s: Seq<char>, width: nat)
    ensures
        digits_val(zero_pad(s, width)) == digits_val(s),
        all_digits(s) ==> all_digits(zero_pad(s, width)),
        zero_pad(s, width).len() >= width,
        zero_pad(s, width).len() >= s.len(),
{
    if s.len() < width {
        let z = Seq::new((width - s.len()) as nat, |i: int| '0');
        lemma_zeros_prefix_val(z, s);
    }
}

/// The padded rank prefix determines the rank: equal prefixes mean equal
/// ranks.
pub proof fn lemma_rank_digits_injective(r1: nat, r2: nat)
    requires
        rank_digits(r1) == rank_digits(r2),
    ensures
        r1 == r2,
{
    lemma_dec_digits_val(r1);
    lemma_dec_digits_val(r2);
    lemma_zero_pad(dec_digits(r1), 4);
    lemma_zero_pad(dec_digits(r2), 4);
}

/// The rank prefix is all digits and at least four characters wide.
pub proof fn lemma_rank_digits_shape(r: nat)
    ensures
        all_digits(rank_digits(r)),
        rank_digits(r).len() >= 4,
{
    lemma_dec_digits_shape(r);
    lemma_zero_pad(dec_digits(r), 4);
}

/// The digit characters as one-character string slices.
fn digit_str(d: usize) -> (r: &'static str)
    requires
        d < 10,
    ensures
        r@ =~= seq![digit_char(d as int)],
{
    proof {
        reveal_strlit("0");
        reveal_strlit("1");
        reveal_strlit("2");
        reveal_strlit("3");
        reveal_strlit("4");
        reveal_strlit("5");
        reveal_strlit("6");
        reveal_strlit("7");
        reveal_strlit("8");
        reveal_strlit("9");
    }
    match d {
        0 => "0",
        1 => "1",
        2 => "2",
        3 => "3",
        4 => "4",
        5 => "5",
        6 => "6",
        7 => "7",
        8 => "8",
        _ => "9",
    }
}

/// Appends the decimal rendering of `n` to `out`.
pub fn push_decimal(n: usize, out: &mut String)
    ensures
        final(out)@ == old(out)@ + dec_digits(n as nat),
    decreases n,
{
    if n >= 10 {
        push_decimal(n / 10, out);
    }
    let d = digit_str(n % 10);
    out.append(d);
    proof {
        if n >= 10 {
            assert(old(out)@ + dec_digits((n / 10) as nat) + d@ =~= old(out)@ + dec_digits(
                n as nat,
            ));
        } else {
            assert(old(out)@ + d@ =~= old(out)@ + dec_digits(n as nat));
        }
    }
}

/// The decimal rendering of `n` as a string.
pub fn usize_to_string(n: usize) -> (s: String)
    ensures
        s@ == dec_digits(n as nat),
{
    let mut s = String::new();
    push_decimal(n, &mut s);
    proof {
        assert(Seq::<char>::empty() + dec_digits(n as nat) =~= dec_digits(n as nat));
    }
    s
}

/// A rendering of `n` is one digit per power of ten.
proof fn lemma_dec_digits_len(n: nat)
    ensures
        n < 10 ==> dec_digits(n).len() == 1,
        10 <= n < 100 ==> dec_digits(n).len() == 2,
        100 <= n < 1000 ==> dec_digits(n).len() == 3,
        n >= 1000 ==> dec_digits(n).len() >= 4,
    decreases n,
{
    if n >= 10 {
        lemma_dec_digits_len(n / 10);
    }
}

/// The rank prefix of `rank` as a string: the decimal digits, zero-padded
/// to at least four characters.
pub fn rank_string(rank: usize) -> (s: String)
    ensures
        s@ == rank_digits(rank as nat),
{
    let mut s = String::new();
    proof {
        reveal_strlit("000");
        reveal_strlit("00");
        reveal_strlit("0");
        lemma_dec_digits_len(rank as nat);
    }
    if rank < 10 {
        s.append("000");
    } else if rank < 100 {
        s.append("00");
    } else if rank < 1000 {
        s.append("0");
    }
    push_decimal(rank, &mut s);
    proof {
        let d = dec_digits(rank as nat);
        if d.len() < 4 {
            let z = Seq::new((4 - d.len()) as nat, |i: int| '0');
            assert(s@ =~= z + d);
        } else {
            assert(s@ =~= d);
        }
    }
    s
}

/// Later digits only grow the value of a digit string: the value of any
/// prefix never exceeds the value of the whole.
proof fn lemma_digits_val_prefix(s: Seq<char>, k: int)
    requires
        all_digits(s),
        0 <= k <= s.len(),
    ensures
        0 <= digits_val(s.take(k)) <= digits_val(s),
    decreases s.len() - k,
{
    if k == s.len() {
        assert(s.take(k) =~= s);
        lemma_digits_val_nonneg(s);
    } else {
        lemma_digits_val_prefix(s, k + 1);
        let t = s.take(k + 1);
        assert(t.drop_last() =~= s.take(k));
        assert(is_digit_char(s[k]));
        lemma_digits_val_nonneg(s.take(k));
    }
}

/// A digit string never has a negative value.
proof fn lemma_digits_val_nonneg(s: Seq<char>)
    requires
        all_digits(s),
    ensures
        digits_val(s) >= 0,
    decreases s.len(),
{
    if s.len() > 0 {
        lemma_digits_val_nonneg(s.drop_last());
        assert(is_digit_char(s.last()));
    }
}

/// Parses a decimal number.
///
/// Succeeds exactly on nonempty all-digit strings whose value fits in
/// `usize`, and then returns that value.
pub fn parse_usize(s: &str) -> (r: Option<usize>)
    ensures
        r is Some <==> s@.len() > 0 && all_digits(s@) && digits_val(s@) <= usize::MAX,
        r is Some ==> digits_val(s@) == r->0,
{
    let len = s.unicode_len();
    if len == 0 {
        return None;
    }
    let mut v: usize = 0;
    let mut i: usize = 0;
    while i < len
        invariant
            0 <= i <= len,
            len == s@.len(),
            all_digits(s@.take(i as int)),
            digits_val(s@.take(i as int)) == v,
        decreases len - i,
    {
        let c = s.get_char(i);
        let u = c as u32;
        if u < 48 || u > 57 {
            proof {
                assert(!is_digit_char(s@[i as int])) by {
                    assert(s@[i as int] == c);
                };
            }
            return None;
        }
        let d = (u - 48) as usize;
        proof {
            assert(is_digit_char(c) && digit_val(c) == d) by {
                assert(48 <= c as u32 <= 57);
            };
        }
        if v > (usize::MAX - d) / 10 {
            proof {
                assert(s@.take(i as int + 1).drop_last() =~= s@.take(i as int));
                assert(s@.take(i as int + 1).last() == c);
                assert(digits_val(s@.take(i as int + 1)) == v * 10 + d);
                if all_digits(s@) {
                    lemma_digits_val_prefix(s@, i as int + 1);
                }
            }
            return None;
        }
        v = v * 10 + d;
        proof {
            assert(s@.take(i as int + 1).drop_last() =~= s@.take(i as int));
            assert(s@.take(i as int + 1).last() == c);
        }
        i = i + 1;
    }
    proof {
        assert(s@.take(len as int) =~= s@);
    }
    Some(v)
}

} // verus!
