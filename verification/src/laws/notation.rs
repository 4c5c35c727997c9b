//! How numbers and paths are written.

use vstd::prelude::*;

use crate::path::{
    digits_value, has_sign, is_digit, is_index, last_slash, law_split_rejoins, lemma_last_slash,
    parse_index, signed_value, split_path, unsigned_part,
};
use crate::set_yaml::{resolve_index, Target};
use crate::text::{append_decimal, decimal, digit_char};

verus! {

/// A number below ten is written as one character, the digits follow each other in the character set,
/// and any other number is written as its tens followed by its ones.
pub proof fn law_decimal_notation(tens: nat, ones: nat)
    requires
        ones < 10,
    ensures
        decimal(ones).len() == 1,
        decimal(ones)[0] as u32 == '0' as u32 + ones,
        tens > 0 ==> decimal(10 * tens + ones) == decimal(tens) + decimal(ones),
{
    let n = 10 * tens + ones;
    if tens > 0 {
        assert(n / 10 == tens && n % 10 == ones);
        assert(decimal(n) =~= decimal(tens) + decimal(ones));
    }
}

/// A number is appended to a text in its decimal notation, after what is there.
pub proof fn law_append_decimal(out: &mut String, n: u32)
    requires
        call_ensures(append_decimal, (out, n), ()),
    ensures
        final(out)@ == old(out)@ + decimal(n as nat),
{
}

/// So many zeros.
pub open spec fn zeros(k: nat) -> Seq<char> {
    Seq::new(k, |i: int| '0')
}

/// A string of nothing but zeros and a number, in decimal notation, denotes that number.
proof fn lemma_padded(k: nat, n: nat)
    ensures
        digits_value(zeros(k) + decimal(n)) == n,
        (zeros(k) + decimal(n)).len() > 0,
        forall|i: int|
            0 <= i < (zeros(k) + decimal(n)).len() ==> '0' <= #[trigger] (zeros(k) + decimal(n))[i]
                <= '9',
    decreases n,
{
    let s = zeros(k) + decimal(n);
    reveal_with_fuel(digits_value, 2);
    if n < 10 {
        lemma_zeros(k);
        assert(s.drop_last() =~= zeros(k));
    } else {
        lemma_padded(k, n / 10);
        let t = zeros(k) + decimal(n / 10);
        assert(s.drop_last() =~= t);
        assert forall|i: int| 0 <= i < s.len() implies '0' <= #[trigger] s[i] <= '9' by {
            if i < t.len() {
                assert(s[i] == t[i]);
            } else {
                assert(s[i] == digit_char(n % 10));
            }
        }
    }
}

proof fn lemma_zeros(k: nat)
    ensures
        digits_value(zeros(k)) == 0,
    decreases k,
{
    if k > 0 {
        lemma_zeros((k - 1) as nat);
        assert(zeros(k).drop_last() =~= zeros((k - 1) as nat));
    }
}

/// An index is written as an optional sign, any number of zeros, and a number in decimal notation. It
/// denotes that number, or its negative after a minus sign, provided that this fits in 32 bits;
/// otherwise it is no index.
pub proof fn law_index_notation(k: nat, n: nat)
    ensures
        ({
            let digits = zeros(k) + decimal(n);
            &&& is_index(digits) <==> n <= 0x7fff_ffff
            &&& is_index(seq!['+'] + digits) <==> n <= 0x7fff_ffff
            &&& is_index(seq!['-'] + digits) <==> n <= 0x8000_0000
            &&& signed_value(digits) == n
            &&& signed_value(seq!['+'] + digits) == n
            &&& signed_value(seq!['-'] + digits) == -n
        }),
{
    let digits = zeros(k) + decimal(n);
    lemma_padded(k, n);
    assert('0' <= digits[0] <= '9');
    assert(!has_sign(digits));
    assert((seq!['+'] + digits).skip(1) =~= digits);
    assert((seq!['-'] + digits).skip(1) =~= digits);
    assert(unsigned_part(seq!['+'] + digits) == digits);
    assert(unsigned_part(seq!['-'] + digits) == digits);
}

/// Whether `s` is the number `n` after so many zeros.
pub open spec fn is_padded(s: Seq<char>, k: nat, n: nat) -> bool {
    s == zeros(k) + decimal(n)
}

/// Every string of digits is a number after some zeros.
proof fn lemma_digits_padded(s: Seq<char>) -> (r: (nat, nat))
    requires
        s.len() > 0,
        forall|i: int| 0 <= i < s.len() ==> '0' <= #[trigger] s[i] <= '9',
    ensures
        is_padded(s, r.0, r.1),
    decreases s.len(),
{
    let d = (s.last() as int - '0' as int) as nat;
    assert(digit_char(d) == s.last());
    if s.len() == 1 {
        assert(s =~= zeros(0) + decimal(d));
        (0, d)
    } else {
        let t = s.drop_last();
        assert forall|i: int| 0 <= i < t.len() implies '0' <= #[trigger] t[i] <= '9' by {
            assert(t[i] == s[i]);
        }
        let (k, n) = lemma_digits_padded(t);
        assert(s =~= t.push(s.last()));
        assert(decimal(d) =~= seq![s.last()]);
        if n == 0 {
            assert(decimal(0) =~= seq!['0']);
            assert(t =~= zeros(k + 1));
            assert(s =~= zeros(k + 1) + decimal(d));
            (k + 1, d)
        } else {
            law_decimal_notation(n, d);
            assert(s =~= zeros(k) + decimal(10 * n + d));
            (k, 10 * n + d)
        }
    }
}

/// Whether `s` is the number `n` after so many zeros, with a sign or without.
pub open spec fn is_signed_padded(s: Seq<char>, k: nat, n: nat) -> bool {
    is_padded(s, k, n) || (s.len() > 0 && (s[0] == '+' || s[0] == '-') && is_padded(s.skip(1), k, n))
}

/// Nothing but an optional sign and a number is an index.
pub proof fn law_index_is_a_number(s: Seq<char>)
    requires
        is_index(s),
    ensures
        exists|k: nat, n: nat| is_signed_padded(s, k, n),
{
    let u = unsigned_part(s);
    assert forall|i: int| 0 <= i < u.len() implies '0' <= #[trigger] u[i] <= '9' by {
        assert(is_digit(u[i]));
    }
    let (k, n) = lemma_digits_padded(u);
    assert(is_signed_padded(s, k, n));
}

/// Reading an index gives the number that is written there, exactly for numbers that fit.
pub proof fn law_parse_index(key: &str, r: Option<i32>, k: nat, n: nat)
    requires
        call_ensures(parse_index, (key,), r),
    ensures
        is_padded(key@, k, n) || key@ == seq!['+'] + zeros(k) + decimal(n) ==> r == if n
            <= 0x7fff_ffff {
            Some(n as i32)
        } else {
            None
        },
        key@ == seq!['-'] + zeros(k) + decimal(n) ==> r == if n <= 0x8000_0000 {
            Some(-(n as int) as i32)
        } else {
            None
        },
        r is Some <==> is_index(key@),
{
    law_index_notation(k, n);
    assert(seq!['+'] + zeros(k) + decimal(n) =~= seq!['+'] + (zeros(k) + decimal(n)));
    assert(seq!['-'] + zeros(k) + decimal(n) =~= seq!['-'] + (zeros(k) + decimal(n)));
}

/// An index selects one of `count` items exactly when it is at least minus their number and below it:
/// the item at that place, or as many places from the end. Where they could not be counted it selects
/// none.
pub proof fn law_resolve_index(index: i32, count: i32, r: Option<i32>)
    requires
        call_ensures(resolve_index, (index, count), r),
    ensures
        count >= 0 ==> (r is Some <==> -count <= index < count),
        count < 0 ==> r is None,
        r matches Some(at) ==> 0 <= at < count && (at == index || at - count == index) && (at == index
            <==> index >= 0),
{
}

/// A path is its parent, a slash and its key; a path without a slash is all key. No key has a slash.
pub proof fn law_split_path<'a>(path: &'a str, r: (&'a str, &'a str))
    requires
        call_ensures(split_path, (path,), r),
    ensures
        !r.1@.contains('/'),
        path@.contains('/') ==> path@ == r.0@ + seq!['/'] + r.1@,
        !path@.contains('/') ==> r.0@.len() == 0 && r.1@ == path@,
{
    law_split_rejoins(path@);
    lemma_last_slash(path@);
    if last_slash(path@) >= 0 {
        assert(path@.contains(path@[last_slash(path@)]));
    } else {
        assert(!path@.contains('/'));
    }
}

/// The empty path and a lone slash point at the root; every other path points at its key under its
/// parent.
pub proof fn law_target_of_path<'a>(path: &'a str, target: Target<'a>)
    requires
        target.denotes(path@),
    ensures
        target is Root <==> path@.len() == 0 || (path@.len() == 1 && path@[0] == '/'),
        target matches Target::Child { parent, key } ==> {
            &&& !key@.contains('/')
            &&& path@.contains('/') ==> path@ == parent@ + seq!['/'] + key@
            &&& !path@.contains('/') ==> parent@.len() == 0 && key@ == path@
        },
{
    law_split_rejoins(path@);
    lemma_last_slash(path@);
    if path@.len() == 1 && path@[0] == '/' {
        assert(path@ =~= seq!['/']);
    }
    if last_slash(path@) >= 0 {
        assert(path@.contains(path@[last_slash(path@)]));
    } else {
        assert(!path@.contains('/'));
    }
}

} // verus!
