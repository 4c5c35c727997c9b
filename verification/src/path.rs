//! Slash-separated node paths and the keys they end in.

use vstd::prelude::*;

verus! {

/// Position of the last `/` in `s`, or `-1` when there is none.
pub open spec fn last_slash(s: Seq<char>) -> int
    decreases s.len(),
{
    if s.len() == 0 {
        -1
    } else if s.last() == '/' {
        s.len() - 1
    } else {
        last_slash(s.drop_last())
    }
}

/// The part of a path before its last `/`; empty when the parent is the document root.
pub open spec fn parent_part(s: Seq<char>) -> Seq<char> {
    if last_slash(s) <= 0 {
        Seq::empty()
    } else {
        s.subrange(0, last_slash(s))
    }
}

/// The part of a path after its last `/`.
pub open spec fn key_part(s: Seq<char>) -> Seq<char> {
    s.subrange(last_slash(s) + 1, s.len() as int)
}

/// Whether a path denotes the document root itself.
pub open spec fn is_root_path(s: Seq<char>) -> bool {
    s.len() == 0 || s == seq!['/']
}

/// `last_slash` is what its name says: the slash it points at is the last one.
pub proof fn lemma_last_slash(s: Seq<char>)
    ensures
        -1 <= last_slash(s) < s.len(),
        last_slash(s) >= 0 ==> s[last_slash(s)] == '/',
        forall|i: int| last_slash(s) < i < s.len() ==> s[i] != '/',
    decreases s.len(),
{
    if s.len() > 0 && s.last() != '/' {
        lemma_last_slash(s.drop_last());
        assert forall|i: int| last_slash(s) < i < s.len() implies s[i] != '/' by {
            if i < s.len() - 1 {
                assert(s[i] == s.drop_last()[i]);
            }
        }
        if last_slash(s) >= 0 {
            assert(s[last_slash(s)] == s.drop_last()[last_slash(s)]);
        }
    }
}

/// The position found by scanning backwards is `last_slash`.
pub proof fn lemma_last_slash_unique(s: Seq<char>, at: int)
    requires
        -1 <= at < s.len(),
        at >= 0 ==> s[at] == '/',
        forall|i: int| at < i < s.len() ==> s[i] != '/',
    ensures
        last_slash(s) == at,
{
    lemma_last_slash(s);
    let l = last_slash(s);
    if l > at {
        assert(s[l] != '/');
    } else if l < at {
        assert(s[at] != '/');
    }
}

/// The characters of a string, in order.
pub fn characters(s: &str) -> (chars: Vec<char>)
    ensures
        chars@ == s@,
{
    let mut chars: Vec<char> = Vec::new();
    for c in it: s.chars()
        invariant
            it.seq() == s@,
            chars@ == s@.take(it.index()),
    {
        chars.push(c);
        assert(s@.take(it.index() + 1) == s@.take(it.index()).push(c));
    }
    assert(s@.take(s@.len() as int) == s@);
    chars
}

/// Splits a path into the path of the parent and the key under it.
///
/// `"/foo/bar"` splits into `("/foo", "bar")`; both `"/key"` and `"key"` split into
/// `("", "key")`.
pub fn split_path<'a>(path: &'a str) -> (r: (&'a str, &'a str))
    ensures
        r.0@ == parent_part(path@),
        r.1@ == key_part(path@),
{
    let chars = characters(path);
    let n: usize = chars.len();
    let mut i: usize = n;
    while i > 0 && chars[i - 1] != '/'
        invariant
            i <= n,
            n == chars@.len(),
            forall|j: int| i <= j < n ==> chars@[j] != '/',
        decreases i,
    {
        i -= 1;
    }
    proof {
        lemma_last_slash_unique(path@, i - 1);
    }
    let parent = if i <= 1 {
        let none = path.substring_char(0, 0);
        assert(none@ == Seq::<char>::empty());
        none
    } else {
        path.substring_char(0, i - 1)
    };
    (parent, path.substring_char(i, n))
}

/// Whether `c` is one of `0` to `9`.
pub open spec fn is_digit(c: char) -> bool {
    '0' <= c <= '9'
}

/// The number that a string of decimal digits denotes.
pub open spec fn digits_value(s: Seq<char>) -> nat
    decreases s.len(),
{
    if s.len() == 0 {
        0
    } else {
        digits_value(s.drop_last()) * 10 + (s.last() as int - '0' as int) as nat
    }
}

/// Whether `s` starts with a sign.
pub open spec fn has_sign(s: Seq<char>) -> bool {
    s.len() > 0 && (s[0] == '-' || s[0] == '+')
}

/// What follows the optional sign of `s`.
pub open spec fn unsigned_part(s: Seq<char>) -> Seq<char> {
    if has_sign(s) {
        s.skip(1)
    } else {
        s
    }
}

/// The integer that an optionally signed string of digits denotes.
pub open spec fn signed_value(s: Seq<char>) -> int {
    if has_sign(s) && s[0] == '-' {
        -(digits_value(unsigned_part(s)) as int)
    } else {
        digits_value(unsigned_part(s)) as int
    }
}

/// Whether `s` is a sequence index: an optional sign, then one or more digits and nothing else,
/// denoting a number that fits in 32 bits.
pub open spec fn is_index(s: Seq<char>) -> bool {
    &&& unsigned_part(s).len() > 0
    &&& forall|i: int| 0 <= i < unsigned_part(s).len() ==> is_digit(#[trigger] unsigned_part(s)[i])
    &&& i32::MIN <= signed_value(s) <= i32::MAX
}

/// More digits never make the number smaller.
proof fn lemma_prefix_value(s: Seq<char>, n: int)
    requires
        0 <= n <= s.len(),
    ensures
        digits_value(s.take(n)) <= digits_value(s),
    decreases s.len() - n,
{
    if n == s.len() {
        assert(s.take(n) == s);
    } else {
        assert(s.take(n + 1).drop_last() == s.take(n));
        lemma_prefix_value(s, n + 1);
    }
}

/// Reads a sequence index: `Some` exactly when `key` is one, and then the number it denotes.
pub fn parse_index(key: &str) -> (r: Option<i32>)
    ensures
        r is Some <==> is_index(key@),
        r matches Some(v) ==> v == signed_value(key@),
{
    let chars = characters(key);
    let n: usize = chars.len();
    let negative = n > 0 && chars[0] == '-';
    let start: usize = if n > 0 && (chars[0] == '-' || chars[0] == '+') {
        1
    } else {
        0
    };
    if start == n {
        return None;
    }
    let ghost digits = unsigned_part(key@);
    assert(digits == key@.skip(start as int));
    let mut acc: i64 = 0;
    let mut i: usize = start;
    while i < n
        invariant
            start <= i <= n,
            n == chars@.len(),
            chars@ == key@,
            digits == unsigned_part(key@),
            digits == key@.skip(start as int),
            forall|j: int| 0 <= j < i - start ==> is_digit(#[trigger] digits[j]),
            acc == digits_value(digits.take(i - start)),
            0 <= acc <= 2147483648,
        decreases n - i,
    {
        let c = chars[i];
        assert(c == digits[i - start]);
        if c < '0' || c > '9' {
            return None;
        }
        let digit: i64 = (c as u32 - 48) as i64;
        acc = acc * 10 + digit;
        assert(digits.take(i + 1 - start).drop_last() == digits.take(i - start));
        assert(acc == digits_value(digits.take(i + 1 - start)));
        if acc > 2147483648 {
            proof {
                lemma_prefix_value(digits, i + 1 - start);
            }
            return None;
        }
        i += 1;
    }
    assert(digits.take(n - start) == digits);
    if negative {
        Some((-acc) as i32)
    } else if acc > 2147483647 {
        None
    } else {
        Some(acc as i32)
    }
}

/// Splitting a path loses nothing: the parent, a slash and the key make the path again, and the key
/// holds no slash. A path without a slash is all key.
pub proof fn law_split_rejoins(path: Seq<char>)
    ensures
        last_slash(path) >= 0 ==> path == parent_part(path) + seq!['/'] + key_part(path),
        last_slash(path) < 0 ==> parent_part(path).len() == 0 && path == key_part(path),
        !key_part(path).contains('/'),
{
    lemma_last_slash(path);
    let at = last_slash(path);
    if at >= 0 {
        assert(path =~= parent_part(path) + seq!['/'] + key_part(path));
    } else {
        assert(path =~= key_part(path));
    }
    assert forall|i: int| 0 <= i < key_part(path).len() implies key_part(path)[i] != '/' by {
        assert(key_part(path)[i] == path[at + 1 + i]);
    }
}

} // verus!
