//! Text building blocks for message rendering: decimal numbers, left padding,
//! character removal and string comparison, each against its abstract meaning.
use vstd::prelude::*;
use vstd::utf8::{encode_utf8, is_ascii_chars, is_ascii_chars_encode_utf8};

verus! {

/// The decimal digit character for `d` (`'0'` .. `'9'`).
pub open spec fn digit_char(d: nat) -> char {
    if d == 0 {
        '0'
    } else if d == 1 {
        '1'
    } else if d == 2 {
        '2'
    } else if d == 3 {
        '3'
    } else if d == 4 {
        '4'
    } else if d == 5 {
        '5'
    } else if d == 6 {
        '6'
    } else if d == 7 {
        '7'
    } else if d == 8 {
        '8'
    } else {
        '9'
    }
}

/// The decimal representation of `n`, without leading zeros (`"0"` for zero).
pub open spec fn decimal(n: nat) -> Seq<char>
    decreases n,
{
    if n < 10 {
        seq![digit_char(n)]
    } else {
        decimal(n / 10).push(digit_char(n % 10))
    }
}

/// The length of `s` in UTF-8 bytes.
pub open spec fn byte_len(s: Seq<char>) -> nat {
    encode_utf8(s).len()
}

/// `s` preceded by one copy of `c` for each byte `s` falls short of `len`;
/// `s` itself when it already takes `len` bytes or more.
pub open spec fn pad_left(s: Seq<char>, len: nat, c: char) -> Seq<char> {
    if byte_len(s) < len {
        Seq::new((len - byte_len(s)) as nat, |_i: int| c) + s
    } else {
        s
    }
}

/// UTF-8 encodes a concatenation piece by piece.
pub proof fn lemma_byte_len_concat(a: Seq<char>, b: Seq<char>)
    ensures
        byte_len(a + b) == byte_len(a) + byte_len(b),
    decreases a.len(),
{
    if a.len() > 0 {
        assert((a + b).drop_first() =~= a.drop_first() + b);
        lemma_byte_len_concat(a.drop_first(), b);
    } else {
        assert(a + b =~= b);
    }
}

/// An ASCII character takes one byte, so `n` copies of it take `n` bytes.
pub proof fn lemma_byte_len_ascii_run(n: nat, c: char)
    requires
        c <= '\u{7f}',
    ensures
        byte_len(Seq::new(n, |_i: int| c)) == n,
{
    let run = Seq::new(n, |_i: int| c);
    assert(is_ascii_chars(run));
    is_ascii_chars_encode_utf8(run);
}

/// Left padding with an ASCII character yields exactly `len` bytes from a shorter
/// `s`: the added characters all `c`, then `s`; an `s` of at least `len` bytes is
/// left as it is.
pub proof fn lemma_pad_left(s: Seq<char>, len: nat, c: char)
    requires
        c <= '\u{7f}',
    ensures
        byte_len(s) < len ==> {
            let r = pad_left(s, len, c);
            let added = (len - byte_len(s)) as nat;
            &&& byte_len(r) == len
            &&& forall|i: int| 0 <= i < added ==> #[trigger] r[i] == c
            &&& r.subrange(added as int, r.len() as int) == s
        },
        byte_len(s) >= len ==> pad_left(s, len, c) == s,
{
    if byte_len(s) < len {
        let added = (len - byte_len(s)) as nat;
        let run = Seq::new(added, |_i: int| c);
        let r = pad_left(s, len, c);
        lemma_byte_len_concat(run, s);
        lemma_byte_len_ascii_run(added, c);
        assert(r.subrange(added as int, r.len() as int) =~= s);
    }
}

/// `n` in decimal with at least two digits, zero filled.
pub open spec fn two_digits(n: nat) -> Seq<char> {
    if n < 10 {
        seq!['0'] + decimal(n)
    } else {
        decimal(n)
    }
}

/// `s` with every occurrence of `c` taken out.
pub open spec fn without(s: Seq<char>, c: char) -> Seq<char>
    decreases s.len(),
{
    if s.len() == 0 {
        s
    } else if s.last() == c {
        without(s.drop_last(), c)
    } else {
        without(s.drop_last(), c).push(s.last())
    }
}

/// Relies on `String::push`, which appends one character at the end.
#[verifier::external_body]
pub(crate) fn push_char(s: &mut String, c: char)
    ensures
        final(s)@ == old(s)@.push(c),
{
    s.push(c)
}

/// The character of a decimal digit.
pub fn digit(d: u64) -> (c: char)
    requires
        d < 10,
    ensures
        c == digit_char(d as nat),
{
    if d == 0 {
        '0'
    } else if d == 1 {
        '1'
    } else if d == 2 {
        '2'
    } else if d == 3 {
        '3'
    } else if d == 4 {
        '4'
    } else if d == 5 {
        '5'
    } else if d == 6 {
        '6'
    } else if d == 7 {
        '7'
    } else if d == 8 {
        '8'
    } else {
        '9'
    }
}

/// Renders `n` in decimal.
pub fn decimal_string(n: u64) -> (r: String)
    ensures
        r@ == decimal(n as nat),
    decreases n,
{
    if n < 10 {
        let mut r = String::new();
        push_char(&mut r, digit(n));
        r
    } else {
        let mut r = decimal_string(n / 10);
        push_char(&mut r, digit(n % 10));
        r
    }
}

/// The length of `s` in UTF-8 bytes.
pub fn byte_length(s: &str) -> (n: usize)
    ensures
        n == byte_len(s@),
{
    s.as_bytes().len()
}

/// Left-pads `s` with one `c` for each byte it falls short of `len`.
pub fn pad_string(s: &mut String, len: usize, c: char)
    ensures
        final(s)@ == pad_left(old(s)@, len as nat, c),
{
    let n = byte_length(s.as_str());
    if n < len {
        let mut prefix = String::new();
        let mut i: usize = 0;
        while i < len - n
            invariant
                i <= len - n,
                prefix@ == Seq::new(i as nat, |_j: int| c),
            decreases len - n - i,
        {
            push_char(&mut prefix, c);
            i = i + 1;
            assert(prefix@ =~= Seq::new(i as nat, |_j: int| c));
        }
        let padded = prefix.concat(s.as_str());
        *s = padded;
    }
}

/// Renders `n` in decimal with at least two digits.
pub fn two_digit_string(n: u64) -> (r: String)
    ensures
        r@ == two_digits(n as nat),
{
    let digits = decimal_string(n);
    proof {
        reveal_strlit("0");
        assert("0"@ =~= seq!['0']);
    }
    if n < 10 {
        join("0", digits.as_str())
    } else {
        digits
    }
}

/// Copies `s` without any occurrence of `c`.
pub fn remove_char(s: &str, c: char) -> (r: String)
    ensures
        r@ == without(s@, c),
{
    let n = s.unicode_len();
    let mut r = String::new();
    let mut i: usize = 0;
    while i < n
        invariant
            n == s@.len(),
            i <= n,
            r@ == without(s@.subrange(0, i as int), c),
        decreases n - i,
    {
        let x = s.get_char(i);
        assert(s@.subrange(0, i as int + 1).drop_last() =~= s@.subrange(0, i as int));
        if x != c {
            push_char(&mut r, x);
        }
        i = i + 1;
    }
    assert(s@.subrange(0, n as int) =~= s@);
    r
}

/// Whether `a` and `b` hold the same characters.
pub fn same_text(a: &str, b: &str) -> (r: bool)
    ensures
        r == (a@ == b@),
{
    let n = a.unicode_len();
    if n != b.unicode_len() {
        return false;
    }
    let mut i: usize = 0;
    while i < n
        invariant
            n == a@.len(),
            n == b@.len(),
            i <= n,
            a@.subrange(0, i as int) == b@.subrange(0, i as int),
        decreases n - i,
    {
        if a.get_char(i) != b.get_char(i) {
            return false;
        }
        assert(a@.subrange(0, i as int + 1) =~= a@.subrange(0, i as int).push(a@[i as int]));
        assert(b@.subrange(0, i as int + 1) =~= b@.subrange(0, i as int).push(b@[i as int]));
        i = i + 1;
    }
    assert(a@ =~= a@.subrange(0, n as int));
    assert(b@ =~= b@.subrange(0, n as int));
    true
}

/// Joins two pieces of text into a new string.
pub fn join(a: &str, b: &str) -> (r: String)
    ensures
        r@ == a@ + b@,
{
    String::from_str(a).concat(b)
}

} // verus!
