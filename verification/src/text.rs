//! Small text helpers: lowercase hexadecimal rendering, hex parsing of sysfs
//! attributes, trimming, and the parsing of a boolean command-line word.
use vstd::prelude::*;

verus! {

/// The lowercase hexadecimal digit for a nibble `d` (`0..16`).
pub open spec fn hex_char(d: nat) -> char {
    if d < 10 {
        (48 + d) as char
    } else {
        (87 + d) as char
    }
}

/// Exactly four lowercase hex digits of `v`, most significant first
/// (what `{:04x}` renders for a `u16`).
pub open spec fn hex4_spec(v: u16) -> Seq<char> {
    seq![
        hex_char((v / 4096) as nat),
        hex_char(((v / 256) % 16) as nat),
        hex_char(((v / 16) % 16) as nat),
        hex_char((v % 16) as nat),
    ]
}

/// The lowercase hex digits of `n` without leading zeros, and `"0"` for zero
/// (what `{:x}` renders).
pub open spec fn hex_spec(n: nat) -> Seq<char>
    decreases n,
{
    if n < 16 {
        seq![hex_char(n)]
    } else {
        hex_spec(n / 16).push(hex_char(n % 16))
    }
}

/// Appends `c` to `s`.
#[verifier::external_body]
pub(crate) fn push_char(s: &mut String, c: char)
    ensures
        final(s)@ == old(s)@.push(c),
{
    s.push(c);
}

/// The lowercase hex digit of a nibble.
pub fn hex_digit(d: u8) -> (c: char)
    requires
        d < 16,
    ensures
        c == hex_char(d as nat),
{
    if d < 10 {
        (d + 48) as char
    } else {
        (d + 87) as char
    }
}

/// Appends the four-digit lowercase hex rendering of `v` to `out`.
pub fn push_hex4(out: &mut String, v: u16)
    ensures
        final(out)@ == old(out)@ + hex4_spec(v),
{
    push_char(out, hex_digit((v / 4096) as u8));
    push_char(out, hex_digit(((v / 256) % 16) as u8));
    push_char(out, hex_digit(((v / 16) % 16) as u8));
    push_char(out, hex_digit((v % 16) as u8));
    assert(final(out)@ =~= old(out)@ + hex4_spec(v));
}

/// Appends the lowercase hex rendering of `n`, without leading zeros, to `out`.
pub fn push_hex(out: &mut String, n: u64)
    ensures
        final(out)@ == old(out)@ + hex_spec(n as nat),
    decreases n,
{
    if n >= 16 {
        push_hex(out, n / 16);
    }
    push_char(out, hex_digit((n % 16) as u8));
    assert(final(out)@ =~= old(out)@ + hex_spec(n as nat));
}

/// Whether `c` has the Unicode `White_Space` property (the whitespace that
/// `str::trim` removes): U+0009 to U+000D, space, U+0085, U+00A0, U+1680,
/// U+2000 to U+200A, U+2028, U+2029, U+202F, U+205F and U+3000.
pub open spec fn is_white_space(c: char) -> bool {
    let n = c as int;
    ||| 9 <= n <= 13
    ||| n == 32
    ||| n == 0x85
    ||| n == 0xA0
    ||| n == 0x1680
    ||| 0x2000 <= n <= 0x200A
    ||| n == 0x2028
    ||| n == 0x2029
    ||| n == 0x202F
    ||| n == 0x205F
    ||| n == 0x3000
}

/// `s` without its leading whitespace.
pub open spec fn trim_start_spec(s: Seq<char>) -> Seq<char>
    decreases s.len(),
{
    if s.len() > 0 && is_white_space(s[0]) {
        trim_start_spec(s.drop_first())
    } else {
        s
    }
}

/// `s` without its trailing whitespace.
pub open spec fn trim_end_spec(s: Seq<char>) -> Seq<char>
    decreases s.len(),
{
    if s.len() > 0 && is_white_space(s.last()) {
        trim_end_spec(s.drop_last())
    } else {
        s
    }
}

/// `s` without its leading and trailing whitespace (what `str::trim` gives).
pub open spec fn trimmed(s: Seq<char>) -> Seq<char> {
    trim_end_spec(trim_start_spec(s))
}

/// Removes leading and trailing whitespace, as `str::trim` does.
pub fn trim(s: &str) -> (r: String)
    ensures
        r@ == trimmed(s@),
{
    let n = s.unicode_len();
    let mut i: usize = 0;
    proof {
        assert(s@.subrange(0, n as int) =~= s@);
    }
    while i < n && is_white_space_char(s.get_char(i))
        invariant
            n == s@.len(),
            i <= n,
            trim_start_spec(s@) == trim_start_spec(s@.subrange(i as int, n as int)),
        decreases n - i,
    {
        proof {
            let t = s@.subrange(i as int, n as int);
            assert(t.drop_first() =~= s@.subrange(i + 1, n as int));
        }
        i = i + 1;
    }
    let ghost start = s@.subrange(i as int, n as int);
    proof {
        assert(trim_start_spec(start) == start);
    }
    let mut j: usize = n;
    while j > i && is_white_space_char(s.get_char(j - 1))
        invariant
            n == s@.len(),
            i <= j <= n,
            start == s@.subrange(i as int, n as int),
            trim_end_spec(start) == trim_end_spec(s@.subrange(i as int, j as int)),
        decreases j - i,
    {
        proof {
            let t = s@.subrange(i as int, j as int);
            assert(t.drop_last() =~= s@.subrange(i as int, j - 1));
        }
        j = j - 1;
    }
    proof {
        let t = s@.subrange(i as int, j as int);
        assert(trim_end_spec(t) == t);
    }
    s.substring_char(i, j).to_owned()
}

/// Whether `c` is Unicode whitespace.
fn is_white_space_char(c: char) -> (r: bool)
    ensures
        r == is_white_space(c),
{
    let n = c as u32;
    (9 <= n && n <= 13) || n == 32 || n == 0x85 || n == 0xA0 || n == 0x1680 || (0x2000 <= n
        && n <= 0x200A) || n == 0x2028 || n == 0x2029 || n == 0x202F || n == 0x205F || n
        == 0x3000
}

/// The value of a hexadecimal digit (`0-9`, `a-f`, `A-F`), or `-1` for any
/// other character.
pub open spec fn hex_digit_value(c: char) -> int {
    let n = c as int;
    if 48 <= n <= 57 {
        n - 48
    } else if 97 <= n <= 102 {
        n - 87
    } else if 65 <= n <= 70 {
        n - 55
    } else {
        -1
    }
}

/// Whether every character of `s` is a hexadecimal digit.
pub open spec fn all_hex_digits(s: Seq<char>) -> bool {
    forall|i: int| 0 <= i < s.len() ==> hex_digit_value(#[trigger] s[i]) >= 0
}

/// The number that a string of hexadecimal digits denotes.
pub open spec fn hex_value(digits: Seq<char>) -> int
    decreases digits.len(),
{
    if digits.len() == 0 {
        0
    } else {
        hex_value(digits.drop_last()) * 16 + hex_digit_value(digits.last())
    }
}

/// `u16::from_str_radix(s, 16).ok()` as `std` documents it: an optional `+`
/// followed by at least one hexadecimal digit and nothing else, whose value
/// fits in a `u16`.
pub open spec fn spec_parse_hex_u16(s: Seq<char>) -> Option<u16> {
    let digits = if s.len() > 0 && s[0] == '+' {
        s.drop_first()
    } else {
        s
    };
    if digits.len() > 0 && all_hex_digits(digits) && hex_value(digits) <= 0xffff {
        Some(hex_value(digits) as u16)
    } else {
        None
    }
}

/// The value of a hexadecimal digit character, if it is one.
fn hex_digit_of(c: char) -> (r: Option<u32>)
    ensures
        match r {
            Some(v) => hex_digit_value(c) >= 0 && v == hex_digit_value(c),
            None => hex_digit_value(c) < 0,
        },
{
    let n = c as u32;
    if 48 <= n && n <= 57 {
        Some(n - 48)
    } else if 97 <= n && n <= 102 {
        Some(n - 87)
    } else if 65 <= n && n <= 70 {
        Some(n - 55)
    } else {
        None
    }
}

/// A prefix of a string of hexadecimal digits denotes no more than the whole,
/// and no number denoted is negative.
proof fn lemma_hex_prefix_le(t: Seq<char>, k: int)
    requires
        all_hex_digits(t),
        0 <= k <= t.len(),
    ensures
        0 <= hex_value(t.subrange(0, k)) <= hex_value(t),
    decreases t.len(),
{
    if t.len() == 0 {
        assert(t.subrange(0, k) =~= t);
    } else {
        let d = t.drop_last();
        assert(hex_digit_value(t[t.len() - 1]) >= 0);
        if k == t.len() {
            assert(t.subrange(0, k) =~= t);
            lemma_hex_prefix_le(d, d.len() as int);
            assert(d.subrange(0, d.len() as int) =~= d);
        } else {
            assert(t.subrange(0, k) =~= d.subrange(0, k));
            lemma_hex_prefix_le(d, k);
        }
    }
}

/// Parses a hexadecimal `u16` as `u16::from_str_radix(s, 16)` does: an
/// optional `+`, then at least one hexadecimal digit and nothing else, with a
/// value that fits.
pub fn parse_hex_u16(s: &str) -> (r: Option<u16>)
    ensures
        r == spec_parse_hex_u16(s@),
{
    let n = s.unicode_len();
    let mut k: usize = 0;
    if n > 0 && s.get_char(0) == '+' {
        k = 1;
    }
    let start = k;
    let ghost digits = if s@.len() > 0 && s@[0] == '+' {
        s@.drop_first()
    } else {
        s@
    };
    proof {
        assert(digits =~= s@.subrange(start as int, n as int));
    }
    if k == n {
        return None;
    }
    let mut acc: u32 = 0;
    proof {
        assert(s@.subrange(start as int, k as int) =~= Seq::<char>::empty());
    }
    while k < n
        invariant
            n == s@.len(),
            start <= k <= n,
            digits == s@.subrange(start as int, n as int),
            digits == (if s@.len() > 0 && s@[0] == '+' {
                s@.drop_first()
            } else {
                s@
            }),
            acc as int == hex_value(s@.subrange(start as int, k as int)),
            acc <= 0xffff,
            all_hex_digits(s@.subrange(start as int, k as int)),
        decreases n - k,
    {
        let ghost prefix = s@.subrange(start as int, k as int);
        let ghost next_prefix = s@.subrange(start as int, k + 1);
        proof {
            assert(next_prefix.drop_last() =~= prefix);
            assert(next_prefix.last() == s@[k as int]);
            assert(digits[k - start] == s@[k as int]);
        }
        match hex_digit_of(s.get_char(k)) {
            None => {
                proof {
                    assert(hex_digit_value(digits[k - start]) < 0);
                    assert(!all_hex_digits(digits));
                }
                return None;
            },
            Some(d) => {
                let next = acc * 16 + d;
                if next > 0xffff {
                    proof {
                        if all_hex_digits(digits) {
                            lemma_hex_prefix_le(digits, k + 1 - start);
                            assert(digits.subrange(0, k + 1 - start) =~= next_prefix);
                        }
                    }
                    return None;
                }
                acc = next;
                k = k + 1;
            },
        }
    }
    proof {
        assert(s@.subrange(start as int, n as int) =~= digits);
    }
    Some(acc as u16)
}

/// Reads the boolean word of the privileged `set-state` command the way the
/// program does: `"false"` disables, anything else (`"true"` or a word that
/// does not parse) enables.
pub fn parse_enabled_arg(word: &str) -> (enabled: bool)
    ensures
        enabled == (word@ != "false"@),
{
    let w = word.to_owned();
    let f = String::from_str("false");
    !(w == f)
}

/// The digits of base 16 in their standard lowercase and uppercase forms.
pub open spec fn lower_hex_digits() -> Seq<char> {
    "0123456789abcdef"@
}

/// The uppercase digits of base 16.
pub open spec fn upper_hex_digits() -> Seq<char> {
    "0123456789ABCDEF"@
}

/// Rendering uses the standard lowercase hex digit of every nibble.
pub proof fn lemma_hex_char_is_standard_digit()
    ensures
        lower_hex_digits().len() == 16,
        forall|d: nat| d < 16 ==> #[trigger] hex_char(d) == lower_hex_digits()[d as int],
{
    reveal_strlit("0123456789abcdef");
    assert forall|d: nat| d < 16 implies #[trigger] hex_char(d) == lower_hex_digits()[d as int] by {
        if d == 0 {} else if d == 1 {} else if d == 2 {} else if d == 3 {} else if d == 4 {} else if d == 5 {} else if d == 6 {} else if d == 7 {} else if d == 8 {} else if d == 9 {} else if d == 10 {} else if d == 11 {} else if d == 12 {} else if d == 13 {} else if d == 14 {} else {}
    }
}

/// Parsing gives every standard hex digit, lowercase or uppercase, its value,
/// and no other character is a digit.
pub proof fn lemma_hex_digit_value_is_standard()
    ensures
        forall|d: int|
            0 <= d < 16 ==> hex_digit_value(#[trigger] lower_hex_digits()[d]) == d
                && hex_digit_value(upper_hex_digits()[d]) == d,
        forall|c: char|
            hex_digit_value(c) >= 0 ==> exists|d: int|
                0 <= d < 16 && (c == #[trigger] lower_hex_digits()[d] || c
                    == upper_hex_digits()[d]),
{
    reveal_strlit("0123456789abcdef");
    reveal_strlit("0123456789ABCDEF");
    assert forall|d: int| 0 <= d < 16 implies hex_digit_value(#[trigger] lower_hex_digits()[d])
        == d && hex_digit_value(upper_hex_digits()[d]) == d by {
        if d == 0 {} else if d == 1 {} else if d == 2 {} else if d == 3 {} else if d == 4 {} else if d == 5 {} else if d == 6 {} else if d == 7 {} else if d == 8 {} else if d == 9 {} else if d == 10 {} else if d == 11 {} else if d == 12 {} else if d == 13 {} else if d == 14 {} else {}
    }
    assert forall|c: char| hex_digit_value(c) >= 0 implies exists|d: int|
        0 <= d < 16 && (c == #[trigger] lower_hex_digits()[d] || c == upper_hex_digits()[d]) by {
        let n = c as int;
        let d = hex_digit_value(c);
        assert(0 <= d < 16);
        if 48 <= n <= 57 {
            assert(c == lower_hex_digits()[d]) by { if d == 0 {} else if d == 1 {} else if d == 2 {} else if d == 3 {} else if d == 4 {} else if d == 5 {} else if d == 6 {} else if d == 7 {} else if d == 8 {} else if d == 9 {} else if d == 10 {} else if d == 11 {} else if d == 12 {} else if d == 13 {} else if d == 14 {} else {} }
        } else if 97 <= n <= 102 {
            assert(c == lower_hex_digits()[d]) by { if d == 0 {} else if d == 1 {} else if d == 2 {} else if d == 3 {} else if d == 4 {} else if d == 5 {} else if d == 6 {} else if d == 7 {} else if d == 8 {} else if d == 9 {} else if d == 10 {} else if d == 11 {} else if d == 12 {} else if d == 13 {} else if d == 14 {} else {} }
        } else {
            assert(c == upper_hex_digits()[d]) by { if d == 0 {} else if d == 1 {} else if d == 2 {} else if d == 3 {} else if d == 4 {} else if d == 5 {} else if d == 6 {} else if d == 7 {} else if d == 8 {} else if d == 9 {} else if d == 10 {} else if d == 11 {} else if d == 12 {} else if d == 13 {} else if d == 14 {} else {} }
        }
    }
}

/// Reading back a rendered nibble gives the nibble.
pub proof fn lemma_hex_char_value(d: nat)
    requires
        d < 16,
    ensures
        hex_digit_value(hex_char(d)) == d,
{
}

/// The `{:x}` rendering of any number consists of hex digits that denote it.
pub proof fn lemma_hex_spec_round_trip(n: nat)
    ensures
        all_hex_digits(hex_spec(n)),
        hex_value(hex_spec(n)) == n,
    decreases n,
{
    lemma_hex_char_value(n % 16);
    if n < 16 {
        let s = seq![hex_char(n)];
        assert(s.drop_last() =~= Seq::<char>::empty());
        assert(hex_value(Seq::<char>::empty()) == 0);
        assert(hex_value(s) == hex_value(s.drop_last()) * 16 + hex_digit_value(s.last()));
    } else {
        lemma_hex_spec_round_trip(n / 16);
        let s = hex_spec(n);
        assert(s.drop_last() =~= hex_spec(n / 16));
        assert(s.last() == hex_char(n % 16));
        assert(hex_value(s) == hex_value(s.drop_last()) * 16 + hex_digit_value(s.last()));
        assert(hex_value(s) == (n / 16) * 16 + n % 16);
        assert forall|i: int| 0 <= i < s.len() implies hex_digit_value(#[trigger] s[i]) >= 0 by {
            if i < s.len() - 1 {
                assert(s[i] == hex_spec(n / 16)[i]);
            }
        }
    }
}

/// The four-digit rendering of any `u16` parses back to it, as
/// `u16::from_str_radix(_, 16)` reads it.
pub proof fn lemma_parse_hex4_round_trip(v: u16)
    ensures
        spec_parse_hex_u16(hex4_spec(v)) == Some(v),
{
    let a = (v / 4096) as nat;
    let b = ((v / 256) % 16) as nat;
    let c = ((v / 16) % 16) as nat;
    let d = (v % 16) as nat;
    lemma_hex_char_value(a);
    lemma_hex_char_value(b);
    lemma_hex_char_value(c);
    lemma_hex_char_value(d);
    let s = hex4_spec(v);
    assert(s.drop_last() =~= seq![hex_char(a), hex_char(b), hex_char(c)]);
    assert(seq![hex_char(a), hex_char(b), hex_char(c)].drop_last() =~= seq![hex_char(a), hex_char(b)]);
    assert(seq![hex_char(a), hex_char(b)].drop_last() =~= seq![hex_char(a)]);
    assert(seq![hex_char(a)].drop_last() =~= Seq::<char>::empty());
    let s3 = seq![hex_char(a), hex_char(b), hex_char(c)];
    let s2 = seq![hex_char(a), hex_char(b)];
    let s1 = seq![hex_char(a)];
    assert(hex_value(Seq::<char>::empty()) == 0);
    assert(hex_value(s1) == a);
    assert(hex_value(s2) == a * 16 + b);
    assert(hex_value(s3) == (a * 16 + b) * 16 + c);
    assert(s.last() == hex_char(d));
    assert(hex_value(s) == ((a * 16 + b) * 16 + c) * 16 + d);
    assert(((a * 16 + b) * 16 + c) * 16 + d == v) by (nonlinear_arith)
        requires
            a == v / 4096,
            b == (v / 256) % 16,
            c == (v / 16) % 16,
            d == v % 16,
            v <= 0xffff,
    ;
    assert(s[0] != '+');
    assert(all_hex_digits(s));
}

} // verus!
