//! Text helpers: prefix tests, equality, decimal numbers and lower-casing.
use vstd::prelude::*;

verus! {

/// The decimal digit that `c` stands for, if it is one of `'0'..='9'`.
pub open spec fn is_digit(c: char) -> bool {
    '0' <= c && c <= '9'
}

pub open spec fn digit_value(c: char) -> nat {
    (c as nat - '0' as nat) as nat
}

pub open spec fn all_digits(d: Seq<char>) -> bool {
    forall|i: int| 0 <= i < d.len() ==> is_digit(#[trigger] d[i])
}

/// The number written in decimal by the digits `d` (most significant first).
pub open spec fn decimal_value(d: Seq<char>) -> nat
    decreases d.len(),
{
    if d.len() == 0 {
        0
    } else {
        10 * decimal_value(d.drop_last()) + digit_value(d.last())
    }
}

/// The digits of an unsigned number as Rust's `FromStr` reads them: one optional
/// leading `+` is dropped.
pub open spec fn unsigned_digits(s: Seq<char>) -> Seq<char> {
    if s.len() > 0 && s[0] == '+' {
        s.drop_first()
    } else {
        s
    }
}

/// What parsing `s` as an unsigned integer no larger than `max` gives: an optional
/// `+`, then at least one decimal digit and nothing else, of a value up to `max`.
pub open spec fn parse_unsigned(s: Seq<char>, max: nat) -> Option<nat> {
    let d = unsigned_digits(s);
    if d.len() > 0 && all_digits(d) && decimal_value(d) <= max {
        Some(decimal_value(d))
    } else {
        None
    }
}

/// The character of a decimal digit.
pub open spec fn digit_char(n: nat) -> char
    recommends
        n < 10,
{
    ('0' as nat + n) as char
}

/// The decimal text of `n`, without leading zeros (`"0"` for zero).
pub open spec fn decimal_text(n: nat) -> Seq<char>
    decreases n,
{
    if n < 10 {
        seq![digit_char(n)]
    } else {
        decimal_text(n / 10) + seq![digit_char(n % 10)]
    }
}

proof fn lemma_decimal_text_digits(n: nat)
    ensures
        decimal_text(n).len() > 0,
        all_digits(decimal_text(n)),
        decimal_value(decimal_text(n)) == n,
    decreases n,
{
    let c = digit_char(n % 10);
    assert(is_digit(c) && digit_value(c) == n % 10);
    assert(decimal_text(n).last() == c);
    if n < 10 {
        assert(decimal_text(n).drop_last() =~= Seq::<char>::empty());
        assert(decimal_value(Seq::<char>::empty()) == 0);
        assert(n % 10 == n);
    } else {
        lemma_decimal_text_digits(n / 10);
        assert(decimal_text(n).drop_last() =~= decimal_text(n / 10));
        assert(10 * (n / 10) + n % 10 == n);
        assert forall|i: int| 0 <= i < decimal_text(n).len() implies is_digit(
            #[trigger] decimal_text(n)[i],
        ) by {
            if i < decimal_text(n / 10).len() {
                assert(decimal_text(n)[i] == decimal_text(n / 10)[i]);
            }
        }
    }
}

/// Writing a number in decimal and reading it back gives the number: for
/// every `n` up to `max`, parsing `decimal_text(n)` as an unsigned number no
/// larger than `max` gives `n`.
pub proof fn lemma_decimal_roundtrip(n: nat, max: nat)
    requires
        n <= max,
    ensures
        parse_unsigned(decimal_text(n), max) == Some(n),
{
    lemma_decimal_text_digits(n);
    assert(is_digit(decimal_text(n)[0]));
    assert(unsigned_digits(decimal_text(n)) == decimal_text(n));
}

/// What parsing accepts: a result is never above the limit; the empty text
/// and a lone `+` are refused; one leading `+` may stand before the digits;
/// and a text holding a character that is not a digit, other than that one
/// leading `+`, is refused.
pub proof fn lemma_parse_unsigned_shape(s: Seq<char>, max: nat, i: int)
    ensures
        parse_unsigned(s, max) matches Some(v) ==> v <= max,
        parse_unsigned(Seq::<char>::empty(), max) is None,
        parse_unsigned(seq!['+'], max) is None,
        s.len() > 0 && s[0] != '+' ==> parse_unsigned(seq!['+'] + s, max) == parse_unsigned(
            s,
            max,
        ),
        0 <= i < s.len() && !is_digit(s[i]) && !(i == 0 && s[i] == '+') ==> parse_unsigned(
            s,
            max,
        ) is None,
{
    assert((seq!['+'] + s).drop_first() =~= s);
    assert(seq!['+'].drop_first() =~= Seq::<char>::empty());
    if 0 <= i < s.len() && !is_digit(s[i]) && !(i == 0 && s[i] == '+') {
        let d = unsigned_digits(s);
        if s.len() > 0 && s[0] == '+' {
            assert(d[i - 1] == s[i]);
        } else {
            assert(d[i] == s[i]);
        }
    }
}

/// Whether `s` begins with `prefix`, character by character.
pub fn starts_with(s: &str, prefix: &str) -> (res: bool)
    ensures
        res == prefix@.is_prefix_of(s@),
{
    let n = s.unicode_len();
    let m = prefix.unicode_len();
    if m > n {
        return false;
    }
    let mut i: usize = 0;
    while i < m
        invariant
            n == s@.len(),
            m == prefix@.len(),
            m <= n,
            i <= m,
            forall|j: int| 0 <= j < i ==> prefix@[j] == s@[j],
        decreases m - i,
    {
        if s.get_char(i) != prefix.get_char(i) {
            return false;
        }
        i = i + 1;
    }
    true
}

/// Whether two strings hold the same characters.
pub fn text_eq(a: &str, b: &str) -> (res: bool)
    ensures
        res == (a@ == b@),
{
    let n = a.unicode_len();
    if n != b.unicode_len() {
        return false;
    }
    let mut i: usize = 0;
    while i < n
        invariant
            n == a@.len(),
            n == b@.len(),
            i <= n,
            forall|j: int| 0 <= j < i ==> a@[j] == b@[j],
        decreases n - i,
    {
        if a.get_char(i) != b.get_char(i) {
            return false;
        }
        i = i + 1;
    }
    assert(a@ =~= b@);
    true
}

proof fn lemma_value_step(d: Seq<char>, i: int)
    requires
        0 <= i < d.len(),
    ensures
        decimal_value(d.take(i + 1)) == 10 * decimal_value(d.take(i)) + digit_value(d[i]),
{
    assert(d.take(i + 1).drop_last() =~= d.take(i));
}

proof fn lemma_capped_step(v: nat, c: nat, dv: nat, cap: nat)
    requires
        c == if v <= cap { v } else { (cap + 1) as nat },
        dv < 10,
    ensures
        (if 10 * c + dv <= cap { 10 * c + dv } else { (cap + 1) as nat }) == (if 10 * v + dv
            <= cap {
            10 * v + dv
        } else {
            (cap + 1) as nat
        }),
{
    if v > cap {
        assert(10 * v + dv > cap) by (nonlinear_arith)
            requires
                v > cap,
        ;
        assert(10 * (cap + 1) + dv > cap) by (nonlinear_arith);
    }
}

/// Reads `s` as an unsigned decimal number no larger than `max`, as Rust's
/// `FromStr` for unsigned integers does.
pub fn parse_decimal(s: &str, max: u64) -> (res: Option<u64>)
    ensures
        res matches Some(v) ==> parse_unsigned(s@, max as nat) == Some(v as nat),
        res is None ==> parse_unsigned(s@, max as nat) is None,
{
    let n = s.unicode_len();
    let mut start: usize = 0;
    if n > 0 && s.get_char(0) == '+' {
        start = 1;
    }
    let ghost d = unsigned_digits(s@);
    assert(d =~= s@.subrange(start as int, n as int));
    if start >= n {
        return None;
    }
    // The value read so far, held at `max + 1` once it passes `max`.
    let mut acc: u128 = 0;
    let mut i: usize = start;
    while i < n
        invariant
            n == s@.len(),
            start <= i <= n,
            d =~= s@.subrange(start as int, n as int),
            d == unsigned_digits(s@),
            all_digits(d.take(i - start)),
            acc as nat == if decimal_value(d.take(i - start)) <= max {
                decimal_value(d.take(i - start))
            } else {
                (max + 1) as nat
            },
        decreases n - i,
    {
        let c = s.get_char(i);
        if !('0' <= c && c <= '9') {
            assert(d[i - start] == c);
            assert(!is_digit(d[i - start]));
            return None;
        }
        let dv: u32 = (c as u32) - ('0' as u32);
        proof {
            lemma_value_step(d, i - start);
            lemma_capped_step(
                decimal_value(d.take(i - start)),
                acc as nat,
                dv as nat,
                max as nat,
            );
            assert(d.take(i - start + 1) =~= d.take(i - start).push(c));
        }
        let next: u128 = 10 * acc + (dv as u128);
        if next <= max as u128 {
            acc = next;
        } else {
            acc = max as u128 + 1;
        }
        i = i + 1;
    }
    assert(d.take(n - start) =~= d);
    if acc <= max as u128 {
        Some(acc as u64)
    } else {
        None
    }
}

/// Reads a `u16` as `str::parse::<u16>` does.
pub fn parse_u16(s: &str) -> (res: Option<u16>)
    ensures
        res matches Some(v) ==> parse_unsigned(s@, u16::MAX as nat) == Some(v as nat),
        res is None ==> parse_unsigned(s@, u16::MAX as nat) is None,
{
    match parse_decimal(s, 65535) {
        Some(v) => Some(v as u16),
        None => None,
    }
}

/// Reads a `u64` as `str::parse::<u64>` does.
pub fn parse_u64(s: &str) -> (res: Option<u64>)
    ensures
        res matches Some(v) ==> parse_unsigned(s@, u64::MAX as nat) == Some(v as nat),
        res is None ==> parse_unsigned(s@, u64::MAX as nat) is None,
{
    parse_decimal(s, u64::MAX)
}

fn digit_str(d: u64) -> (res: &'static str)
    requires
        d < 10,
    ensures
        res@ == seq![digit_char(d as nat)],
{
    match d {
        0 => {
            proof {
                reveal_strlit("0");
            }
            "0"
        },
        1 => {
            proof {
                reveal_strlit("1");
            }
            "1"
        },
        2 => {
            proof {
                reveal_strlit("2");
            }
            "2"
        },
        3 => {
            proof {
                reveal_strlit("3");
            }
            "3"
        },
        4 => {
            proof {
                reveal_strlit("4");
            }
            "4"
        },
        5 => {
            proof {
                reveal_strlit("5");
            }
            "5"
        },
        6 => {
            proof {
                reveal_strlit("6");
            }
            "6"
        },
        7 => {
            proof {
                reveal_strlit("7");
            }
            "7"
        },
        8 => {
            proof {
                reveal_strlit("8");
            }
            "8"
        },
        _ => {
            proof {
                reveal_strlit("9");
            }
            "9"
        },
    }
}

/// Appends the decimal text of `n` to `out`.
pub fn push_decimal(out: &mut String, n: u64)
    ensures
        final(out)@ == old(out)@ + decimal_text(n as nat),
    decreases n,
{
    if n >= 10 {
        push_decimal(out, n / 10);
    }
    out.append(digit_str(n % 10));
    assert(out@ =~= old(out)@ + decimal_text(n as nat));
}

/// The decimal text of `n`, as `n.to_string()` writes it.
pub fn decimal_string(n: u64) -> (res: String)
    ensures
        res@ == decimal_text(n as nat),
{
    let mut out = String::new();
    push_decimal(&mut out, n);
    assert(out@ =~= decimal_text(n as nat));
    out
}

/// What `str::to_lowercase` returns for the characters `s`: each character
/// replaced by its Unicode lowercase mapping.
pub uninterp spec fn lowercase(s: Seq<char>) -> Seq<char>;

/// Calls `str::to_lowercase`, whose result depends on the characters of `s` alone.
#[verifier::external_body]
pub(crate) fn to_lowercase(s: &str) -> (res: String)
    ensures
        res@ == lowercase(s@),
{
    s.to_lowercase()
}

} // verus!
