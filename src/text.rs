//! Text building blocks of the console output: decimal numbers, padding,
//! durations.

use vstd::prelude::*;
use vstd::string::*;

verus! {

/// The decimal digit of `d`, for `d < 10`.
pub open spec fn digit_char(d: nat) -> char {
    if d == 0 {
        '0'
    } else if d == 1 {
        '1'
    } else if d == 2 {
        '2'
    } else if d == 3 {
        '3'
    } else if d == 4 {
        '4'
    } else if d == 5 {
        '5'
    } else if d == 6 {
        '6'
    } else if d == 7 {
        '7'
    } else if d == 8 {
        '8'
    } else {
        '9'
    }
}

/// The decimal representation of `n`, without leading zeros.
#[verifier::opaque]
pub open spec fn decimal(n: nat) -> Seq<char>
    decreases n,
{
    if n < 10 {
        seq![digit_char(n)]
    } else {
        decimal(n / 10).push(digit_char(n % 10))
    }
}

/// `n` spaces.
#[verifier::opaque]
pub open spec fn spaces(n: nat) -> Seq<char> {
    Seq::new(n, |i: int| ' ')
}

/// `s` right-aligned in a field of `width` characters.
#[verifier::opaque]
pub open spec fn pad_left(s: Seq<char>, width: nat) -> Seq<char> {
    if s.len() >= width {
        s
    } else {
        spaces((width - s.len()) as nat) + s
    }
}

/// `s` left-aligned in a field of `width` characters.
#[verifier::opaque]
pub open spec fn pad_right(s: Seq<char>, width: nat) -> Seq<char> {
    if s.len() >= width {
        s
    } else {
        s + spaces((width - s.len()) as nat)
    }
}

/// A duration of `ms` milliseconds as seconds with three decimals.
#[verifier::opaque]
pub open spec fn seconds(ms: nat) -> Seq<char> {
    decimal(ms / 1000) + seq!['.'] + pad_left(decimal(ms % 1000), 3).map_values(
        |c: char| if c == ' ' {
            '0'
        } else {
            c
        },
    )
}

fn digit_str(d: u64) -> (r: &'static str)
    requires
        d < 10,
    ensures
        r@ == seq![digit_char(d as nat)],
{
    proof {
        reveal_strlit("0");
        reveal_strlit("1");
        reveal_strlit("2");
        reveal_strlit("3");
        reveal_strlit("4");
        reveal_strlit("5");
        reveal_strlit("6");
        reveal_strlit("7");
        reveal_strlit("8");
        reveal_strlit("9");
    }
    if d == 0 {
        "0"
    } else if d == 1 {
        "1"
    } else if d == 2 {
        "2"
    } else if d == 3 {
        "3"
    } else if d == 4 {
        "4"
    } else if d == 5 {
        "5"
    } else if d == 6 {
        "6"
    } else if d == 7 {
        "7"
    } else if d == 8 {
        "8"
    } else {
        "9"
    }
}

/// Appends the decimal representation of `n` to `s`.
pub fn push_decimal(s: &mut String, n: u64)
    ensures
        final(s)@ == old(s)@ + decimal(n as nat),
    decreases n,
{
    proof {
        reveal(decimal);
    }
    if n >= 10 {
        push_decimal(s, n / 10);
    }
    s.append(digit_str(n % 10));
    proof {
        if n >= 10 {
            assert(decimal(n as nat) == decimal((n / 10) as nat).push(digit_char((n % 10) as nat)));
        }
    }
    assert(final(s)@ =~= old(s)@ + decimal(n as nat));
}

/// Appends `n` spaces to `s`.
pub fn push_spaces(s: &mut String, n: usize)
    ensures
        final(s)@ == old(s)@ + spaces(n as nat),
{
    proof {
        reveal(spaces);
    }
    let ghost start = s@;
    let mut k: usize = 0;
    while k < n
        invariant
            k <= n,
            s@ == start + spaces(k as nat),
        decreases n - k,
    {
        s.append(" ");
        proof {
            reveal(spaces);
            reveal_strlit(" ");
            assert(start + spaces((k + 1) as nat) =~= start + spaces(k as nat) + " "@);
        }
        k += 1;
    }
}

/// Appends `t` right-aligned in a field of `width` characters.
pub fn push_padded_left(s: &mut String, t: &str, width: usize)
    ensures
        final(s)@ == old(s)@ + pad_left(t@, width as nat),
{
    proof {
        reveal(pad_left);
    }
    let len = t.unicode_len();
    if len < width {
        push_spaces(s, width - len);
    }
    s.append(t);
    assert(final(s)@ =~= old(s)@ + pad_left(t@, width as nat));
}

/// Appends `t` left-aligned in a field of `width` characters.
pub fn push_padded_right(s: &mut String, t: &str, width: usize)
    ensures
        final(s)@ == old(s)@ + pad_right(t@, width as nat),
{
    proof {
        reveal(pad_right);
    }
    let len = t.unicode_len();
    s.append(t);
    if len < width {
        push_spaces(s, width - len);
    }
    assert(final(s)@ =~= old(s)@ + pad_right(t@, width as nat));
}

/// The decimal representation of `n`.
pub fn decimal_string(n: u64) -> (r: String)
    ensures
        r@ == decimal(n as nat),
{
    let mut s = String::new();
    push_decimal(&mut s, n);
    assert(s@ =~= decimal(n as nat));
    s
}

/// A duration of `ms` milliseconds as seconds with three decimals, such as
/// `0.034`.
pub fn seconds_string(ms: u64) -> (r: String)
    ensures
        r@ == seconds(ms as nat),
{
    proof {
        reveal(seconds);
        reveal(pad_left);
        reveal(spaces);
    }
    let mut s = decimal_string(ms / 1000);
    s.append(".");
    let frac = ms % 1000;
    if frac < 10 {
        s.append("00");
    } else if frac < 100 {
        s.append("0");
    }
    push_decimal(&mut s, frac);
    proof {
        reveal(decimal);
        reveal(seconds);
        reveal(pad_left);
        reveal(spaces);
        reveal_strlit(".");
        reveal_strlit("00");
        reveal_strlit("0");
        let d = decimal(frac as nat);
        let f = |c: char| if c == ' ' { '0' } else { c };
        lemma_decimal_digits(frac as nat);
        if frac < 10 {
            assert(d.len() == 1);
            assert(pad_left(d, 3).map_values(f) =~= seq!['0', '0'] + d);
        } else if frac < 100 {
            lemma_decimal_len_two(frac as nat);
            assert(pad_left(d, 3).map_values(f) =~= seq!['0'] + d);
        } else {
            lemma_decimal_len_three(frac as nat);
            assert(pad_left(d, 3).map_values(f) =~= d);
        }
    }
    assert(s@ =~= seconds(ms as nat));
    s
}

proof fn lemma_decimal_digits(n: nat)
    ensures
        forall|i: int| 0 <= i < decimal(n).len() ==> #[trigger] decimal(n)[i] != ' ',
        decimal(n).len() >= 1,
    decreases n,
{
    reveal(decimal);
    if n >= 10 {
        lemma_decimal_digits(n / 10);
    }
}

proof fn lemma_decimal_len_two(n: nat)
    requires
        10 <= n < 100,
    ensures
        decimal(n).len() == 2,
{
    reveal(decimal);
    assert(n / 10 < 10);
    assert(decimal(n / 10).len() == 1);
}

proof fn lemma_decimal_len_three(n: nat)
    requires
        100 <= n < 1000,
    ensures
        decimal(n).len() == 3,
{
    reveal(decimal);
    assert(n / 10 >= 10 && n / 10 < 100);
    lemma_decimal_len_two(n / 10);
}

} // verus!
