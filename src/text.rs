//! Text building blocks: rendered output is gathered as characters and handed
//! out as a `String` at the end.
use vstd::prelude::*;

verus! {

/// The decimal digit or lowercase hexadecimal digit of value `d`.
pub open spec fn digit_char(d: nat) -> char {
    if d < 10 {
        ((d + 48) as u8) as char
    } else {
        ((d + 87) as u8) as char
    }
}

/// The decimal digits of `n`, most significant first, without leading zeros.
pub open spec fn dec(n: nat) -> Seq<char>
    decreases n,
{
    if n < 10 {
        seq![digit_char(n)]
    } else {
        dec(n / 10) + seq![digit_char(n % 10)]
    }
}

/// The lowercase hexadecimal digits of `n`, without leading zeros.
pub open spec fn hex(n: nat) -> Seq<char>
    decreases n,
{
    if n < 16 {
        seq![digit_char(n)]
    } else {
        hex(n / 16) + seq![digit_char(n % 16)]
    }
}

/// The digits of `n` in base 10 or 16.
pub open spec fn digits(n: nat, b: nat) -> Seq<char> {
    if b == 10 {
        dec(n)
    } else {
        hex(n)
    }
}

/// `n` copies of `c`.
pub open spec fn fill(c: char, n: int) -> Seq<char> {
    Seq::new(if n < 0 { 0 } else { n as nat }, |_i: int| c)
}

/// `s` padded on the left with zeros to at least `w` characters.
pub open spec fn zero_pad(s: Seq<char>, w: int) -> Seq<char> {
    fill('0', w - s.len()) + s
}

/// `s` padded on the right with spaces to at least `w` characters.
pub open spec fn pad_right(s: Seq<char>, w: int) -> Seq<char> {
    s + fill(' ', w - s.len())
}

/// `s` centred in a field of `w` characters filled with `c`; an odd padding
/// puts the extra character on the right.
pub open spec fn center(s: Seq<char>, w: int, c: char) -> Seq<char> {
    let p = w - s.len();
    fill(c, p / 2) + s + fill(c, p - p / 2)
}

/// The characters of `s`.
pub fn chars_of(s: &str) -> (r: Vec<char>)
    ensures
        r@ == s@,
{
    let n = s.unicode_len();
    let mut r: Vec<char> = Vec::new();
    let mut i: usize = 0;
    while i < n
        invariant
            n == s@.len(),
            i <= n,
            r@ == s@.subrange(0, i as int),
        decreases n - i,
    {
        r.push(s.get_char(i));
        i = i + 1;
    }
    r
}

/// Appends the characters of `s` to `out`.
pub fn push_str(out: &mut Vec<char>, s: &str)
    ensures
        final(out)@ == old(out)@ + s@,
{
    let n = s.unicode_len();
    let mut i: usize = 0;
    while i < n
        invariant
            n == s@.len(),
            i <= n,
            out@ == old(out)@ + s@.subrange(0, i as int),
        decreases n - i,
    {
        out.push(s.get_char(i));
        i = i + 1;
        proof {
            assert(s@.subrange(0, i as int) == s@.subrange(0, i - 1) + seq![s@[i - 1]]);
        }
    }
    proof {
        assert(s@.subrange(0, n as int) == s@);
    }
}

/// Appends the characters of `s` to `out`.
pub fn push_seq(out: &mut Vec<char>, s: &Vec<char>)
    ensures
        final(out)@ == old(out)@ + s@,
{
    let mut i: usize = 0;
    while i < s.len()
        invariant
            i <= s.len(),
            out@ == old(out)@ + s@.subrange(0, i as int),
        decreases s.len() - i,
    {
        out.push(s[i]);
        i = i + 1;
        proof {
            assert(s@.subrange(0, i as int) == s@.subrange(0, i - 1) + seq![s@[i - 1]]);
        }
    }
    proof {
        assert(s@.subrange(0, s@.len() as int) == s@);
    }
}

/// Appends `n` copies of `c`.
pub fn push_fill(out: &mut Vec<char>, c: char, n: usize)
    ensures
        final(out)@ == old(out)@ + fill(c, n as int),
{
    let mut i: usize = 0;
    while i < n
        invariant
            i <= n,
            out@ == old(out)@ + fill(c, i as int),
        decreases n - i,
    {
        out.push(c);
        i = i + 1;
        proof {
            assert(fill(c, i as int) == fill(c, i - 1) + seq![c]);
        }
    }
}

/// Appends `s` padded on the right with spaces to `w` columns.
pub fn push_padded(out: &mut Vec<char>, s: &Vec<char>, w: usize)
    ensures
        final(out)@ == old(out)@ + pad_right(s@, w as int),
{
    push_seq(out, s);
    if s.len() < w {
        push_fill(out, ' ', w - s.len());
    } else {
        proof {
            assert(fill(' ', w - s@.len()) =~= Seq::<char>::empty());
        }
    }
    proof {
        assert(out@ =~= old(out)@ + pad_right(s@, w as int));
    }
}

/// Appends `s` centred in `w` columns filled with `c`.
pub fn push_center(out: &mut Vec<char>, s: &Vec<char>, w: usize, c: char)
    ensures
        final(out)@ == old(out)@ + center(s@, w as int, c),
{
    if s.len() >= w {
        proof {
            let p = w - s@.len();
            assert(p / 2 <= 0 && p - p / 2 <= 0);
            assert(fill(c, p / 2) =~= Seq::<char>::empty());
            assert(fill(c, p - p / 2) =~= Seq::<char>::empty());
        }
        push_seq(out, s);
        proof {
            assert(old(out)@ + center(s@, w as int, c) =~= old(out)@ + s@);
        }
    } else {
        let p = w - s.len();
        push_fill(out, c, p / 2);
        push_seq(out, s);
        push_fill(out, c, p - p / 2);
        proof {
            assert(out@ =~= old(out)@ + center(s@, w as int, c));
        }
    }
}

/// The digits of `n` in base 10 or 16.
pub fn digits_of(n: u64, b: u64) -> (r: Vec<char>)
    requires
        b == 10 || b == 16,
    ensures
        r@ == digits(n as nat, b as nat),
    decreases n,
{
    if n < b {
        let c: char = if n < 10 {
            ((n + 48) as u8) as char
        } else {
            ((n + 87) as u8) as char
        };
        vec![c]
    } else {
        proof {
            assert(n / b < n) by (nonlinear_arith)
                requires
                    b >= 2,
                    n >= b,
            ;
        }
        let mut r = digits_of(n / b, b);
        let d = n % b;
        let c: char = if d < 10 {
            ((d + 48) as u8) as char
        } else {
            ((d + 87) as u8) as char
        };
        r.push(c);
        r
    }
}

/// Appends the decimal form of `n`.
pub fn push_dec(out: &mut Vec<char>, n: u64)
    ensures
        final(out)@ == old(out)@ + dec(n as nat),
{
    let d = digits_of(n, 10);
    push_seq(out, &d);
}

/// Appends the lowercase hexadecimal form of `n`, zero-padded to `w` digits.
pub fn push_hex(out: &mut Vec<char>, n: u64, w: usize)
    ensures
        final(out)@ == old(out)@ + zero_pad(hex(n as nat), w as int),
{
    let d = digits_of(n, 16);
    if d.len() < w {
        push_fill(out, '0', w - d.len());
    } else {
        proof {
            assert(fill('0', w - d@.len()) =~= Seq::<char>::empty());
        }
    }
    push_seq(out, &d);
    proof {
        assert(old(out)@ + fill('0', w - d@.len()) + d@ == old(out)@ + zero_pad(d@, w as int));
    }
}

/// The number of hexadecimal digits of `n`.
pub fn hex_width(n: u64) -> (r: usize)
    ensures
        r == hex(n as nat).len(),
        1 <= r <= 16,
{
    proof {
        lemma_hex_len_bound(n as nat);
    }
    digits_of(n, 16).len()
}

proof fn lemma_hex_len_bound(n: nat)
    requires
        n <= u64::MAX,
    ensures
        1 <= hex(n).len() <= 16,
{
    reveal_with_fuel(pow16, 17);
    assert(pow16(16) == 0x1_0000_0000_0000_0000);
    lemma_hex_len_pow(n, 16);
}

proof fn lemma_hex_len_pow(n: nat, k: nat)
    requires
        n < pow16(k),
        k >= 1,
    ensures
        1 <= hex(n).len() <= k,
    decreases k,
{
    if n >= 16 {
        assert(pow16(k) == 16 * pow16((k - 1) as nat));
        if k == 1 {
            assert(pow16(0) == 1);
        } else {
            lemma_hex_len_pow(n / 16, (k - 1) as nat);
        }
    }
}

spec fn pow16(k: nat) -> nat
    decreases k,
{
    if k == 0 {
        1
    } else {
        16 * pow16((k - 1) as nat)
    }
}

/// Relies on `String: FromIterator<&char>`: the string holds the characters
/// in order.
#[verifier::external_body]
pub fn string_of(v: &Vec<char>) -> (r: String)
    ensures
        r@ == v@,
{
    v.iter().collect()
}

} // verus!
