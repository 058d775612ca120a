use vstd::prelude::*;

verus! {

/// The character of a decimal digit `d` (`0 <= d < 10`).
pub open spec fn digit_char(d: nat) -> char {
    (48 + d) as char
}

/// The decimal digits of a natural number, most significant first, without
/// leading zeros (zero itself is written `0`).
pub open spec fn decimal_digits(n: nat) -> Seq<char>
    decreases n,
{
    if n < 10 {
        seq![digit_char(n)]
    } else {
        decimal_digits(n / 10) + seq![digit_char(n % 10)]
    }
}

/// The decimal digits of a number are never empty.
pub proof fn lemma_decimal_digits_len(n: nat)
    ensures
        decimal_digits(n).len() >= 1,
        n >= 10 ==> decimal_digits(n).len() >= 2,
    decreases n,
{
    if n >= 10 {
        lemma_decimal_digits_len(n / 10);
    }
}

/// Different numbers have different decimal digits.
pub proof fn lemma_decimal_digits_injective(n: nat, m: nat)
    requires
        decimal_digits(n) == decimal_digits(m),
    ensures
        n == m,
    decreases n,
{
    lemma_decimal_digits_len(n);
    lemma_decimal_digits_len(m);
    if n < 10 && m < 10 {
        assert(decimal_digits(n)[0] == digit_char(n));
        assert(decimal_digits(m)[0] == digit_char(m));
        assert((48 + n) as char as int == 48 + n);
        assert((48 + m) as char as int == 48 + m);
    } else if n >= 10 && m >= 10 {
        let a = decimal_digits(n);
        let b = decimal_digits(m);
        lemma_decimal_digits_len(n / 10);
        lemma_decimal_digits_len(m / 10);
        assert(a.last() == digit_char(n % 10));
        assert(b.last() == digit_char(m % 10));
        assert((48 + n % 10) as char as int == 48 + n % 10);
        assert((48 + m % 10) as char as int == 48 + m % 10);
        assert(a.drop_last() =~= decimal_digits(n / 10));
        assert(b.drop_last() =~= decimal_digits(m / 10));
        lemma_decimal_digits_injective(n / 10, m / 10);
    } else {
        assert(decimal_digits(n).len() != decimal_digits(m).len());
    }
}

/// The number that a text of decimal digits stands for, most significant digit first.
pub open spec fn digits_value(s: Seq<char>) -> int
    decreases s.len(),
{
    if s.len() == 0 {
        0
    } else {
        digits_value(s.drop_last()) * 10 + (s.last() as int - 48)
    }
}

/// The decimal digits of a number are digits `0` to `9` and read back as the number.
pub proof fn lemma_decimal_digits_value(n: nat)
    ensures
        digits_value(decimal_digits(n)) == n,
        forall|i: int| 0 <= i < decimal_digits(n).len() ==> '0' <= #[trigger] decimal_digits(n)[i] <= '9',
    decreases n,
{
    if n < 10 {
        assert((48 + n) as char as int == 48 + n);
        assert(decimal_digits(n).drop_last() =~= Seq::<char>::empty());
        assert(decimal_digits(n).last() == digit_char(n));
        assert(digits_value(Seq::<char>::empty()) == 0);
        assert(digits_value(decimal_digits(n)) == digits_value(Seq::<char>::empty()) * 10 + (digit_char(n) as int - 48));
    } else {
        lemma_decimal_digits_value(n / 10);
        let a = decimal_digits(n / 10);
        let d = digit_char(n % 10);
        assert((48 + n % 10) as char as int == 48 + n % 10);
        assert(decimal_digits(n).drop_last() =~= a);
        assert(decimal_digits(n).last() == d);
        assert(digits_value(decimal_digits(n)) == digits_value(a) * 10 + (d as int - 48));
        assert((n / 10) * 10 + n % 10 == n) by (nonlinear_arith);
        assert forall|i: int| 0 <= i < decimal_digits(n).len() implies '0' <= #[trigger] decimal_digits(
            n,
        )[i] <= '9' by {
            if i < a.len() {
                assert(decimal_digits(n)[i] == a[i]);
            } else {
                assert(decimal_digits(n)[i] == d);
            }
        }
    }
}

/// The decimal text of an integer is its digits, after a `-` for a negative one: the
/// digits read back as its magnitude.
pub proof fn lemma_decimal_text_value(x: int)
    ensures
        x >= 0 ==> digits_value(decimal_text(x)) == x,
        x < 0 ==> decimal_text(x).len() >= 2 && decimal_text(x)[0] == '-' && digits_value(
            decimal_text(x).skip(1),
        ) == -x,
        x >= 0 ==> decimal_text(x).len() >= 1 && decimal_text(x)[0] != '-',
{
    if x >= 0 {
        lemma_decimal_digits_value(x as nat);
        lemma_decimal_digits_len(x as nat);
        assert('0' <= decimal_text(x)[0] <= '9');
    } else {
        lemma_decimal_digits_value((-x) as nat);
        lemma_decimal_digits_len((-x) as nat);
        assert(decimal_text(x).skip(1) =~= decimal_digits((-x) as nat));
    }
}

/// The decimal text of an integer, with a leading `-` for negative numbers,
/// as Rust's `Display` writes it.
pub open spec fn decimal_text(x: int) -> Seq<char> {
    if x < 0 {
        seq!['-'] + decimal_digits((-x) as nat)
    } else {
        decimal_digits(x as nat)
    }
}

/// The text of a decimal digit.
fn digit_str(d: u128) -> (r: &'static str)
    requires
        d < 10,
    ensures
        r@ == seq![digit_char(d as nat)],
{
    proof {
        reveal_strlit("0");
        reveal_strlit("1");
        reveal_strlit("2");
        reveal_strlit("3");
        reveal_strlit("4");
        reveal_strlit("5");
        reveal_strlit("6");
        reveal_strlit("7");
        reveal_strlit("8");
        reveal_strlit("9");
    }
    match d {
        0 => "0",
        1 => "1",
        2 => "2",
        3 => "3",
        4 => "4",
        5 => "5",
        6 => "6",
        7 => "7",
        8 => "8",
        _ => "9",
    }
}

/// Appends the decimal digits of `n`.
fn append_digits(s: &mut String, n: u128)
    ensures
        final(s)@ == old(s)@ + decimal_digits(n as nat),
    decreases n,
{
    if n >= 10 {
        append_digits(s, n / 10);
    }
    let d = digit_str(n % 10);
    s.append(d);
    proof {
        if n >= 10 {
            assert(final(s)@ =~= old(s)@ + (decimal_digits((n / 10) as nat) + seq![digit_char((n % 10) as nat)]));
        }
    }
}

/// The decimal text of a number, as Rust's `Display` writes it.
pub(crate) fn decimal_string(x: i128) -> (r: String)
    ensures
        r@ == decimal_text(x as int),
{
    let mut s = owned("");
    proof {
        reveal_strlit("");
        reveal_strlit("-");
    }
    if x < 0 {
        s.append("-");
        let magnitude: u128 = (-(x + 1)) as u128 + 1;
        append_digits(&mut s, magnitude);
        assert(s@ =~= decimal_text(x as int));
    } else {
        append_digits(&mut s, x as u128);
        assert(s@ =~= decimal_text(x as int));
    }
    s
}

/// Builds an owned string from a string slice.
pub fn owned(s: &str) -> (r: String)
    ensures
        r@ == s@,
{
    <String as vstd::string::StringExecFns>::from_str(s)
}


/// The text holds no carriage return.
pub open spec fn no_cr(x: Seq<char>) -> bool {
    forall|i: int| 0 <= i < x.len() ==> x[i] != '\r'
}

/// A line break `\r\n` starts at position `i` of the text.
pub open spec fn line_break_at(x: Seq<char>, i: int) -> bool {
    0 <= i && i + 1 < x.len() && x[i] == '\r' && x[i + 1] == '\n'
}

/// The text holds no line break `\r\n` (a carriage return or a line feed may still
/// stand in it alone).
pub open spec fn no_line_break(x: Seq<char>) -> bool {
    forall|i: int| !#[trigger] line_break_at(x, i)
}

/// The text ends with a carriage return.
pub open spec fn ends_cr(x: Seq<char>) -> bool {
    x.len() > 0 && x.last() == '\r'
}

/// The text starts with a line feed.
pub open spec fn starts_lf(x: Seq<char>) -> bool {
    x.len() > 0 && x[0] == '\n'
}

/// The text with four spaces inserted after every line break `\r\n`.
pub open spec fn indent_lines(x: Seq<char>) -> Seq<char>
    decreases x.len(),
{
    if x.len() == 0 {
        Seq::empty()
    } else if x.len() >= 2 && x[0] == '\r' && x[1] == '\n' {
        "\r\n    "@ + indent_lines(x.skip(2))
    } else {
        seq![x[0]] + indent_lines(x.skip(1))
    }
}

pub proof fn lemma_no_cr_concat(a: Seq<char>, b: Seq<char>)
    requires
        no_cr(a),
        no_cr(b),
    ensures
        no_cr(a + b),
{
    assert forall|i: int| 0 <= i < (a + b).len() implies (a + b)[i] != '\r' by {
        if i < a.len() {
            assert((a + b)[i] == a[i]);
        } else {
            assert((a + b)[i] == b[i - a.len()]);
        }
    }
}

/// A text without carriage returns holds no line break and does not end with a
/// carriage return.
pub proof fn lemma_no_cr_no_line_break(x: Seq<char>)
    requires
        no_cr(x),
    ensures
        no_line_break(x),
        !ends_cr(x),
{
    assert forall|i: int| !#[trigger] line_break_at(x, i) by {
        if 0 <= i < x.len() {
            assert(x[i] != '\r');
        }
    }
    if x.len() > 0 {
        assert(x[x.len() - 1] != '\r');
    }
}

/// Two texts without line breaks join into one without line breaks, unless the first
/// ends with a carriage return and the second starts with a line feed. The joined text
/// ends as the second does, or as the first where the second is empty.
pub proof fn lemma_no_line_break_concat(a: Seq<char>, b: Seq<char>)
    requires
        no_line_break(a),
        no_line_break(b),
        !(ends_cr(a) && starts_lf(b)),
    ensures
        no_line_break(a + b),
        ends_cr(a + b) == if b.len() > 0 {
            ends_cr(b)
        } else {
            ends_cr(a)
        },
{
    let ab = a + b;
    assert forall|i: int| !#[trigger] line_break_at(ab, i) by {
        if line_break_at(ab, i) {
            if i + 1 < a.len() {
                assert(ab[i] == a[i] && ab[i + 1] == a[i + 1]);
                assert(line_break_at(a, i));
            } else if i >= a.len() {
                assert(ab[i] == b[i - a.len()] && ab[i + 1] == b[i + 1 - a.len()]);
                assert(line_break_at(b, i - a.len()));
            } else {
                assert(ab[i] == a[i] && ab[i + 1] == b[0]);
                assert(ends_cr(a) && starts_lf(b));
            }
        }
    }
    if b.len() > 0 {
        assert(ab.last() == b.last());
    } else {
        assert(ab =~= a);
    }
}

/// Indenting a text without line breaks leaves it as it is.
pub proof fn lemma_indent_no_line_break(a: Seq<char>)
    requires
        no_line_break(a),
    ensures
        indent_lines(a) == a,
    decreases a.len(),
{
    if a.len() > 0 {
        assert(!line_break_at(a, 0));
        let t = a.skip(1);
        assert forall|i: int| !#[trigger] line_break_at(t, i) by {
            if line_break_at(t, i) {
                assert(t[i] == a[i + 1] && t[i + 1] == a[i + 2]);
                assert(line_break_at(a, i + 1));
            }
        }
        lemma_indent_no_line_break(t);
        assert(a =~= seq![a[0]] + t);
    }
}

/// Indenting two joined texts indents each of them, unless a line break is split
/// between them (the first ends with its carriage return, the second starts with its
/// line feed).
pub proof fn lemma_indent_concat(a: Seq<char>, b: Seq<char>)
    requires
        !(ends_cr(a) && starts_lf(b)),
    ensures
        indent_lines(a + b) == indent_lines(a) + indent_lines(b),
    decreases a.len(),
{
    let ab = a + b;
    if a.len() == 0 {
        assert(ab =~= b);
        assert(indent_lines(a) + indent_lines(b) =~= indent_lines(b));
    } else if a.len() >= 2 && a[0] == '\r' && a[1] == '\n' {
        assert(ab[0] == a[0] && ab[1] == a[1]);
        let t = a.skip(2);
        assert(ab.skip(2) =~= t + b);
        if t.len() > 0 {
            assert(t.last() == a.last());
        }
        lemma_indent_concat(t, b);
        assert("\r\n    "@ + indent_lines(t) + indent_lines(b) =~= "\r\n    "@ + (indent_lines(t)
            + indent_lines(b)));
    } else {
        assert(ab[0] == a[0]);
        if a.len() >= 2 {
            assert(ab[1] == a[1]);
        } else if b.len() > 0 {
            assert(ab[1] == b[0]);
            assert(a.last() == a[0]);
        }
        let t = a.skip(1);
        assert(ab.skip(1) =~= t + b);
        if t.len() > 0 {
            assert(t.last() == a.last());
        }
        lemma_indent_concat(t, b);
        assert(seq![a[0]] + indent_lines(t) + indent_lines(b) =~= seq![a[0]] + (indent_lines(t)
            + indent_lines(b)));
    }
}

/// Indenting a text that starts with a line break indents the line break and the rest.
pub proof fn lemma_indent_line_break(b: Seq<char>)
    ensures
        indent_lines("\r\n"@ + b) == "\r\n    "@ + indent_lines(b),
{
    reveal_strlit("\r\n");
    let x = "\r\n"@ + b;
    assert(x[0] == '\r' && x[1] == '\n');
    assert(x.skip(2) =~= b);
}

proof fn lemma_decimal_digits_no_cr(n: nat)
    ensures
        no_cr(decimal_digits(n)),
    decreases n,
{
    if n >= 10 {
        lemma_decimal_digits_no_cr(n / 10);
        assert(digit_char(n % 10) != '\r') by {
            assert((48 + n % 10) as char as int == 48 + n % 10);
        }
        lemma_no_cr_concat(decimal_digits(n / 10), seq![digit_char(n % 10)]);
    } else {
        assert((48 + n) as char as int == 48 + n);
    }
}

/// The decimal text of a number holds no carriage return.
pub proof fn lemma_decimal_no_cr(x: int)
    ensures
        no_cr(decimal_text(x)),
{
    if x < 0 {
        lemma_decimal_digits_no_cr((-x) as nat);
        lemma_no_cr_concat(seq!['-'], decimal_digits((-x) as nat));
    } else {
        lemma_decimal_digits_no_cr(x as nat);
    }
}

} // verus!
