//! Decimal rendering, padding and thousands separators.

use vstd::prelude::*;

verus! {

/// The ASCII digit for a value below ten.
pub open spec fn digit_char(d: nat) -> char {
    if d == 0 {
        '0'
    } else if d == 1 {
        '1'
    } else if d == 2 {
        '2'
    } else if d == 3 {
        '3'
    } else if d == 4 {
        '4'
    } else if d == 5 {
        '5'
    } else if d == 6 {
        '6'
    } else if d == 7 {
        '7'
    } else if d == 8 {
        '8'
    } else {
        '9'
    }
}

/// The decimal digits of `n`, most significant first, without leading zeros.
pub open spec fn decimal(n: nat) -> Seq<char>
    decreases n,
{
    if n < 10 {
        seq![digit_char(n)]
    } else {
        decimal(n / 10).push(digit_char(n % 10))
    }
}

/// A digit string with a period inserted every three digits from the right.
pub open spec fn group_thousands(digits: Seq<char>) -> Seq<char>
    decreases digits.len(),
{
    if digits.len() <= 3 {
        digits
    } else {
        group_thousands(digits.subrange(0, digits.len() - 3)) + seq!['.'] + digits.subrange(
            digits.len() - 3,
            digits.len() as int,
        )
    }
}

/// The decimal rendering of an integer with periods between groups of three digits,
/// e.g. `-1234567` gives `-1.234.567`.
pub open spec fn dotted(n: int) -> Seq<char> {
    if n < 0 {
        seq!['-'] + group_thousands(decimal((-n) as nat))
    } else {
        group_thousands(decimal(n as nat))
    }
}

/// Whether a character is an ASCII decimal digit.
pub open spec fn is_digit(c: char) -> bool {
    '0' <= c && c <= '9'
}

/// The value of an ASCII decimal digit.
pub open spec fn digit_value(c: char) -> int {
    c as int - '0' as int
}

/// Whether every character of `s` is a decimal digit.
pub open spec fn all_digits(s: Seq<char>) -> bool {
    forall|i: int| 0 <= i < s.len() ==> #[trigger] is_digit(s[i])
}

/// The number that a string of decimal digits denotes, most significant digit first.
pub open spec fn digits_value(s: Seq<char>) -> int
    decreases s.len(),
{
    if s.len() == 0 {
        0
    } else {
        digits_value(s.drop_last()) * 10 + digit_value(s.last())
    }
}

/// `s` without its periods.
pub open spec fn without_dots(s: Seq<char>) -> Seq<char>
    decreases s.len(),
{
    if s.len() == 0 {
        s
    } else if s.last() == '.' {
        without_dots(s.drop_last())
    } else {
        without_dots(s.drop_last()).push(s.last())
    }
}

/// A digit string split by periods into groups: a first group of one to three digits,
/// then groups of exactly three digits, each preceded by a period.
pub open spec fn well_grouped(s: Seq<char>) -> bool
    decreases s.len(),
{
    if s.len() <= 3 {
        1 <= s.len() && all_digits(s)
    } else {
        &&& s[s.len() - 4] == '.'
        &&& is_digit(s[s.len() - 3])
        &&& is_digit(s[s.len() - 2])
        &&& is_digit(s[s.len() - 1])
        &&& well_grouped(s.subrange(0, s.len() - 4))
    }
}

/// No character of `s` is a line feed.
pub open spec fn no_line_feed(s: Seq<char>) -> bool {
    forall|i: int| 0 <= i < s.len() ==> s[i] != '\n'
}

proof fn lemma_digit_char(d: nat)
    requires
        d < 10,
    ensures
        is_digit(digit_char(d)),
        digit_value(digit_char(d)) == d,
        digit_char(d) == '0' <==> d == 0,
{
}

/// The decimal rendering is a non-empty string of digits that denotes `n` and only starts
/// with `0` when it is `0` itself.
pub proof fn lemma_decimal_parses_back(n: nat)
    ensures
        decimal(n).len() >= 1,
        all_digits(decimal(n)),
        digits_value(decimal(n)) == n,
        decimal(n)[0] == '0' ==> n == 0 && decimal(n).len() == 1,
    decreases n,
{
    if n < 10 {
        lemma_digit_char(n);
        assert(decimal(n).drop_last() =~= Seq::<char>::empty());
        assert(digits_value(decimal(n)) == digits_value(Seq::<char>::empty()) * 10 + digit_value(
            digit_char(n),
        ));
    } else {
        lemma_decimal_parses_back(n / 10);
        lemma_digit_char(n % 10);
        let d = decimal(n);
        assert(d == decimal(n / 10).push(digit_char(n % 10)));
        assert(d.drop_last() =~= decimal(n / 10));
        assert(d[0] == decimal(n / 10)[0]);
        assert(d.last() == digit_char(n % 10));
        assert(digits_value(d) == digits_value(decimal(n / 10)) * 10 + digit_value(
            digit_char(n % 10),
        ));
        assert((n / 10) * 10 + n % 10 == n);
    }
}

proof fn lemma_without_dots_concat(a: Seq<char>, b: Seq<char>)
    ensures
        without_dots(a + b) == without_dots(a) + without_dots(b),
    decreases b.len(),
{
    if b.len() == 0 {
        assert(a + b =~= a);
        assert(without_dots(a) + without_dots(b) =~= without_dots(a));
    } else {
        lemma_without_dots_concat(a, b.drop_last());
        assert((a + b).drop_last() =~= a + b.drop_last());
        if b.last() == '.' {
        } else {
            assert(without_dots(a) + without_dots(b) =~= (without_dots(a) + without_dots(
                b.drop_last(),
            )).push(b.last()));
        }
    }
}

proof fn lemma_without_dots_of_digits(s: Seq<char>)
    requires
        all_digits(s),
    ensures
        without_dots(s) == s,
    decreases s.len(),
{
    if s.len() > 0 {
        assert(is_digit(s[s.len() - 1]));
        lemma_without_dots_of_digits(s.drop_last());
        assert(s.drop_last().push(s.last()) =~= s);
    }
}

/// Grouping by thousands only inserts periods: it keeps the digits, and it splits them into
/// a first group of one to three digits followed by groups of exactly three.
pub proof fn lemma_group_thousands(d: Seq<char>)
    requires
        d.len() >= 1,
        all_digits(d),
    ensures
        without_dots(group_thousands(d)) == d,
        well_grouped(group_thousands(d)),
    decreases d.len(),
{
    if d.len() <= 3 {
        lemma_without_dots_of_digits(d);
    } else {
        let head = d.subrange(0, d.len() - 3);
        let tail = d.subrange(d.len() - 3, d.len() as int);
        assert(all_digits(head));
        assert(all_digits(tail));
        lemma_group_thousands(head);
        let g = group_thousands(head);
        let s = group_thousands(d);
        assert(s == g + seq!['.'] + tail);
        lemma_without_dots_concat(g + seq!['.'], tail);
        lemma_without_dots_concat(g, seq!['.']);
        assert(seq!['.'].drop_last() =~= Seq::<char>::empty());
        assert(without_dots(seq!['.']) == without_dots(Seq::<char>::empty()));
        lemma_without_dots_of_digits(tail);
        assert(head + tail =~= d);
        assert(without_dots(g) + Seq::<char>::empty() =~= without_dots(g));
        assert(s.subrange(0, s.len() - 4) =~= g);
        assert(s[s.len() - 3] == tail[0]);
        assert(s[s.len() - 2] == tail[1]);
        assert(s[s.len() - 1] == tail[2]);
    }
}

/// The dotted rendering reads back as the number: for a number that is not negative it is
/// well grouped by thousands and, periods removed, denotes the number without a needless
/// leading zero; a negative number gets a `-` in front of the rendering of its magnitude.
pub proof fn lemma_dotted_parses_back(n: int)
    ensures
        n >= 0 ==> {
            &&& well_grouped(dotted(n))
            &&& without_dots(dotted(n)) == decimal(n as nat)
            &&& digits_value(without_dots(dotted(n))) == n
            &&& without_dots(dotted(n))[0] == '0' ==> n == 0
        },
        n < 0 ==> {
            &&& dotted(n)[0] == '-'
            &&& well_grouped(dotted(n).drop_first())
            &&& digits_value(without_dots(dotted(n).drop_first())) == -n
        },
        no_line_feed(dotted(n)),
{
    let m: nat = if n < 0 {
        (-n) as nat
    } else {
        n as nat
    };
    lemma_decimal_parses_back(m);
    lemma_group_thousands(decimal(m));
    lemma_dotted_characters(decimal(m));
    if n < 0 {
        assert(dotted(n).drop_first() =~= group_thousands(decimal(m)));
    }
}

proof fn lemma_dotted_characters(d: Seq<char>)
    requires
        all_digits(d),
    ensures
        forall|i: int|
            0 <= i < group_thousands(d).len() ==> #[trigger] group_thousands(d)[i] == '.'
                || is_digit(group_thousands(d)[i]),
    decreases d.len(),
{
    if d.len() > 3 {
        let head = d.subrange(0, d.len() - 3);
        let tail = d.subrange(d.len() - 3, d.len() as int);
        assert(all_digits(head));
        lemma_dotted_characters(head);
        let g = group_thousands(head);
        let s = group_thousands(d);
        assert(s == g + seq!['.'] + tail);
        assert forall|i: int| 0 <= i < s.len() implies #[trigger] s[i] == '.' || is_digit(
            s[i],
        ) by {
            if i < g.len() {
                assert(s[i] == g[i]);
            } else if i == g.len() {
            } else {
                assert(s[i] == tail[i - g.len() - 1]);
            }
        }
    }
}

/// `d` is how a natural number `n` is written in decimal: one or more digits denoting `n`,
/// with no leading zero unless `n` is zero itself.
pub open spec fn shows_number(d: Seq<char>, n: int) -> bool {
    &&& d.len() >= 1
    &&& all_digits(d)
    &&& digits_value(d) == n
    &&& d[0] == '0' ==> d.len() == 1
}

/// `d` is how an integer `n` is written in decimal, with a `-` in front when it is negative.
pub open spec fn shows_signed_number(d: Seq<char>, n: int) -> bool {
    if n < 0 {
        d.len() >= 1 && d[0] == '-' && shows_number(d.drop_first(), -n)
    } else {
        shows_number(d, n)
    }
}

/// `a` is how an integer `n` is written with thousands separators: its digits, grouped by
/// periods into a first group of one to three and then groups of exactly three, denote the
/// magnitude of `n` without a needless leading zero, with a `-` in front when `n` is
/// negative.
pub open spec fn shows_amount(a: Seq<char>, n: int) -> bool {
    let g = if n < 0 {
        a.drop_first()
    } else {
        a
    };
    let m = if n < 0 {
        -n
    } else {
        n
    };
    &&& n < 0 ==> a.len() >= 1 && a[0] == '-'
    &&& well_grouped(g)
    &&& digits_value(without_dots(g)) == m
    &&& without_dots(g)[0] == '0' ==> m == 0
}

/// `n` spaces.
pub open spec fn spaces(n: int) -> Seq<char> {
    Seq::new(if n > 0 { n as nat } else { 0 }, |i: int| ' ')
}

/// The decimal rendering writes the number: digits denoting it, without a needless leading
/// zero.
pub proof fn lemma_decimal_shows_number(n: nat)
    ensures
        shows_number(decimal(n), n as int),
        shows_signed_number(decimal(n), n as int),
{
    lemma_decimal_parses_back(n);
}

/// The signed decimal rendering writes the integer.
pub proof fn lemma_signed_decimal_shows_number(n: int)
    ensures
        shows_signed_number(signed_decimal(n), n),
{
    if n < 0 {
        lemma_decimal_parses_back((-n) as nat);
        assert(signed_decimal(n).drop_first() =~= decimal((-n) as nat));
    } else {
        lemma_decimal_parses_back(n as nat);
    }
}

/// The dotted rendering writes the integer with thousands separators.
pub proof fn lemma_dotted_shows_amount(n: int)
    ensures
        shows_amount(dotted(n), n),
{
    lemma_dotted_parses_back(n);
    if n >= 0 {
        lemma_decimal_parses_back(n as nat);
    } else {
        let m = (-n) as nat;
        lemma_decimal_parses_back(m);
        lemma_group_thousands(decimal(m));
        assert(dotted(n).drop_first() =~= group_thousands(decimal(m)));
    }
}

/// Right-aligning puts spaces in front of the text, as many as it is shorter than the field.
pub proof fn lemma_pad_left(s: Seq<char>, width: nat)
    ensures
        pad_left(s, width) == spaces(width - s.len()) + s,
{
    if s.len() < width {
        assert(pad_left(s, width) =~= spaces(width - s.len()) + s);
    } else {
        assert(spaces(width - s.len()) =~= Seq::<char>::empty());
        assert(pad_left(s, width) =~= spaces(width - s.len()) + s);
    }
}

/// The decimal rendering of a signed integer, with a leading `-` when it is negative.
pub open spec fn signed_decimal(n: int) -> Seq<char> {
    if n < 0 {
        seq!['-'] + decimal((-n) as nat)
    } else {
        decimal(n as nat)
    }
}

/// `s` right-aligned in a field of `width` characters, as `{:>width}` does.
pub open spec fn pad_left(s: Seq<char>, width: nat) -> Seq<char> {
    if s.len() < width {
        Seq::new((width - s.len()) as nat, |i: int| ' ') + s
    } else {
        s
    }
}

/// Appends a character to a string (`String::push`).
#[verifier::external_body]
pub(crate) fn push_char(s: &mut String, c: char)
    ensures
        final(s)@ == old(s)@.push(c),
{
    s.push(c)
}

/// The ASCII digit for a value below ten.
pub fn digit(d: u64) -> (c: char)
    requires
        d < 10,
    ensures
        c == digit_char(d as nat),
{
    match d {
        0 => '0',
        1 => '1',
        2 => '2',
        3 => '3',
        4 => '4',
        5 => '5',
        6 => '6',
        7 => '7',
        8 => '8',
        _ => '9',
    }
}

/// Appends the decimal digits of `n`.
pub fn push_decimal(s: &mut String, n: u64)
    ensures
        final(s)@ == old(s)@ + decimal(n as nat),
    decreases n,
{
    let ghost start = s@;
    if n >= 10 {
        push_decimal(s, n / 10);
    }
    push_char(s, digit(n % 10));
    proof {
        if n >= 10 {
            assert(decimal(n as nat) == decimal((n / 10) as nat).push(digit_char((n % 10) as nat)));
            assert(s@ =~= start + decimal(n as nat));
        } else {
            assert(s@ =~= start + decimal(n as nat));
        }
    }
}

/// Appends the decimal rendering of a signed integer.
pub fn push_signed_decimal(s: &mut String, n: i64)
    ensures
        final(s)@ == old(s)@ + signed_decimal(n as int),
{
    let ghost start = s@;
    if n < 0 {
        push_char(s, '-');
        let magnitude: u64 = if n == i64::MIN {
            9223372036854775808u64
        } else {
            (-n) as u64
        };
        push_decimal(s, magnitude);
        assert(s@ =~= start + signed_decimal(n as int));
    } else {
        push_decimal(s, n as u64);
    }
}

/// The decimal rendering of `n` (`n.to_string()`).
pub fn decimal_string(n: u64) -> (s: String)
    ensures
        s@ == decimal(n as nat),
{
    let mut s = String::new();
    push_decimal(&mut s, n);
    assert(s@ =~= decimal(n as nat));
    s
}

/// Appends `t` right-aligned in a field of `width` characters.
pub fn push_padded(s: &mut String, t: &str, width: usize)
    ensures
        final(s)@ == old(s)@ + pad_left(t@, width as nat),
{
    let len = t.unicode_len();
    let ghost start = s@;
    if len < width {
        let mut i: usize = 0;
        while i < width - len
            invariant
                len == t@.len(),
                len < width,
                i <= width - len,
                s@ == start + Seq::new(i as nat, |k: int| ' '),
            decreases width - len - i,
        {
            push_char(s, ' ');
            i = i + 1;
            assert(s@ =~= start + Seq::new(i as nat, |k: int| ' '));
        }
    }
    s.append(t);
    assert(s@ =~= start + pad_left(t@, width as nat));
}

/// Inserts a period every three digits from the right of the decimal rendering of `n`
/// (`thousands::Separable::separate_with_dots`).
#[verifier::external_body]
pub(crate) fn separate_with_dots(n: i64) -> (s: String)
    ensures
        s@ == dotted(n as int),
{
    thousands::Separable::separate_with_dots(&n)
}

} // verus!
