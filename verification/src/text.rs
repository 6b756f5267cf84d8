//! Text primitives: lines, indentation, decimal numerals and padding.
//!
//! Rendered code is a sequence of lines, each a sequence of characters.
//! The executable side holds it as `Vec<String>`; [`lines`] is its model,
//! and every function here states its result over that model.
use vstd::prelude::*;

verus! {

/// The characters of each line of `v`, in order.
pub open spec fn lines(v: Seq<String>) -> Seq<Seq<char>> {
    Seq::new(v.len(), |i: int| v[i]@)
}

/// Each line of `ls` moved two columns to the right.
pub open spec fn indent(ls: Seq<Seq<char>>) -> Seq<Seq<char>> {
    Seq::new(ls.len(), |i: int| "  "@ + ls[i])
}

/// The lines of `ls`, with `sep` between each two neighbours.
pub open spec fn join(ls: Seq<Seq<char>>, sep: Seq<char>) -> Seq<char>
    decreases ls.len(),
{
    if ls.len() == 0 {
        Seq::empty()
    } else if ls.len() == 1 {
        ls[0]
    } else {
        join(ls.drop_last(), sep) + sep + ls.last()
    }
}

/// The entries of a parenthesised list, one per line: each indented, and
/// each but the last followed by a comma.
pub open spec fn listed(items: Seq<Seq<char>>) -> Seq<Seq<char>> {
    Seq::new(
        items.len(),
        |i: int|
            if i < items.len() - 1 {
                "  "@ + items[i] + ","@
            } else {
                "  "@ + items[i]
            },
    )
}

/// The numeral for a value below ten.
pub open spec fn digit(d: nat) -> char {
    if d == 0 {
        '0'
    } else if d == 1 {
        '1'
    } else if d == 2 {
        '2'
    } else if d == 3 {
        '3'
    } else if d == 4 {
        '4'
    } else if d == 5 {
        '5'
    } else if d == 6 {
        '6'
    } else if d == 7 {
        '7'
    } else if d == 8 {
        '8'
    } else {
        '9'
    }
}

/// The decimal numeral of `n`, most significant digit first, without
/// leading zeros.
pub open spec fn decimal(n: nat) -> Seq<char>
    decreases n,
{
    if n < 10 {
        seq![digit(n)]
    } else {
        decimal(n / 10).push(digit(n % 10))
    }
}

/// `s` with blanks in front until it is `width` characters long.
pub open spec fn pad_left(s: Seq<char>, width: nat) -> Seq<char>
    decreases width - s.len(),
{
    if s.len() >= width {
        s
    } else {
        pad_left(seq![' '] + s, width)
    }
}

/// `s` with blanks behind until it is `width` characters long.
pub open spec fn pad_right(s: Seq<char>, width: nat) -> Seq<char>
    decreases width - s.len(),
{
    if s.len() >= width {
        s
    } else {
        pad_right(s.push(' '), width)
    }
}

/// A numeral is never empty and holds only the ten digit characters.
pub proof fn lemma_decimal_digits(n: nat)
    ensures
        decimal(n).len() >= 1,
        forall|i: int| 0 <= i < decimal(n).len() ==> '0' <= #[trigger] decimal(n)[i] <= '9',
    decreases n,
{
    if n >= 10 {
        lemma_decimal_digits(n / 10);
    }
}

/// The value that the digit character `c` stands for.
pub open spec fn digit_value(c: char) -> nat {
    if c == '1' {
        1
    } else if c == '2' {
        2
    } else if c == '3' {
        3
    } else if c == '4' {
        4
    } else if c == '5' {
        5
    } else if c == '6' {
        6
    } else if c == '7' {
        7
    } else if c == '8' {
        8
    } else if c == '9' {
        9
    } else {
        0
    }
}

/// The number that a sequence of digit characters denotes.
pub open spec fn decimal_value(s: Seq<char>) -> nat
    decreases s.len(),
{
    if s.len() == 0 {
        0
    } else {
        decimal_value(s.drop_last()) * 10 + digit_value(s.last())
    }
}

/// Reading a numeral gives back the number it was written from.
pub proof fn lemma_decimal_value(n: nat)
    ensures
        decimal_value(decimal(n)) == n,
    decreases n,
{
    if n < 10 {
        let s = decimal(n);
        assert(s.drop_last() =~= Seq::<char>::empty());
        assert(decimal_value(s.drop_last()) == 0);
    } else {
        lemma_decimal_value(n / 10);
        let s = decimal(n);
        assert(s.drop_last() =~= decimal(n / 10));
        assert(s.last() == digit(n % 10));
    }
}

/// Different numbers have different numerals.
pub proof fn lemma_decimal_injective(a: nat, b: nat)
    requires
        decimal(a) == decimal(b),
    ensures
        a == b,
{
    lemma_decimal_value(a);
    lemma_decimal_value(b);
}

/// The one-character text of a digit.
fn digit_str(d: usize) -> (r: &'static str)
    requires
        d < 10,
    ensures
        r@ == seq![digit(d as nat)],
{
    proof {
        reveal_strlit("0");
        reveal_strlit("1");
        reveal_strlit("2");
        reveal_strlit("3");
        reveal_strlit("4");
        reveal_strlit("5");
        reveal_strlit("6");
        reveal_strlit("7");
        reveal_strlit("8");
        reveal_strlit("9");
    }
    let r = if d == 0 {
        "0"
    } else if d == 1 {
        "1"
    } else if d == 2 {
        "2"
    } else if d == 3 {
        "3"
    } else if d == 4 {
        "4"
    } else if d == 5 {
        "5"
    } else if d == 6 {
        "6"
    } else if d == 7 {
        "7"
    } else if d == 8 {
        "8"
    } else {
        "9"
    };
    assert(r@ =~= seq![digit(d as nat)]);
    r
}

/// Writes `n` as a decimal numeral.
pub fn decimal_string(n: usize) -> (r: String)
    ensures
        r@ == decimal(n as nat),
    decreases n,
{
    if n < 10 {
        String::from_str(digit_str(n))
    } else {
        let mut s = decimal_string(n / 10);
        s.append(digit_str(n % 10));
        assert(s@ =~= decimal((n / 10) as nat).push(digit((n % 10) as nat)));
        s
    }
}

/// `a` followed by `b`.
pub fn concat(a: &str, b: &str) -> (r: String)
    ensures
        r@ == a@ + b@,
{
    let mut s = String::from_str(a);
    s.append(b);
    s
}

/// Right-aligns `s` in a field of `width` characters.
pub fn pad_left_string(s: &str, width: usize) -> (r: String)
    ensures
        r@ == pad_left(s@, width as nat),
{
    let mut out = String::from_str(s);
    let mut n: usize = s.unicode_len();
    while n < width
        invariant
            n == out@.len(),
            pad_left(out@, width as nat) == pad_left(s@, width as nat),
        decreases width - n,
    {
        proof {
            reveal_strlit(" ");
            assert(" "@ =~= seq![' ']);
        }
        out = concat(" ", out.as_str());
        n = n + 1;
    }
    out
}

/// Left-aligns `s` in a field of `width` characters.
pub fn pad_right_string(s: &str, width: usize) -> (r: String)
    ensures
        r@ == pad_right(s@, width as nat),
{
    let mut out = String::from_str(s);
    let mut n: usize = s.unicode_len();
    while n < width
        invariant
            n == out@.len(),
            pad_right(out@, width as nat) == pad_right(s@, width as nat),
        decreases width - n,
    {
        proof {
            reveal_strlit(" ");
            assert(out@ + " "@ =~= out@.push(' '));
        }
        out.append(" ");
        n = n + 1;
    }
    out
}

/// Appends the lines of `ls` to `out`.
pub fn push_lines(out: &mut Vec<String>, ls: Vec<String>)
    ensures
        lines(final(out)@) == lines(old(out)@) + lines(ls@),
{
    let mut ls = ls;
    let ghost before = ls@;
    out.append(&mut ls);
    assert(lines(out@) =~= lines(old(out)@) + lines(before));
}

/// Appends the lines of `ls` to `out`, each indented by one level.
pub fn push_indented(out: &mut Vec<String>, ls: &Vec<String>)
    ensures
        lines(final(out)@) == lines(old(out)@) + indent(lines(ls@)),
{
    let mut i: usize = 0;
    while i < ls.len()
        invariant
            i <= ls.len(),
            lines(out@) == lines(old(out)@) + indent(lines(ls@)).subrange(0, i as int),
        decreases ls.len() - i,
    {
        let line = concat("  ", ls[i].as_str());
        let ghost prev = out@;
        out.push(line);
        assert(lines(out@) =~= lines(prev).push(line@));
        assert(indent(lines(ls@)).subrange(0, i + 1) =~= indent(lines(ls@)).subrange(
            0,
            i as int,
        ).push(line@));
        i = i + 1;
    }
    assert(indent(lines(ls@)).subrange(0, i as int) =~= indent(lines(ls@)));
}

/// Appends one line to `out`.
pub fn push_line(out: &mut Vec<String>, line: String)
    ensures
        lines(final(out)@) == lines(old(out)@).push(line@),
{
    out.push(line);
    assert(lines(out@) =~= lines(old(out)@).push(line@));
}

/// Appends the entries `items` of a parenthesised list to `out`.
pub fn push_listed(out: &mut Vec<String>, items: &Vec<String>)
    ensures
        lines(final(out)@) == lines(old(out)@) + listed(lines(items@)),
{
    let mut i: usize = 0;
    while i < items.len()
        invariant
            i <= items.len(),
            lines(out@) == lines(old(out)@) + listed(lines(items@)).subrange(0, i as int),
        decreases items.len() - i,
    {
        let mut line = concat("  ", items[i].as_str());
        if i < items.len() - 1 {
            line.append(",");
        }
        let ghost prev = out@;
        out.push(line);
        assert(lines(out@) =~= lines(prev).push(line@));
        assert(listed(lines(items@)).subrange(0, i + 1) =~= listed(lines(items@)).subrange(
            0,
            i as int,
        ).push(line@));
        i = i + 1;
    }
    assert(listed(lines(items@)).subrange(0, i as int) =~= listed(lines(items@)));
}

/// The lines of `ls` as one text, with `sep` between each two neighbours.
pub fn join_lines(ls: &Vec<String>, sep: &str) -> (r: String)
    ensures
        r@ == join(lines(ls@), sep@),
{
    let mut out = String::new();
    let mut i: usize = 0;
    while i < ls.len()
        invariant
            i <= ls.len(),
            out@ == join(lines(ls@).subrange(0, i as int), sep@),
        decreases ls.len() - i,
    {
        let ghost head = lines(ls@).subrange(0, i as int);
        let ghost next = lines(ls@).subrange(0, i + 1);
        proof {
            assert(next.drop_last() =~= head);
            assert(next.last() == ls@[i as int]@);
        }
        if i > 0 {
            out.append(sep);
        } else {
            assert(out@ + ls@[i as int]@ =~= ls@[i as int]@);
        }
        out.append(ls[i].as_str());
        i = i + 1;
    }
    assert(lines(ls@).subrange(0, i as int) =~= lines(ls@));
    out
}

} // verus!
