use vstd::prelude::*;
use vstd::std_specs::iter::IteratorSpec;

verus! {

/// The character of a decimal digit.
pub open spec fn digit_char(d: nat) -> char {
    if d == 0 { '0' }
    else if d == 1 { '1' }
    else if d == 2 { '2' }
    else if d == 3 { '3' }
    else if d == 4 { '4' }
    else if d == 5 { '5' }
    else if d == 6 { '6' }
    else if d == 7 { '7' }
    else if d == 8 { '8' }
    else { '9' }
}

/// The decimal representation of a natural number, without leading zeros.
pub open spec fn decimal(n: nat) -> Seq<char>
    decreases n,
{
    if n < 10 {
        seq![digit_char(n)]
    } else {
        decimal(n / 10).push(digit_char(n % 10))
    }
}

fn digit_str(d: u64) -> (r: &'static str)
    requires
        d < 10,
    ensures
        r@ == seq![digit_char(d as nat)],
{
    proof {
        reveal_strlit("0");
        reveal_strlit("1");
        reveal_strlit("2");
        reveal_strlit("3");
        reveal_strlit("4");
        reveal_strlit("5");
        reveal_strlit("6");
        reveal_strlit("7");
        reveal_strlit("8");
        reveal_strlit("9");
    }
    if d == 0 { "0" }
    else if d == 1 { "1" }
    else if d == 2 { "2" }
    else if d == 3 { "3" }
    else if d == 4 { "4" }
    else if d == 5 { "5" }
    else if d == 6 { "6" }
    else if d == 7 { "7" }
    else if d == 8 { "8" }
    else { "9" }
}

/// Appends the decimal representation of `n` to `out`.
pub fn push_decimal(out: &mut String, n: u64)
    ensures
        final(out)@ == old(out)@ + decimal(n as nat),
    decreases n,
{
    if n >= 10 {
        push_decimal(out, n / 10);
    }
    out.append(digit_str(n % 10));
    proof {
        if n >= 10 {
            assert(decimal(n as nat) == decimal((n / 10) as nat).push(digit_char((n % 10) as nat)));
        }
    }
}

/// The decimal representation of `n`, as `n.to_string()` gives it.
pub fn decimal_string(n: u64) -> (r: String)
    ensures
        r@ == decimal(n as nat),
{
    let mut s = String::new();
    push_decimal(&mut s, n);
    proof {
        assert(s@ =~= decimal(n as nat));
    }
    s
}

/// The line and the column (both from 1) where the text after `s` starts.
pub open spec fn row_col(s: Seq<char>) -> (nat, nat)
    decreases s.len(),
{
    if s.len() == 0 {
        (1, 1)
    } else {
        let (r, c) = row_col(s.drop_last());
        if s.last() == '\n' { (r + 1, 1) } else { (r, c + 1) }
    }
}

pub proof fn lemma_row_col_bounds(s: Seq<char>)
    ensures
        row_col(s).0 <= s.len() + 1,
        row_col(s).1 <= s.len() + 1,
        row_col(s).0 >= 1,
        row_col(s).1 >= 1,
    decreases s.len(),
{
    if s.len() > 0 {
        lemma_row_col_bounds(s.drop_last());
    }
}

/// The line and the column where the text of `source` after its first `count` characters starts.
pub fn position_of(source: &str, count: usize) -> (r: (usize, usize))
    requires
        source@.len() < usize::MAX,
    ensures
        r.0 as nat == row_col(source@.take(if count <= source@.len() { count as int } else { source@.len() as int })).0,
        r.1 as nat == row_col(source@.take(if count <= source@.len() { count as int } else { source@.len() as int })).1,
{
    broadcast use vstd::string::group_string_axioms;
    let mut chars = source.chars();
    let mut row: usize = 1;
    let mut col: usize = 1;
    let mut i: usize = 0;
    proof {
        assert(source@.take(0) =~= Seq::<char>::empty());
        assert(source@.skip(0) =~= source@);
    }
    while i < count
        invariant_except_break
            i <= source@.len(),
            i <= count,
            source@.len() < usize::MAX,
            chars.remaining() == source@.skip(i as int),
            row as nat == row_col(source@.take(i as int)).0,
            col as nat == row_col(source@.take(i as int)).1,
        ensures
            i == (if count <= source@.len() { count as int } else { source@.len() as int }),
            row as nat == row_col(source@.take(i as int)).0,
            col as nat == row_col(source@.take(i as int)).1,
        decreases count - i,
    {
        proof {
            lemma_row_col_bounds(source@.take(i as int));
        }
        match chars.next() {
            Some(c) => {
                proof {
                    assert(source@.take(i + 1).drop_last() =~= source@.take(i as int));
                    assert(source@.take(i + 1).last() == c);
                    assert(source@.skip(i as int).drop_first() =~= source@.skip(i + 1));
                }
                if c == '\n' {
                    row = row + 1;
                    col = 1;
                } else {
                    col = col + 1;
                }
                i = i + 1;
            },
            None => {
                break;
            },
        }
    }
    (row, col)
}

} // verus!
