//! Decimal numbers and joined lists as text.

use vstd::prelude::*;

verus! {

/// The decimal digit for `d`, where `d` is below ten.
pub open spec fn digit(d: nat) -> char {
    if d == 0 {
        '0'
    } else if d == 1 {
        '1'
    } else if d == 2 {
        '2'
    } else if d == 3 {
        '3'
    } else if d == 4 {
        '4'
    } else if d == 5 {
        '5'
    } else if d == 6 {
        '6'
    } else if d == 7 {
        '7'
    } else if d == 8 {
        '8'
    } else {
        '9'
    }
}

/// `n` in decimal notation, without leading zeros.
pub open spec fn decimal(n: nat) -> Seq<char>
    decreases n,
{
    if n < 10 {
        seq![digit(n)]
    } else {
        decimal(n / 10).push(digit(n % 10))
    }
}

/// `parts` one after the other, with `separator` between neighbours.
pub open spec fn joined(parts: Seq<Seq<char>>, separator: Seq<char>) -> Seq<char>
    decreases parts.len(),
{
    if parts.len() == 0 {
        Seq::empty()
    } else {
        let before = joined(parts.drop_last(), separator);
        if parts.len() == 1 {
            parts.last()
        } else {
            before + separator + parts.last()
        }
    }
}

/// The texts that `strings` hold.
pub open spec fn texts(strings: Seq<String>) -> Seq<Seq<char>> {
    strings.map_values(|s: String| s@)
}

fn digit_text(d: u64) -> (r: &'static str)
    requires
        d < 10,
    ensures
        r@ == seq![digit(d as nat)],
{
    proof {
        reveal_strlit("0");
        reveal_strlit("1");
        reveal_strlit("2");
        reveal_strlit("3");
        reveal_strlit("4");
        reveal_strlit("5");
        reveal_strlit("6");
        reveal_strlit("7");
        reveal_strlit("8");
        reveal_strlit("9");
    }
    match d {
        0 => "0",
        1 => "1",
        2 => "2",
        3 => "3",
        4 => "4",
        5 => "5",
        6 => "6",
        7 => "7",
        8 => "8",
        _ => "9",
    }
}

/// Writes `n` in decimal notation.
pub fn decimal_text(n: u64) -> (r: String)
    ensures
        r@ == decimal(n as nat),
    decreases n,
{
    if n < 10 {
        digit_text(n).to_owned()
    } else {
        let mut r: String = decimal_text(n / 10);
        r.append(digit_text(n % 10));
        assert(r@ =~= decimal(n as nat));
        r
    }
}

/// Joins `parts` with `separator` between neighbours.
pub fn join(parts: &[String], separator: &str) -> (r: String)
    ensures
        r@ == joined(texts(parts@), separator@),
{
    let mut r: String = String::new();
    let mut i: usize = 0;
    let ghost all = texts(parts@);
    while i < parts.len()
        invariant
            i <= parts@.len(),
            all == texts(parts@),
            r@ == joined(all.take(i as int), separator@),
        decreases parts.len() - i,
    {
        proof {
            assert(all.take(i + 1).drop_last() =~= all.take(i as int));
            assert(all.take(i + 1).last() == parts@[i as int]@);
        }
        if i > 0 {
            r.append(separator);
        }
        r.append(parts[i].as_str());
        proof {
            if i == 0 {
                assert(r@ =~= parts@[0]@);
            }
        }
        i += 1;
    }
    assert(all.take(all.len() as int) =~= all);
    r
}

proof fn lemma_decimal_not_empty(n: nat)
    ensures
        decimal(n).len() >= 1,
        n >= 10 ==> decimal(n).len() >= 2,
    decreases n,
{
    if n >= 10 {
        lemma_decimal_not_empty(n / 10);
    }
}

proof fn lemma_digit_injective(a: nat, b: nat)
    requires
        a < 10,
        b < 10,
        digit(a) == digit(b),
    ensures
        a == b,
{
}

/// Different numbers have different decimal notations.
pub proof fn law_decimal_injective(a: nat, b: nat)
    requires
        decimal(a) == decimal(b),
    ensures
        a == b,
    decreases a,
{
    lemma_decimal_not_empty(a);
    lemma_decimal_not_empty(b);
    if a < 10 {
        assert(b < 10);
        assert(decimal(a)[0] == digit(a));
        assert(decimal(b)[0] == digit(b));
        lemma_digit_injective(a, b);
    } else {
        assert(b >= 10);
        assert(decimal(a).last() == digit(a % 10));
        assert(decimal(b).last() == digit(b % 10));
        lemma_digit_injective(a % 10, b % 10);
        assert(decimal(a).drop_last() =~= decimal(a / 10));
        assert(decimal(b).drop_last() =~= decimal(b / 10));
        law_decimal_injective(a / 10, b / 10);
    }
}

/// The number that `digits` are the decimal notation of.
pub open spec fn number(digits: Seq<char>) -> int
    decreases digits.len(),
{
    if digits.len() == 0 {
        0
    } else {
        10 * number(digits.drop_last()) + (digits.last() as int - '0' as int)
    }
}

proof fn lemma_decimal_reads_back(n: nat)
    ensures
        number(decimal(n)) == n,
        forall|k: int| 0 <= k < decimal(n).len() ==> '0' <= #[trigger] decimal(n)[k] <= '9',
        decimal(n).len() > 1 ==> decimal(n)[0] != '0',
        decimal(n).len() >= 1,
        n > 0 ==> decimal(n)[0] != '0',
    decreases n,
{
    if n < 10 {
        assert(decimal(n).drop_last().len() == 0);
        assert(decimal(n).last() == digit(n));
        reveal_with_fuel(number, 2);
    } else {
        lemma_decimal_reads_back(n / 10);
        let init = decimal(n / 10);
        assert(decimal(n) == init.push(digit(n % 10)));
        assert(decimal(n).drop_last() =~= init);
        assert(decimal(n).last() == digit(n % 10));
        assert forall|k: int| 0 <= k < decimal(n).len() implies '0' <= #[trigger] decimal(n)[k]
            <= '9' by {
            if k < init.len() {
                assert(decimal(n)[k] == init[k]);
            }
        }
        assert(decimal(n)[0] == init[0]);
    }
}

/// A number in decimal notation consists of digits, reads back as the number, and
/// has no leading zero.
pub proof fn law_decimal_reads_back(n: u64, told: String)
    requires
        call_ensures(decimal_text, (n,), told),
    ensures
        number(told@) == n,
        forall|k: int| 0 <= k < told@.len() ==> '0' <= #[trigger] told@[k] <= '9',
        told@.len() > 0,
        told@.len() > 1 ==> told@[0] != '0',
        told@ == decimal(n as nat),
{
    lemma_decimal_reads_back(n as nat);
}

/// The same of the notation itself.
pub proof fn law_decimal_is_digits(n: nat)
    ensures
        number(decimal(n)) == n,
        forall|k: int| 0 <= k < decimal(n).len() ==> '0' <= #[trigger] decimal(n)[k] <= '9',
        decimal(n).len() > 0,
        decimal(n).len() > 1 ==> decimal(n)[0] != '0',
{
    lemma_decimal_reads_back(n);
}

/// Joining nothing gives nothing, joining one part gives that part, and each
/// further part comes behind the others and a separator.
pub proof fn law_joining_appends(
    fewer: &[String],
    more: &[String],
    last: String,
    separator: &str,
    shorter: String,
    longer: String,
)
    requires
        more@ == fewer@.push(last),
        call_ensures(join, (fewer, separator), shorter),
        call_ensures(join, (more, separator), longer),
    ensures
        fewer@.len() == 0 ==> shorter@.len() == 0 && longer@ == last@,
        fewer@.len() > 0 ==> longer@ == shorter@ + separator@ + last@,
{
    assert(texts(more@).drop_last() =~= texts(fewer@));
    assert(texts(more@).last() == last@);
}

} // verus!
