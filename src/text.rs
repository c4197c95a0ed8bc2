use vstd::prelude::*;
use vstd::arithmetic::div_mod::lemma_fundamental_div_mod;

verus! {

/// The pieces of `s` between occurrences of `sep`, as `str::split` gives them:
/// `n` separators give `n + 1` pieces, some of which may be empty.
pub open spec fn split(s: Seq<char>, sep: char) -> Seq<Seq<char>>
    decreases s.len(),
{
    if s.len() == 0 {
        seq![Seq::empty()]
    } else {
        let r = split(s.drop_last(), sep);
        if s.last() == sep {
            r.push(Seq::empty())
        } else {
            r.update(r.len() - 1, r.last().push(s.last()))
        }
    }
}

/// The pieces of `parts` with `sep` between each two.
pub open spec fn join(parts: Seq<Seq<char>>, sep: char) -> Seq<char>
    decreases parts.len(),
{
    if parts.len() == 0 {
        Seq::empty()
    } else if parts.len() == 1 {
        parts[0]
    } else {
        join(parts.drop_last(), sep) + seq![sep] + parts.last()
    }
}

/// `c` does not occur in `s`.
pub open spec fn lacks(s: Seq<char>, c: char) -> bool {
    forall|i: int| 0 <= i < s.len() ==> s[i] != c
}

/// The value of a decimal digit, or -1 for any other character.
pub open spec fn digit_value(c: char) -> int {
    match c {
        '0' => 0,
        '1' => 1,
        '2' => 2,
        '3' => 3,
        '4' => 4,
        '5' => 5,
        '6' => 6,
        '7' => 7,
        '8' => 8,
        '9' => 9,
        _ => -1,
    }
}

/// The decimal digit of `d`, for `d` in 0..10.
pub open spec fn digit_char(d: int) -> char {
    if d == 0 {
        '0'
    } else if d == 1 {
        '1'
    } else if d == 2 {
        '2'
    } else if d == 3 {
        '3'
    } else if d == 4 {
        '4'
    } else if d == 5 {
        '5'
    } else if d == 6 {
        '6'
    } else if d == 7 {
        '7'
    } else if d == 8 {
        '8'
    } else {
        '9'
    }
}

/// Every character of `s` is a decimal digit.
pub open spec fn all_digits(s: Seq<char>) -> bool {
    forall|i: int| 0 <= i < s.len() ==> digit_value(#[trigger] s[i]) >= 0
}

/// The number that a string of decimal digits denotes.
pub open spec fn decimal_value(s: Seq<char>) -> int
    decreases s.len(),
{
    if s.len() == 0 {
        0
    } else {
        10 * decimal_value(s.drop_last()) + digit_value(s.last())
    }
}

/// The shortest decimal text of `n`.
pub open spec fn decimal_text(n: nat) -> Seq<char>
    decreases n,
{
    if n < 10 {
        seq![digit_char(n as int)]
    } else {
        decimal_text(n / 10).push(digit_char((n % 10) as int))
    }
}

/// A non-empty string of decimal digits denoting at most `i32::MAX`, read as
/// that number.
pub open spec fn parse_decimal(s: Seq<char>) -> Option<int> {
    if s.len() > 0 && all_digits(s) && decimal_value(s) <= i32::MAX {
        Some(decimal_value(s))
    } else {
        None
    }
}

/// Splitting always gives at least one piece.
pub proof fn lemma_split_len(s: Seq<char>, sep: char)
    ensures
        split(s, sep).len() >= 1,
    decreases s.len(),
{
    if s.len() > 0 {
        lemma_split_len(s.drop_last(), sep);
    }
}

/// A string without the separator splits into itself alone.
pub proof fn lemma_split_single(q: Seq<char>, sep: char)
    requires
        lacks(q, sep),
    ensures
        split(q, sep) == seq![q],
    decreases q.len(),
{
    if q.len() == 0 {
        assert(q =~= Seq::<char>::empty());
        assert(split(q, sep) =~= seq![q]);
    } else {
        let p = q.drop_last();
        assert(lacks(p, sep));
        lemma_split_single(p, sep);
        assert(q.last() != sep);
        assert(p.push(q.last()) =~= q);
        assert(split(q, sep) =~= seq![q]);
    }
}

/// Splitting at a separator splits each side on its own.
pub proof fn lemma_split_append(p: Seq<char>, q: Seq<char>, sep: char)
    ensures
        split(p + seq![sep] + q, sep) == split(p, sep) + split(q, sep),
    decreases q.len(),
{
    let t = p + seq![sep] + q;
    lemma_split_len(p, sep);
    if q.len() == 0 {
        assert(t.drop_last() =~= p);
        assert(split(q, sep) =~= seq![Seq::<char>::empty()]);
        assert(split(t, sep) =~= split(p, sep) + split(q, sep));
    } else {
        let q1 = q.drop_last();
        lemma_split_append(p, q1, sep);
        lemma_split_len(q1, sep);
        assert(t.drop_last() =~= p + seq![sep] + q1);
        assert(t.last() == q.last());
        assert(split(t, sep) =~= split(p, sep) + split(q, sep));
    }
}

/// Splitting what was joined, with pieces free of the separator, gives the
/// pieces back.
pub proof fn lemma_split_join(parts: Seq<Seq<char>>, sep: char)
    requires
        parts.len() >= 1,
        forall|i: int| 0 <= i < parts.len() ==> lacks(#[trigger] parts[i], sep),
    ensures
        split(join(parts, sep), sep) == parts,
    decreases parts.len(),
{
    if parts.len() == 1 {
        lemma_split_single(parts[0], sep);
        assert(split(join(parts, sep), sep) =~= parts);
    } else {
        let front = parts.drop_last();
        assert(forall|i: int| 0 <= i < front.len() ==> lacks(#[trigger] front[i], sep)) by {
            assert forall|i: int| 0 <= i < front.len() implies lacks(#[trigger] front[i], sep) by {
                assert(front[i] == parts[i]);
            }
        }
        lemma_split_join(front, sep);
        lemma_split_append(join(front, sep), parts.last(), sep);
        assert(lacks(parts[parts.len() - 1], sep));
        lemma_split_single(parts.last(), sep);
        assert(split(join(parts, sep), sep) =~= parts);
    }
}

/// Joining pieces free of `c` with a separator other than `c` gives a string
/// free of `c`.
pub proof fn lemma_join_lacks(parts: Seq<Seq<char>>, sep: char, c: char)
    requires
        sep != c,
        forall|i: int| 0 <= i < parts.len() ==> lacks(#[trigger] parts[i], c),
    ensures
        lacks(join(parts, sep), c),
    decreases parts.len(),
{
    if parts.len() == 1 {
        assert(lacks(parts[0], c));
    } else if parts.len() > 1 {
        let front = parts.drop_last();
        assert forall|i: int| 0 <= i < front.len() implies lacks(#[trigger] front[i], c) by {
            assert(front[i] == parts[i]);
        }
        lemma_join_lacks(front, sep, c);
        assert(lacks(parts[parts.len() - 1], c));
    }
}

/// The decimal text of a number is a non-empty string of digits that denotes
/// the number.
pub proof fn lemma_decimal_text(n: nat)
    ensures
        decimal_text(n).len() > 0,
        all_digits(decimal_text(n)),
        decimal_value(decimal_text(n)) == n,
    decreases n,
{
    if n < 10 {
        let t = decimal_text(n);
        assert(t.drop_last() =~= Seq::<char>::empty());
        assert(decimal_value(t) == 10 * decimal_value(t.drop_last()) + digit_value(t.last()));
    } else {
        lemma_decimal_text(n / 10);
        lemma_fundamental_div_mod(n as int, 10);
        let t = decimal_text(n);
        assert(t.drop_last() =~= decimal_text(n / 10));
        assert(all_digits(t)) by {
            assert forall|i: int| 0 <= i < t.len() implies digit_value(#[trigger] t[i]) >= 0 by {
                if i < t.len() - 1 {
                    assert(t[i] == decimal_text(n / 10)[i]);
                }
            }
        }
    }
}

/// Reading the decimal text of a number in range gives the number.
pub proof fn lemma_parse_decimal_text(n: nat)
    requires
        n <= i32::MAX,
    ensures
        parse_decimal(decimal_text(n)) == Some(n as int),
{
    lemma_decimal_text(n);
}

/// A digit string denotes a non-negative number, at least the number its
/// first `i` digits denote.
pub proof fn lemma_decimal_value_grows(s: Seq<char>, i: int)
    requires
        all_digits(s),
        0 <= i <= s.len(),
    ensures
        0 <= decimal_value(s.take(i)) <= decimal_value(s),
    decreases s.len(),
{
    if i == s.len() {
        assert(s.take(i) =~= s);
        if s.len() > 0 {
            lemma_decimal_value_grows(s.drop_last(), 0);
            assert(s.drop_last().take(0) =~= Seq::<char>::empty());
            assert(digit_value(s[s.len() - 1]) >= 0);
        } else {
            assert(s =~= Seq::<char>::empty());
        }
    } else {
        let d = s.drop_last();
        assert(all_digits(d)) by {
            assert forall|j: int| 0 <= j < d.len() implies digit_value(#[trigger] d[j]) >= 0 by {
                assert(d[j] == s[j]);
            }
        }
        lemma_decimal_value_grows(d, i);
        lemma_decimal_value_grows(d, d.len() as int);
        assert(d.take(i) =~= s.take(i));
        assert(d.take(d.len() as int) =~= d);
        assert(digit_value(s[s.len() - 1]) >= 0);
    }
}

} // verus!
