//! What holds of the texts and numbers that everything else is written in.

use crate::text::{
    decimal, digit, digits_value, number_in, number_or, text_lt, trimmed, trimmed_end,
    trimmed_start, white_space,
};
use vstd::prelude::*;
use vstd::string::*;

verus! {

proof fn digits_of(n: nat)
    ensures
        decimal(n).len() > 0,
        forall|i: int| 0 <= i < decimal(n).len() ==> '0' <= #[trigger] decimal(n)[i] <= '9',
        digits_value(decimal(n)) == n,
        decimal(n)[0] == '0' ==> n == 0,
    decreases n,
{
    reveal_with_fuel(digits_value, 2);
    if n >= 10 {
        digits_of(n / 10);
        let all = decimal(n);
        assert(all.drop_last() =~= decimal(n / 10));
        digit_is(n % 10);
        assert(all[0] == decimal(n / 10)[0]);
    } else {
        digit_is(n);
        assert(decimal(n).drop_last() =~= Seq::empty());
    }
}

proof fn digit_is(n: nat)
    requires
        n < 10,
    ensures
        digit(n) as int == 48 + n,
        '0' <= digit(n) <= '9',
{
}

/// A number that is written is read back as it was, as long as it is within the limit,
/// and it is written in digits without a zero in front.
pub proof fn a_written_number_is_read_back(n: nat, limit: nat, other: nat)
    ensures
        n <= limit ==> number_or(decimal(n), limit, other) == n,
        n > limit ==> number_or(decimal(n), limit, other) == other,
        number_in(decimal(n)) == Some(n),
        n > 0 ==> decimal(n)[0] != '0',
{
    digits_of(n);
    assert(decimal(n)[0] != '+');
}

/// Two numbers are never written alike.
pub proof fn numbers_are_written_apart(n: nat, m: nat)
    ensures
        decimal(n) == decimal(m) ==> n == m,
{
    a_written_number_is_read_back(n, n, 0);
    a_written_number_is_read_back(m, m, 0);
}

proof fn start_drops_blanks(s: Seq<char>) -> (a: int)
    ensures
        0 <= a <= s.len(),
        trimmed_start(s) == s.skip(a),
        forall|i: int| 0 <= i < a ==> white_space(#[trigger] s[i]),
        a < s.len() ==> !white_space(s[a]),
    decreases s.len(),
{
    if s.len() > 0 && white_space(s[0]) {
        let t = s.drop_first();
        let a = start_drops_blanks(t);
        assert(t.skip(a) =~= s.skip(a + 1));
        assert forall|i: int| 0 <= i < a + 1 implies white_space(#[trigger] s[i]) by {
            if i > 0 {
                assert(t[i - 1] == s[i]);
            }
        }
        a + 1
    } else {
        assert(s.skip(0) =~= s);
        0
    }
}

proof fn end_drops_blanks(s: Seq<char>) -> (b: int)
    ensures
        0 <= b <= s.len(),
        trimmed_end(s) == s.take(b),
        forall|i: int| b <= i < s.len() ==> white_space(#[trigger] s[i]),
        b > 0 ==> !white_space(s[b - 1]),
    decreases s.len(),
{
    if s.len() > 0 && white_space(s.last()) {
        let t = s.drop_last();
        let b = end_drops_blanks(t);
        assert(t.take(b) =~= s.take(b));
        assert forall|i: int| b <= i < s.len() implies white_space(#[trigger] s[i]) by {
            if i < t.len() {
                assert(t[i] == s[i]);
            }
        }
        b
    } else {
        assert(s.take(s.len() as int) =~= s);
        s.len() as int
    }
}

/// Trimming drops the blanks at the two ends and nothing else: what is left is a piece
/// of the text, whose ends are no blanks, and everything around it is blank.
pub proof fn trimming_drops_only_blanks(s: Seq<char>)
    ensures
        exists|a: int, b: int|
            {
                &&& 0 <= a <= b <= s.len()
                &&& trimmed(s) == #[trigger] s.subrange(a, b)
                &&& forall|i: int| 0 <= i < a ==> white_space(#[trigger] s[i])
                &&& forall|i: int| b <= i < s.len() ==> white_space(#[trigger] s[i])
            },
        trimmed(s).len() > 0 ==> !white_space(trimmed(s)[0]) && !white_space(trimmed(s).last()),
{
    let a = start_drops_blanks(s);
    let t = trimmed_start(s);
    let c = end_drops_blanks(t);
    let b = a + c;
    assert(trimmed(s) =~= s.subrange(a, b));
    assert forall|i: int| b <= i < s.len() implies white_space(#[trigger] s[i]) by {
        assert(t[i - a] == s[i]);
    }
    if trimmed(s).len() > 0 {
        assert(trimmed(s)[0] == s[a]);
        assert(trimmed(s).last() == t[c - 1]);
    }
}

/// Texts stand in the order of the first character in which they differ; and a text
/// stands before any that goes on behind it.
pub proof fn texts_stand_in_order(p: Seq<char>, x: char, a: Seq<char>, y: char, b: Seq<char>)
    ensures
        x < y ==> text_lt(p + seq![x] + a, p + seq![y] + b),
        text_lt(p, p + seq![y] + b),
        !text_lt(p + seq![y] + b, p),
    decreases p.len(),
{
    let l = p + seq![x] + a;
    let r = p + seq![y] + b;
    if p.len() > 0 {
        let q = p.drop_first();
        texts_stand_in_order(q, x, a, y, b);
        assert(l.drop_first() =~= q + seq![x] + a);
        assert(r.drop_first() =~= q + seq![y] + b);
        assert(l[0] == p[0] && r[0] == p[0]);
    } else {
        assert(l[0] == x && r[0] == y);
    }
}

} // verus!
