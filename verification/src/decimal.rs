//! The decimal wire format for numbers.
//!
//! Both games carry numbers over the line protocol as plain decimal text:
//! iteration counts and energy budgets flow out through [`render_u32`], and
//! a Tug of War actor's spend comes back in through [`parse_u32`]. The two
//! directions agree: what the referee renders, the parser accepts at the
//! same value ([`lemma_parse_render_u32`]).

use vstd::prelude::*;

verus! {

/// A decimal digit character.
pub open spec fn is_digit_char(c: char) -> bool {
    '0' as int <= c as int && c as int <= '9' as int
}

/// The numeric value of a digit character.
pub open spec fn digit_of_char(c: char) -> int {
    c as int - '0' as int
}

/// The digit character for a value between 0 and 9.
pub open spec fn char_of_digit(d: int) -> char {
    if d == 0 {
        '0'
    } else if d == 1 {
        '1'
    } else if d == 2 {
        '2'
    } else if d == 3 {
        '3'
    } else if d == 4 {
        '4'
    } else if d == 5 {
        '5'
    } else if d == 6 {
        '6'
    } else if d == 7 {
        '7'
    } else if d == 8 {
        '8'
    } else {
        '9'
    }
}

/// Every character of the sequence is a decimal digit.
pub open spec fn all_digits(s: Seq<char>) -> bool {
    forall|i: int| 0 <= i < s.len() ==> is_digit_char(s[i])
}

/// The number a digit sequence denotes, most significant digit first.
pub open spec fn digits_value(s: Seq<char>) -> int
    decreases s.len(),
{
    if s.len() == 0 {
        0
    } else {
        digits_value(s.drop_last()) * 10 + digit_of_char(s.last())
    }
}

/// The lines accepted as a `u32`: one or more decimal digits, nothing else,
/// denoting a value that fits.
pub open spec fn spec_parse_u32(s: Seq<char>) -> Option<u32> {
    if s.len() > 0 && all_digits(s) && digits_value(s) <= u32::MAX as int {
        Some(digits_value(s) as u32)
    } else {
        None
    }
}

/// The canonical decimal rendering of a non-negative value: no sign, no
/// leading zeros (except for the value 0 itself).
pub open spec fn spec_render_u32(v: int) -> Seq<char>
    decreases v,
{
    if v < 10 {
        seq![char_of_digit(v)]
    } else {
        spec_render_u32(v / 10).push(char_of_digit(v % 10))
    }
}

proof fn lemma_digits_value_nonneg(s: Seq<char>)
    requires
        all_digits(s),
    ensures
        digits_value(s) >= 0,
    decreases s.len(),
{
    if s.len() > 0 {
        assert(all_digits(s.drop_last()));
        lemma_digits_value_nonneg(s.drop_last());
    }
}

proof fn lemma_digits_value_step(s: Seq<char>, i: int)
    requires
        0 <= i < s.len(),
    ensures
        digits_value(s.take(i + 1)) == digits_value(s.take(i)) * 10 + digit_of_char(s[i]),
{
    assert(s.take(i + 1).drop_last() =~= s.take(i));
    assert(s.take(i + 1).last() == s[i]);
}

proof fn lemma_digits_value_prefix(s: Seq<char>, i: int)
    requires
        all_digits(s),
        0 <= i <= s.len(),
    ensures
        digits_value(s.take(i)) <= digits_value(s),
    decreases s.len() - i,
{
    if i == s.len() {
        assert(s.take(i) =~= s);
    } else {
        assert(all_digits(s.take(i)));
        lemma_digits_value_nonneg(s.take(i));
        lemma_digits_value_step(s, i);
        lemma_digits_value_prefix(s, i + 1);
    }
}

/// Parse a line as a non-negative decimal integer. Succeeds exactly when
/// the line is one or more digits whose value fits in a `u32`.
pub fn parse_u32(s: &str) -> (r: Option<u32>)
    ensures
        r == spec_parse_u32(s@),
{
    let n: usize = s.unicode_len();
    if n == 0 {
        return None;
    }
    let mut val: u32 = 0;
    let mut i: usize = 0;
    while i < n
        invariant
            0 < n == s@.len(),
            i <= n,
            all_digits(s@.take(i as int)),
            val as int == digits_value(s@.take(i as int)),
        decreases n - i,
    {
        let c = s.get_char(i);
        let cv: u32 = c as u32;
        if cv < 48 || cv > 57 {
            proof {
                assert(!is_digit_char(s@[i as int]));
            }
            return None;
        }
        let d: u32 = cv - 48;
        if val > (u32::MAX - d) / 10 {
            proof {
                lemma_digits_value_step(s@, i as int);
                if all_digits(s@) {
                    lemma_digits_value_prefix(s@, i as int + 1);
                }
            }
            return None;
        }
        val = val * 10 + d;
        proof {
            lemma_digits_value_step(s@, i as int);
        }
        i = i + 1;
    }
    proof {
        assert(s@.take(n as int) =~= s@);
    }
    Some(val)
}

fn digit_str(d: u32) -> (r: &'static str)
    requires
        d < 10,
    ensures
        r@ =~= seq![char_of_digit(d as int)],
{
    proof {
        reveal_strlit("0");
        reveal_strlit("1");
        reveal_strlit("2");
        reveal_strlit("3");
        reveal_strlit("4");
        reveal_strlit("5");
        reveal_strlit("6");
        reveal_strlit("7");
        reveal_strlit("8");
        reveal_strlit("9");
    }
    match d {
        0 => "0",
        1 => "1",
        2 => "2",
        3 => "3",
        4 => "4",
        5 => "5",
        6 => "6",
        7 => "7",
        8 => "8",
        _ => "9",
    }
}

/// Render a value as the decimal line the wire protocol carries.
pub fn render_u32(v: u32) -> (r: String)
    ensures
        r@ == spec_render_u32(v as int),
    decreases v,
{
    if v < 10 {
        digit_str(v).to_owned()
    } else {
        let mut r = render_u32(v / 10);
        r.append(digit_str(v % 10));
        proof {
            assert(r@ =~= spec_render_u32((v / 10) as int).push(char_of_digit((v % 10) as int)));
        }
        r
    }
}

proof fn lemma_char_of_digit(d: int)
    requires
        0 <= d < 10,
    ensures
        is_digit_char(char_of_digit(d)),
        digit_of_char(char_of_digit(d)) == d,
{
}

proof fn lemma_render_props(v: int)
    requires
        0 <= v,
    ensures
        spec_render_u32(v).len() > 0,
        all_digits(spec_render_u32(v)),
        digits_value(spec_render_u32(v)) == v,
    decreases v,
{
    if v < 10 {
        lemma_char_of_digit(v);
        let s = spec_render_u32(v);
        assert(s.drop_last() =~= Seq::<char>::empty());
        assert(digits_value(Seq::<char>::empty()) == 0);
        assert(s.last() == char_of_digit(v));
    } else {
        lemma_render_props(v / 10);
        lemma_char_of_digit(v % 10);
        let s = spec_render_u32(v);
        assert(s.drop_last() =~= spec_render_u32(v / 10));
        assert(digits_value(s) == (v / 10) * 10 + v % 10);
        vstd::arithmetic::div_mod::lemma_fundamental_div_mod(v, 10);
    }
}

/// The two directions of the wire format agree: the rendering of any value
/// parses back to that same value. What one side of the protocol says of a
/// number, the other side reads as that number.
pub proof fn lemma_parse_render_u32(v: u32)
    ensures
        spec_parse_u32(spec_render_u32(v as int)) == Some(v),
{
    lemma_render_props(v as int);
}

} // verus!
