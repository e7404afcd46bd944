//! Verified string-assembly utilities: joining pieces with a separator,
//! counting `?` placeholders, and rendering integers in decimal.

use vstd::prelude::*;
use vstd::string::StringExecFns;

verus! {

/// The pieces of `items` concatenated in order, with `sep` between
/// consecutive pieces.
pub open spec fn join_with(items: Seq<Seq<char>>, sep: Seq<char>) -> Seq<char>
    decreases items.len(),
{
    if items.len() == 0 {
        Seq::empty()
    } else if items.len() == 1 {
        items[0]
    } else {
        join_with(items.drop_last(), sep) + sep + items.last()
    }
}

/// Joins the strings of `items` with the separator `sep`.
pub fn join_strings(items: &Vec<String>, sep: &str) -> (r: String)
    ensures
        r@ == join_with(items.deep_view(), sep@),
{
    let mut r = String::new();
    let mut i: usize = 0;
    while i < items.len()
        invariant
            i <= items.len(),
            r@ == join_with(items.deep_view().take(i as int), sep@),
        decreases items.len() - i,
    {
        if i > 0 {
            r.append(sep);
        }
        r.append(items[i].as_str());
        proof {
            let dv = items.deep_view();
            assert(dv.take(i + 1 as int).drop_last() =~= dv.take(i as int));
            assert(dv.take(i + 1 as int).last() == dv[i as int]);
        }
        i = i + 1;
    }
    proof {
        assert(items.deep_view().take(items.len() as int) =~= items.deep_view());
    }
    r
}

/// How many `?` placeholders occur in `s`.
pub open spec fn count_placeholders(s: Seq<char>) -> nat
    decreases s.len(),
{
    if s.len() == 0 {
        0
    } else {
        count_placeholders(s.drop_last()) + (if s.last() == '?' {
            1nat
        } else {
            0nat
        })
    }
}

/// Placeholder counting distributes over concatenation.
pub broadcast proof fn lemma_count_placeholders_concat(a: Seq<char>, b: Seq<char>)
    ensures
        #[trigger] count_placeholders(a + b) == count_placeholders(a) + count_placeholders(b),
    decreases b.len(),
{
    if b.len() == 0 {
        assert(a + b =~= a);
    } else {
        assert((a + b).drop_last() =~= a + b.drop_last());
        lemma_count_placeholders_concat(a, b.drop_last());
    }
}

/// A text without a `?` character has no placeholders.
pub proof fn lemma_count_no_placeholders(s: Seq<char>)
    requires
        forall|i: int| 0 <= i < s.len() ==> s[i] != '?',
    ensures
        count_placeholders(s) == 0,
    decreases s.len(),
{
    if s.len() > 0 {
        lemma_count_no_placeholders(s.drop_last());
    }
}

/// A text has no placeholder exactly when none of its characters is `?`.
pub proof fn lemma_count_zero_iff_no_placeholder(s: Seq<char>)
    ensures
        count_placeholders(s) == 0 <==> (forall|i: int| 0 <= i < s.len() ==> s[i] != '?'),
    decreases s.len(),
{
    if s.len() > 0 {
        lemma_count_zero_iff_no_placeholder(s.drop_last());
        assert(s.last() == s[s.len() - 1]);
        if count_placeholders(s) == 0 {
            assert forall|i: int| 0 <= i < s.len() implies s[i] != '?' by {
                if i < s.len() - 1 {
                    assert(s.drop_last()[i] == s[i]);
                }
            }
        }
    }
}

/// A text whose only `?` is its last character has exactly one placeholder.
pub proof fn lemma_count_one_trailing(s: Seq<char>)
    requires
        s.len() > 0,
        s.last() == '?',
        forall|i: int| 0 <= i < s.len() - 1 ==> s[i] != '?',
    ensures
        count_placeholders(s) == 1,
{
    lemma_count_no_placeholders(s.drop_last());
}

/// A join of `?`-free pieces with a `?`-free separator has no
/// placeholders.
pub proof fn lemma_join_no_placeholders(items: Seq<Seq<char>>, sep: Seq<char>)
    requires
        count_placeholders(sep) == 0,
        forall|i: int| 0 <= i < items.len() ==> count_placeholders(#[trigger] items[i]) == 0,
    ensures
        count_placeholders(join_with(items, sep)) == 0,
    decreases items.len(),
{
    broadcast use lemma_count_placeholders_concat;

    if items.len() == 0 {
        assert(count_placeholders(Seq::<char>::empty()) == 0);
    } else if items.len() > 1 {
        lemma_join_no_placeholders(items.drop_last(), sep);
    }
}

/// A join of pieces holding one placeholder each, with a `?`-free
/// separator, has one placeholder per piece.
pub proof fn lemma_join_single_placeholders(items: Seq<Seq<char>>, sep: Seq<char>)
    requires
        count_placeholders(sep) == 0,
        forall|i: int| 0 <= i < items.len() ==> count_placeholders(#[trigger] items[i]) == 1,
    ensures
        count_placeholders(join_with(items, sep)) == items.len(),
    decreases items.len(),
{
    broadcast use lemma_count_placeholders_concat;

    if items.len() == 0 {
        assert(count_placeholders(Seq::<char>::empty()) == 0);
    } else if items.len() > 1 {
        lemma_join_single_placeholders(items.drop_last(), sep);
    }
}

/// The decimal digit character for `d` (expects `d < 10`).
pub open spec fn dec_digit(d: nat) -> char {
    if d == 0 {
        '0'
    } else if d == 1 {
        '1'
    } else if d == 2 {
        '2'
    } else if d == 3 {
        '3'
    } else if d == 4 {
        '4'
    } else if d == 5 {
        '5'
    } else if d == 6 {
        '6'
    } else if d == 7 {
        '7'
    } else if d == 8 {
        '8'
    } else {
        '9'
    }
}

/// The decimal representation of `n`, most significant digit first,
/// without leading zeros (a single `'0'` for zero).
pub open spec fn dec_rep(n: nat) -> Seq<char>
    decreases n,
{
    if n < 10 {
        seq![dec_digit(n)]
    } else {
        dec_rep(n / 10).push(dec_digit(n % 10))
    }
}

/// The decimal representation of a possibly negative number: a leading
/// `'-'` before the digits when `i < 0`.
pub open spec fn int_dec_rep(i: int) -> Seq<char> {
    if i < 0 {
        seq!['-'] + dec_rep((-i) as nat)
    } else {
        dec_rep(i as nat)
    }
}

/// A decimal representation never contains a placeholder.
pub proof fn lemma_dec_rep_no_placeholders(n: nat)
    ensures
        count_placeholders(dec_rep(n)) == 0,
    decreases n,
{
    assert(count_placeholders(Seq::<char>::empty()) == 0);
    if n < 10 {
        assert(dec_rep(n).drop_last() =~= Seq::<char>::empty());
        assert(dec_digit(n) != '?');
    } else {
        lemma_dec_rep_no_placeholders(n / 10);
        assert(dec_rep(n).drop_last() =~= dec_rep(n / 10));
    }
}

/// Nor does the signed form.
pub proof fn lemma_int_dec_rep_no_placeholders(i: int)
    ensures
        count_placeholders(int_dec_rep(i)) == 0,
{
    broadcast use lemma_count_placeholders_concat;

    if i < 0 {
        lemma_dec_rep_no_placeholders((-i) as nat);
        assert(count_placeholders(seq!['-']) == 0) by {
            assert(count_placeholders(Seq::<char>::empty()) == 0);
            assert(seq!['-'].drop_last() =~= Seq::<char>::empty());
        }
    } else {
        lemma_dec_rep_no_placeholders(i as nat);
    }
}

fn dec_digit_str(d: u64) -> (r: &'static str)
    requires
        d < 10,
    ensures
        r@ =~= seq![dec_digit(d as nat)],
{
    proof {
        reveal_strlit("0");
        reveal_strlit("1");
        reveal_strlit("2");
        reveal_strlit("3");
        reveal_strlit("4");
        reveal_strlit("5");
        reveal_strlit("6");
        reveal_strlit("7");
        reveal_strlit("8");
        reveal_strlit("9");
    }
    if d == 0 {
        "0"
    } else if d == 1 {
        "1"
    } else if d == 2 {
        "2"
    } else if d == 3 {
        "3"
    } else if d == 4 {
        "4"
    } else if d == 5 {
        "5"
    } else if d == 6 {
        "6"
    } else if d == 7 {
        "7"
    } else if d == 8 {
        "8"
    } else {
        "9"
    }
}

/// Renders `n` in decimal.
pub fn u64_to_dec(n: u64) -> (r: String)
    ensures
        r@ == dec_rep(n as nat),
    decreases n,
{
    if n < 10 {
        String::from_str(dec_digit_str(n))
    } else {
        proof {
            assert(n / 10 < n) by (nonlinear_arith)
                requires
                    n >= 10,
            ;
        }
        let mut s = u64_to_dec(n / 10);
        s.append(dec_digit_str(n % 10));
        proof {
            assert(dec_rep((n / 10) as nat) + seq![dec_digit((n % 10) as nat)] =~= dec_rep(
                (n / 10) as nat,
            ).push(dec_digit((n % 10) as nat)));
        }
        s
    }
}

/// Renders `i` in decimal, with a leading minus sign when negative.
pub fn isize_to_dec(i: isize) -> (r: String)
    ensures
        r@ == int_dec_rep(i as int),
{
    if i >= 0 {
        u64_to_dec(i as u64)
    } else {
        let m: i128 = -(i as i128);
        let mut s = String::from_str("-");
        let digits = u64_to_dec(m as u64);
        s.append(digits.as_str());
        proof {
            reveal_strlit("-");
            assert("-"@ =~= seq!['-']);
        }
        s
    }
}

/// Relies on String::push: appends exactly the given character.
#[verifier::external_body]
fn push_char(s: &mut String, c: char)
    ensures
        final(s)@ == old(s)@.push(c),
{
    s.push(c)
}

/// The ASCII-lowercased form of `c`; other characters are unchanged.
pub open spec fn lower_char(c: char) -> char {
    if 65 <= c as u32 && c as u32 <= 90 {
        (((c as u32) + 32) as u8) as char
    } else {
        c
    }
}

/// ASCII-lowercases every character of `s`.
pub open spec fn lower_chars(s: Seq<char>) -> Seq<char> {
    s.map_values(|c: char| lower_char(c))
}

/// Lowercasing never introduces a placeholder: `?` is not an uppercase
/// letter, and no uppercase letter maps to it.
pub proof fn lemma_lower_chars_no_placeholders(s: Seq<char>)
    requires
        count_placeholders(s) == 0,
    ensures
        count_placeholders(lower_chars(s)) == 0,
{
    broadcast use vstd::utf8::char_is_scalar;

    lemma_count_zero_iff_no_placeholder(s);
    lemma_count_zero_iff_no_placeholder(lower_chars(s));
    assert forall|i: int| 0 <= i < lower_chars(s).len() implies lower_chars(s)[i] != '?' by {
        assert(lower_chars(s)[i] == lower_char(s[i]));
        assert(s[i] != '?');
        assert('?' as u32 == 63);
    }
}

/// ASCII-lowercases a string.
pub fn to_lowercase(s: &str) -> (r: String)
    ensures
        r@ == lower_chars(s@),
{
    let n = s.unicode_len();
    let mut r = String::new();
    let mut i: usize = 0;
    while i < n
        invariant
            i <= n,
            n == s@.len(),
            r@ == lower_chars(s@.take(i as int)),
        decreases n - i,
    {
        let c = s.get_char(i);
        let u = c as u32;
        let lc: char = if 65 <= u && u <= 90 {
            ((u + 32) as u8) as char
        } else {
            c
        };
        push_char(&mut r, lc);
        proof {
            assert(lc == lower_char(s@[i as int]));
            assert(lower_chars(s@.take(i + 1 as int)) =~= lower_chars(s@.take(i as int)).push(
                lower_char(s@[i as int]),
            ));
        }
        i = i + 1;
    }
    proof {
        assert(s@.take(n as int) =~= s@);
    }
    r
}

} // verus!
