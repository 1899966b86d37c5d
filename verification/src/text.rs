//! Characters and strings: white space, trimming, decimal numbers.

use vstd::prelude::*;

verus! {

/// The characters with the Unicode property White_Space, which is what
/// `char::is_whitespace` and `str::trim` go by.
pub open spec fn is_white_space(c: char) -> bool {
    let u = c as u32;
    ||| 0x09 <= u <= 0x0D
    ||| u == 0x20
    ||| u == 0x85
    ||| u == 0xA0
    ||| u == 0x1680
    ||| 0x2000 <= u <= 0x200A
    ||| u == 0x2028
    ||| u == 0x2029
    ||| u == 0x202F
    ||| u == 0x205F
    ||| u == 0x3000
}

/// Every character of `s` is white space (so an empty `s` is blank too).
pub open spec fn is_blank(s: Seq<char>) -> bool {
    forall|i: int| 0 <= i < s.len() ==> #[trigger] is_white_space(s[i])
}

/// `s` without the white space at its start.
pub open spec fn trim_start(s: Seq<char>) -> Seq<char>
    decreases s.len(),
{
    if s.len() > 0 && is_white_space(s[0]) {
        trim_start(s.drop_first())
    } else {
        s
    }
}

/// `s` without the white space at its end.
pub open spec fn trim_end(s: Seq<char>) -> Seq<char>
    decreases s.len(),
{
    if s.len() > 0 && is_white_space(s.last()) {
        trim_end(s.drop_last())
    } else {
        s
    }
}

/// `s` without the white space at either end.
pub open spec fn trimmed(s: Seq<char>) -> Seq<char> {
    trim_end(trim_start(s))
}

/// Whether `c` is white space.
pub fn white_space(c: char) -> (r: bool)
    ensures
        r == is_white_space(c),
{
    let u = c as u32;
    (0x09 <= u && u <= 0x0D) || u == 0x20 || u == 0x85 || u == 0xA0 || u == 0x1680 || (0x2000
        <= u && u <= 0x200A) || u == 0x2028 || u == 0x2029 || u == 0x202F || u == 0x205F || u
        == 0x3000
}

/// Dropping white space from the start of a blank sequence leaves nothing; from the
/// start of one that is not blank, it leaves a sequence that begins with a character
/// that is not white space, so what follows is not blank either.
proof fn lemma_trim_start(s: Seq<char>)
    ensures
        trim_start(s).len() <= s.len(),
        is_blank(s) <==> trim_start(s).len() == 0,
        trim_start(s).len() > 0 ==> !is_white_space(trim_start(s)[0]),
        trim_start(s) == s.subrange(s.len() - trim_start(s).len(), s.len() as int),
    decreases s.len(),
{
    if s.len() > 0 && is_white_space(s[0]) {
        lemma_trim_start(s.drop_first());
        if is_blank(s.drop_first()) {
            assert forall|i: int| 0 <= i < s.len() implies #[trigger] is_white_space(s[i]) by {
                if i > 0 {
                    assert(s[i] == s.drop_first()[i - 1]);
                }
            }
        }
        if is_blank(s) {
            assert forall|i: int| 0 <= i < s.drop_first().len() implies #[trigger] is_white_space(
                s.drop_first()[i],
            ) by {
                assert(s.drop_first()[i] == s[i + 1]);
            }
        }
        let t = trim_start(s.drop_first());
        assert(s.drop_first().subrange(s.drop_first().len() - t.len(), s.drop_first().len() as int)
            =~= s.subrange(s.len() - t.len(), s.len() as int));
    } else {
        assert(s.subrange(0, s.len() as int) =~= s);
        if s.len() > 0 {
            assert(!is_white_space(s[0]));
        }
    }
}

/// Dropping white space from the end of a sequence that begins with a character that
/// is not white space keeps that character and leaves a prefix.
proof fn lemma_trim_end(s: Seq<char>)
    ensures
        trim_end(s).len() <= s.len(),
        trim_end(s) == s.subrange(0, trim_end(s).len() as int),
        trim_end(s).len() > 0 ==> !is_white_space(trim_end(s).last()),
        s.len() > 0 && !is_white_space(s[0]) ==> trim_end(s).len() > 0,
    decreases s.len(),
{
    if s.len() > 0 && is_white_space(s.last()) {
        lemma_trim_end(s.drop_last());
        let t = trim_end(s.drop_last());
        assert(s.drop_last().subrange(0, t.len() as int) =~= s.subrange(0, t.len() as int));
        if s.len() > 1 {
            assert(s.drop_last()[0] == s[0]);
        }
    } else {
        assert(s.subrange(0, s.len() as int) =~= s);
    }
}

/// A sequence trims to nothing exactly where it is blank.
pub proof fn lemma_trimmed_empty(s: Seq<char>)
    ensures
        trimmed(s).len() == 0 <==> is_blank(s),
        trimmed(s).len() > 0 ==> !is_white_space(trimmed(s)[0]) && !is_white_space(
            trimmed(s).last(),
        ),
{
    lemma_trim_start(s);
    lemma_trim_end(trim_start(s));
    let t = trim_start(s);
    if trimmed(s).len() > 0 {
        assert(trimmed(s)[0] == t[0]);
    }
}

/// A sequence with no white space at either end trims to itself.
pub proof fn lemma_trimmed_unchanged(s: Seq<char>)
    requires
        s.len() > 0 ==> !is_white_space(s[0]) && !is_white_space(s.last()),
    ensures
        trimmed(s) == s,
{
}

/// `s` without the white space at either end, as `str::trim` gives it.
pub fn trim(s: &str) -> (r: &str)
    ensures
        r@ == trimmed(s@),
{
    let len = s.unicode_len();
    let mut start: usize = 0;
    assert(s@.subrange(0, len as int) =~= s@);
    while start < len && white_space(s.get_char(start))
        invariant
            len == s@.len(),
            start <= len,
            trim_start(s@) == trim_start(s@.subrange(start as int, len as int)),
        decreases len - start,
    {
        let ghost rest = s@.subrange(start as int, len as int);
        assert(rest.drop_first() =~= s@.subrange(start + 1, len as int));
        start = start + 1;
    }
    let ghost front = s@.subrange(start as int, len as int);
    assert(trim_start(front) == front);
    let mut end: usize = len;
    while end > start && white_space(s.get_char(end - 1))
        invariant
            len == s@.len(),
            start <= end <= len,
            trim_end(front) == trim_end(s@.subrange(start as int, end as int)),
        decreases end - start,
    {
        let ghost rest = s@.subrange(start as int, end as int);
        assert(rest.drop_last() =~= s@.subrange(start as int, end - 1));
        end = end - 1;
    }
    let ghost back = s@.subrange(start as int, end as int);
    assert(trim_end(back) == back);
    s.substring_char(start, end)
}

/// The character for a decimal digit below 10.
pub open spec fn decimal_symbol(d: u16) -> char {
    match d {
        0 => '0',
        1 => '1',
        2 => '2',
        3 => '3',
        4 => '4',
        5 => '5',
        6 => '6',
        7 => '7',
        8 => '8',
        _ => '9',
    }
}

/// `n` written in decimal, with no leading zero.
pub open spec fn decimal(n: u16) -> Seq<char>
    decreases n,
{
    if n < 10 {
        seq![decimal_symbol(n)]
    } else {
        decimal(n / 10).push(decimal_symbol(n % 10))
    }
}

/// `String::push` of std: appends `c` to the end of `s`.
#[verifier::external_body]
pub(crate) fn push_char(s: &mut String, c: char)
    ensures
        final(s)@ == old(s)@.push(c),
{
    s.push(c);
}

/// Appends `n`, written in decimal, to `s`.
pub fn push_decimal(s: &mut String, n: u16)
    ensures
        final(s)@ == old(s)@ + decimal(n),
    decreases n,
{
    if n >= 10 {
        push_decimal(s, n / 10);
    }
    let d = n % 10;
    let c = match d {
        0 => '0',
        1 => '1',
        2 => '2',
        3 => '3',
        4 => '4',
        5 => '5',
        6 => '6',
        7 => '7',
        8 => '8',
        _ => '9',
    };
    push_char(s, c);
    assert(final(s)@ =~= old(s)@ + decimal(n));
}

/// What a decimal digit character is worth: its distance from `'0'`.
pub open spec fn decimal_digit_value(c: char) -> int {
    (c as u32) as int - ('0' as u32) as int
}

/// Whether `c` is one of `'0'` to `'9'`.
pub open spec fn is_decimal_digit(c: char) -> bool {
    '0' as u32 <= c as u32 <= '9' as u32
}

/// The number that the decimal digits `s` denote, most significant first.
pub open spec fn read_decimal(s: Seq<char>) -> int
    decreases s.len(),
{
    if s.len() == 0 {
        0
    } else {
        10 * read_decimal(s.drop_last()) + decimal_digit_value(s.last())
    }
}

/// The decimal text of a number denotes that number: it is made of the characters
/// `'0'` to `'9'` only, read in base 10 it gives the number back, its last
/// character is `'0'` plus the number modulo 10, and it has no leading zero.
pub proof fn law_decimal_denotes(n: u16)
    ensures
        decimal(n).len() > 0,
        forall|i: int| 0 <= i < decimal(n).len() ==> #[trigger] is_decimal_digit(decimal(n)[i]),
        read_decimal(decimal(n)) == n,
        decimal_digit_value(decimal(n).last()) == n % 10,
        n > 0 ==> decimal(n)[0] != '0',
        n == 0 ==> decimal(n) == seq!['0'],
    decreases n,
{
    let d = n % 10;
    assert(decimal_digit_value(decimal_symbol(d)) == d && is_decimal_digit(decimal_symbol(d)));
    if n >= 10 {
        law_decimal_denotes(n / 10);
        let p = decimal(n / 10);
        let q = decimal(n);
        assert(q == p.push(decimal_symbol(d)));
        assert(q.drop_last() =~= p);
        assert(q.last() == decimal_symbol(d));
        assert(read_decimal(q) == 10 * read_decimal(p) + d);
        assert(q[0] == p[0]);
        assert forall|i: int| 0 <= i < q.len() implies #[trigger] is_decimal_digit(q[i]) by {
            if i < p.len() {
                assert(q[i] == p[i]);
            }
        }
    } else {
        let q = decimal(n);
        assert(q.drop_last() =~= Seq::<char>::empty());
        assert(read_decimal(q.drop_last()) == 0);
        assert(q.last() == decimal_symbol(d));
    }
}

/// Every character outside the trimmed part of `s` is white space.
proof fn lemma_trim_start_drops_white_space(s: Seq<char>)
    ensures
        forall|i: int| 0 <= i < s.len() - trim_start(s).len() ==> #[trigger] is_white_space(s[i]),
    decreases s.len(),
{
    if s.len() > 0 && is_white_space(s[0]) {
        lemma_trim_start_drops_white_space(s.drop_first());
        assert forall|i: int| 0 <= i < s.len() - trim_start(s).len() implies #[trigger] is_white_space(
            s[i],
        ) by {
            if i > 0 {
                assert(s[i] == s.drop_first()[i - 1]);
            }
        }
    }
}

/// Every character after the part that trimming the end keeps is white space.
proof fn lemma_trim_end_drops_white_space(s: Seq<char>)
    ensures
        forall|i: int| trim_end(s).len() <= i < s.len() ==> #[trigger] is_white_space(s[i]),
    decreases s.len(),
{
    if s.len() > 0 && is_white_space(s.last()) {
        lemma_trim_end_drops_white_space(s.drop_last());
        lemma_trim_end(s.drop_last());
        assert forall|i: int| trim_end(s).len() <= i < s.len() implies #[trigger] is_white_space(
            s[i],
        ) by {
            if i < s.len() - 1 {
                assert(s[i] == s.drop_last()[i]);
            }
        }
    }
}

/// Trimming keeps one contiguous part of `s`: what comes before it and after it is
/// all white space, and the part begins and ends with characters that are not.
pub proof fn law_trimmed(s: Seq<char>)
    ensures
        exists|a: int, b: int|
            {
                &&& 0 <= a <= b <= s.len()
                &&& trimmed(s) == s.subrange(a, b)
                &&& forall|i: int| 0 <= i < a ==> #[trigger] is_white_space(s[i])
                &&& forall|i: int| b <= i < s.len() ==> #[trigger] is_white_space(s[i])
                &&& a < b ==> !is_white_space(s[a]) && !is_white_space(s[b - 1])
            },
{
    lemma_trim_start(s);
    lemma_trim_start_drops_white_space(s);
    let f = trim_start(s);
    let a = s.len() - f.len();
    lemma_trim_end(f);
    lemma_trim_end_drops_white_space(f);
    let t = trim_end(f);
    let b = a + t.len();
    assert(f == s.subrange(a, s.len() as int));
    assert(t == f.subrange(0, t.len() as int));
    assert(trimmed(s) =~= s.subrange(a, b));
    assert forall|i: int| b <= i < s.len() implies #[trigger] is_white_space(s[i]) by {
        assert(s[i] == f[i - a]);
    }
    if a < b {
        assert(s[a] == f[0]);
        assert(s[b - 1] == t.last());
        if t.len() > 0 {
            assert(t[0] == f[0]);
        }
    }
    assert(0 <= a <= b <= s.len());
}

} // verus!
