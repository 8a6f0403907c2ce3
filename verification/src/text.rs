//! Text helpers with contracts over the characters of a string.
use vstd::arithmetic::power::{lemma_pow0, lemma_pow1, lemma_pow_adds, pow};
use vstd::prelude::*;
use vstd::string::*;

verus! {

/// The characters with the Unicode property `White_Space`.
pub open spec fn is_space(c: char) -> bool {
    ||| '\u{9}' <= c <= '\u{d}'
    ||| c == ' '
    ||| c == '\u{85}'
    ||| c == '\u{a0}'
    ||| c == '\u{1680}'
    ||| '\u{2000}' <= c <= '\u{200a}'
    ||| c == '\u{2028}'
    ||| c == '\u{2029}'
    ||| c == '\u{202f}'
    ||| c == '\u{205f}'
    ||| c == '\u{3000}'
}

/// `s` without its leading white space.
pub open spec fn trimmed_start(s: Seq<char>) -> Seq<char>
    decreases s.len(),
{
    if s.len() > 0 && is_space(s[0]) {
        trimmed_start(s.drop_first())
    } else {
        s
    }
}

/// `s` without its trailing white space.
pub open spec fn trimmed_end(s: Seq<char>) -> Seq<char>
    decreases s.len(),
{
    if s.len() > 0 && is_space(s.last()) {
        trimmed_end(s.drop_last())
    } else {
        s
    }
}

/// `s` without the white space at either end.
pub open spec fn trimmed(s: Seq<char>) -> Seq<char> {
    trimmed_end(trimmed_start(s))
}

/// `s` begins with `prefix`.
pub open spec fn begins_with(s: Seq<char>, prefix: Seq<char>) -> bool {
    prefix.len() <= s.len() && s.take(prefix.len() as int) == prefix
}

/// The pieces of `s` between the occurrences of `sep`, in order: one more than
/// `sep` occurs.
pub open spec fn pieces(s: Seq<char>, sep: char) -> Seq<Seq<char>>
    decreases s.len(),
{
    if s.contains(sep) {
        let at = s.index_of_first(sep)->0;
        proof {
            s.index_of_first_ensures(sep);
        }
        seq![s.take(at)] + pieces(s.skip(at + 1), sep)
    } else {
        seq![s]
    }
}

/// The views of a sequence of strings.
pub open spec fn texts(v: Seq<String>) -> Seq<Seq<char>> {
    v.map_values(|s: String| s@)
}

/// A decimal digit.
pub open spec fn is_digit(c: char) -> bool {
    '0' <= c <= '9'
}

/// The number that a row of decimal digits stands for.
pub open spec fn digits_value(s: Seq<char>) -> nat
    decreases s.len(),
{
    if s.len() == 0 {
        0
    } else {
        (digits_value(s.drop_last()) * 10 + (s.last() as int - '0' as int)) as nat
    }
}

/// `s` without one leading plus sign.
pub open spec fn without_plus(s: Seq<char>) -> Seq<char> {
    if s.len() > 0 && s[0] == '+' {
        s.skip(1)
    } else {
        s
    }
}

/// The number that `s` writes: an optional plus sign, then one or more decimal
/// digits and nothing else. `None` for any other text, and for a number that
/// does not fit.
pub open spec fn number_in(s: Seq<char>) -> Option<u64> {
    let d = without_plus(s);
    if d.len() > 0 && (forall|i: int| 0 <= i < d.len() ==> is_digit(#[trigger] d[i]))
        && digits_value(d) <= u64::MAX {
        Some(digits_value(d) as u64)
    } else {
        None
    }
}

/// The digit for a number below ten.
pub open spec fn digit_char(d: nat) -> char {
    ('0' as nat + d) as char
}

/// `n` in decimal, without leading zeros.
pub open spec fn decimal_text(n: nat) -> Seq<char>
    decreases n,
{
    if n < 10 {
        seq![digit_char(n)]
    } else {
        decimal_text(n / 10).push(digit_char(n % 10))
    }
}

/// `n` in decimal, filled up on the left with zeros to at least `width` digits.
pub open spec fn padded_text(n: nat, width: nat) -> Seq<char> {
    let t = decimal_text(n);
    if t.len() < width {
        Seq::new((width - t.len()) as nat, |i: int| '0') + t
    } else {
        t
    }
}

/// A row of digits is worth at least as much as the row before its last ones.
proof fn lemma_digits_value_grows(s: Seq<char>, n: int)
    requires
        0 <= n <= s.len(),
        forall|i: int| 0 <= i < s.len() ==> is_digit(#[trigger] s[i]),
    ensures
        digits_value(s.take(n)) <= digits_value(s),
    decreases s.len() - n,
{
    if n < s.len() {
        lemma_digits_value_grows(s, n + 1);
        assert(s.take(n + 1).drop_last() == s.take(n));
        assert(is_digit(s[n]));
    } else {
        assert(s.take(n) == s);
    }
}

/// Reads an unsigned decimal number, as `number_in` says.
pub fn parse_number(s: &str) -> (r: Option<u64>)
    ensures
        r == number_in(s@),
{
    let n: usize = s.unicode_len();
    let start: usize = if n > 0 && s.get_char(0) == '+' {
        1
    } else {
        0
    };
    let ghost d = without_plus(s@);
    assert(d == s@.skip(start as int));
    if start == n {
        return None;
    }
    let mut i: usize = start;
    let mut value: u64 = 0;
    assert(d.take(0) == Seq::<char>::empty());
    while i < n
        invariant
            n == s@.len(),
            start <= i <= n,
            start < n,
            d == without_plus(s@),
            d == s@.skip(start as int),
            forall|j: int| 0 <= j < i - start ==> is_digit(#[trigger] d[j]),
            value == digits_value(d.take(i - start)),
        decreases n - i,
    {
        let c: char = s.get_char(i);
        let ghost k = i - start;
        assert(d[k] == c);
        if !('0' <= c && c <= '9') {
            return None;
        }
        let digit: u64 = c as u64 - '0' as u64;
        assert(d.take(k + 1).drop_last() == d.take(k));
        assert(digits_value(d.take(k + 1)) == value * 10 + digit);
        if value > (u64::MAX - digit) / 10 {
            proof {
                if forall|j: int| 0 <= j < d.len() ==> is_digit(#[trigger] d[j]) {
                    lemma_digits_value_grows(d, k + 1);
                }
            }
            return None;
        }
        value = value * 10 + digit;
        i = i + 1;
    }
    assert(d.take(n - start) == d);
    Some(value)
}

fn digit(d: u64) -> (r: &'static str)
    requires
        d < 10,
    ensures
        r@ == seq![digit_char(d as nat)],
{
    proof {
        reveal_strlit("0");
        reveal_strlit("1");
        reveal_strlit("2");
        reveal_strlit("3");
        reveal_strlit("4");
        reveal_strlit("5");
        reveal_strlit("6");
        reveal_strlit("7");
        reveal_strlit("8");
        reveal_strlit("9");
    }
    let r: &'static str = match d {
        0 => "0",
        1 => "1",
        2 => "2",
        3 => "3",
        4 => "4",
        5 => "5",
        6 => "6",
        7 => "7",
        8 => "8",
        _ => "9",
    };
    assert(r@ =~= seq![digit_char(d as nat)]);
    r
}

/// Writes `n` in decimal.
pub fn decimal(n: u64) -> (r: String)
    ensures
        r@ == decimal_text(n as nat),
    decreases n,
{
    if n < 10 {
        digit(n).to_owned()
    } else {
        let mut s: String = decimal(n / 10);
        let ghost front = s@;
        s.append(digit(n % 10));
        assert(s@ == front.push(digit_char((n % 10) as nat)));
        s
    }
}

/// Writes `n` in decimal with at least `width` digits.
pub fn padded(n: u64, width: usize) -> (r: String)
    ensures
        r@ == padded_text(n as nat, width as nat),
{
    let number: String = decimal(n);
    let len: usize = number.as_str().unicode_len();
    let mut out: String = String::new();
    let mut i: usize = len;
    while i < width
        invariant
            len == number@.len(),
            i >= len,
            i <= width || i == len,
            out@ == Seq::new((i - len) as nat, |j: int| '0'),
        decreases width - i,
    {
        proof {
            reveal_strlit("0");
        }
        out.append("0");
        i = i + 1;
        assert(out@ =~= Seq::new((i - len) as nat, |j: int| '0'));
    }
    out.append(number.as_str());
    assert(out@ =~= padded_text(n as nat, width as nat));
    out
}

fn space(c: char) -> (r: bool)
    ensures
        r == is_space(c),
{
    ('\u{9}' <= c && c <= '\u{d}') || c == ' ' || c == '\u{85}' || c == '\u{a0}' || c == '\u{1680}'
        || ('\u{2000}' <= c && c <= '\u{200a}') || c == '\u{2028}' || c == '\u{2029}' || c
        == '\u{202f}' || c == '\u{205f}' || c == '\u{3000}'
}

/// Whether two strings hold the same characters.
pub fn same_text(a: &str, b: &str) -> (r: bool)
    ensures
        r == (a@ == b@),
{
    a.to_owned() == b.to_owned()
}

/// Whether `s` begins with `prefix`.
pub fn has_prefix(s: &str, prefix: &str) -> (r: bool)
    ensures
        r == begins_with(s@, prefix@),
{
    let n: usize = prefix.unicode_len();
    n <= s.unicode_len() && same_text(s.substring_char(0, n), prefix)
}

/// Removes the white space at the front of `s`.
pub fn trim_start(s: &str) -> (r: &str)
    ensures
        r@ == trimmed_start(s@),
{
    let n: usize = s.unicode_len();
    let mut i: usize = 0;
    assert(s@.skip(0) == s@);
    while i < n && space(s.get_char(i))
        invariant
            n == s@.len(),
            i <= n,
            trimmed_start(s@) == trimmed_start(s@.skip(i as int)),
        decreases n - i,
    {
        assert(s@.skip(i as int).drop_first() == s@.skip(i + 1));
        i = i + 1;
    }
    assert(s@.subrange(i as int, n as int) == s@.skip(i as int));
    s.substring_char(i, n)
}

/// Removes the white space at both ends of `s`.
pub fn trim(s: &str) -> (r: &str)
    ensures
        r@ == trimmed(s@),
{
    let t: &str = trim_start(s);
    let mut n: usize = t.unicode_len();
    assert(t@.take(n as int) == t@);
    while n > 0 && space(t.get_char(n - 1))
        invariant
            n <= t@.len(),
            trimmed_end(t@) == trimmed_end(t@.take(n as int)),
        decreases n,
    {
        assert(t@.take(n as int).drop_last() == t@.take(n - 1));
        n = n - 1;
    }
    assert(t@.subrange(0, n as int) == t@.take(n as int));
    t.substring_char(0, n)
}

/// The position of the first `c` in `s`.
pub fn find(s: &str, c: char) -> (r: Option<usize>)
    ensures
        r is Some <==> s@.contains(c),
        r matches Some(i) ==> i < s@.len() && s@.index_of_first(c) == Some(i as int),
{
    let n: usize = s.unicode_len();
    let mut i: usize = 0;
    while i < n
        invariant
            n == s@.len(),
            i <= n,
            forall|j: int| 0 <= j < i ==> s@[j] != c,
        decreases n - i,
    {
        if s.get_char(i) == c {
            proof {
                s@.index_of_first_ensures(c);
            }
            return Some(i);
        }
        i = i + 1;
    }
    None
}

/// The pieces of `s` between the occurrences of `sep`.
pub fn split<'a>(s: &'a str, sep: char) -> (r: Vec<&'a str>)
    ensures
        r@.map_values(|p: &str| p@) == pieces(s@, sep),
{
    let mut out: Vec<&'a str> = Vec::new();
    let mut rest: &'a str = s;
    assert(out@.map_values(|p: &str| p@) + pieces(rest@, sep) == pieces(s@, sep));
    loop
        invariant_except_break
            out@.map_values(|p: &str| p@) + pieces(rest@, sep) == pieces(s@, sep),
        ensures
            out@.map_values(|p: &str| p@) == pieces(s@, sep),
        decreases rest@.len(),
    {
        let n: usize = rest.unicode_len();
        let ghost before = out@.map_values(|p: &str| p@);
        match find(rest, sep) {
            Some(at) => {
                let head: &'a str = rest.substring_char(0, at);
                let tail: &'a str = rest.substring_char(at + 1, n);
                proof {
                    assert(head@ == rest@.take(at as int));
                    assert(tail@ == rest@.skip(at + 1));
                    assert(out@.push(head).map_values(|p: &str| p@) == before.push(head@));
                    assert(before.push(head@) + pieces(tail@, sep) == before + (seq![head@]
                        + pieces(tail@, sep)));
                }
                out.push(head);
                rest = tail;
            },
            None => {
                proof {
                    assert(out@.push(rest).map_values(|p: &str| p@) == before + seq![rest@]);
                }
                out.push(rest);
                break ;
            },
        }
    }
    out
}

/// The white space at the front is skipped, and nothing else.
pub proof fn law_leading_space_is_skipped(front: Seq<char>, rest: Seq<char>)
    requires
        forall|i: int| 0 <= i < front.len() ==> is_space(#[trigger] front[i]),
        rest.len() > 0 ==> !is_space(rest[0]),
    ensures
        trimmed_start(front + rest) == rest,
    decreases front.len(),
{
    if front.len() > 0 {
        assert((front + rest)[0] == front[0]);
        assert((front + rest).drop_first() == front.drop_first() + rest);
        law_leading_space_is_skipped(front.drop_first(), rest);
    } else {
        assert(front + rest == rest);
    }
}

proof fn lemma_end_is_trimmed(rest: Seq<char>, back: Seq<char>)
    requires
        forall|i: int| 0 <= i < back.len() ==> is_space(#[trigger] back[i]),
        rest.len() > 0 ==> !is_space(rest.last()),
    ensures
        trimmed_end(rest + back) == rest,
    decreases back.len(),
{
    if back.len() > 0 {
        assert((rest + back).last() == back.last());
        assert((rest + back).drop_last() == rest + back.drop_last());
        lemma_end_is_trimmed(rest, back.drop_last());
    } else {
        assert(rest + back == rest);
    }
}

/// Trimming takes the white space at both ends and nothing else: put any
/// white space around a text that has none at its ends, and trimming gives
/// the text back.
pub proof fn law_trimming_undoes_padding(front: Seq<char>, text: Seq<char>, back: Seq<char>)
    requires
        forall|i: int| 0 <= i < front.len() ==> is_space(#[trigger] front[i]),
        forall|i: int| 0 <= i < back.len() ==> is_space(#[trigger] back[i]),
        text.len() > 0 ==> !is_space(text[0]) && !is_space(text.last()),
    ensures
        trimmed(front + text + back) == text,
        text.len() > 0 ==> trimmed_start(front + text + back) == text + back,
{
    if text.len() > 0 {
        assert(front + text + back == front + (text + back));
        assert((text + back)[0] == text[0]);
        law_leading_space_is_skipped(front, text + back);
        lemma_end_is_trimmed(text, back);
    } else {
        let all = front + back;
        assert(front + text + back == all + Seq::<char>::empty());
        assert forall|i: int| 0 <= i < all.len() implies is_space(#[trigger] all[i]) by {
            if i < front.len() {
                assert(all[i] == front[i]);
            } else {
                assert(all[i] == back[i - front.len()]);
            }
        }
        law_leading_space_is_skipped(all, Seq::<char>::empty());
        assert(text == Seq::<char>::empty());
    }
}

/// The characters that are trimmed are those of the Unicode property
/// `White_Space`; no printing character of ASCII is one of them.
pub proof fn law_printing_characters_are_kept(c: char)
    requires
        '!' <= c <= '~',
    ensures
        !is_space(c),
        trimmed(seq![c]) == seq![c],
{
    law_trimming_undoes_padding(Seq::empty(), seq![c], Seq::empty());
    assert(Seq::<char>::empty() + seq![c] + Seq::<char>::empty() == seq![c]);
}

/// A text begins with a prefix if and only if it is the prefix and then
/// something.
pub proof fn law_prefix_comes_first(s: Seq<char>, prefix: Seq<char>)
    ensures
        begins_with(prefix + s, prefix),
        begins_with(s, prefix) <==> exists|rest: Seq<char>| s == #[trigger] (prefix + rest),
{
    assert((prefix + s).take(prefix.len() as int) == prefix);
    if begins_with(s, prefix) {
        assert(s == prefix + s.skip(prefix.len() as int));
    }
    if exists|rest: Seq<char>| s == #[trigger] (prefix + rest) {
        let rest = choose|rest: Seq<char>| s == #[trigger] (prefix + rest);
        assert((prefix + rest).take(prefix.len() as int) == prefix);
    }
}

/// The texts one after the other, with `sep` between each two.
pub open spec fn joined(parts: Seq<Seq<char>>, sep: char) -> Seq<char>
    decreases parts.len(),
{
    if parts.len() == 0 {
        Seq::empty()
    } else if parts.len() == 1 {
        parts[0]
    } else {
        parts[0] + seq![sep] + joined(parts.drop_first(), sep)
    }
}

/// Splitting undoes joining: put any texts without the separator together with
/// a separator between each two, and splitting gives them back, in order.
pub proof fn law_splitting_undoes_joining(parts: Seq<Seq<char>>, sep: char)
    requires
        parts.len() > 0,
        forall|i: int| 0 <= i < parts.len() ==> !(#[trigger] parts[i]).contains(sep),
    ensures
        pieces(joined(parts, sep), sep) == parts,
    decreases parts.len(),
{
    let s = joined(parts, sep);
    assert(!parts[0].contains(sep));
    if parts.len() == 1 {
        assert(seq![parts[0]] == parts);
    } else {
        let rest = parts.drop_first();
        let at = parts[0].len() as int;
        assert forall|i: int| 0 <= i < rest.len() implies !(#[trigger] rest[i]).contains(sep) by {
            assert(rest[i] == parts[i + 1]);
        }
        law_splitting_undoes_joining(rest, sep);
        assert(s[at] == sep);
        assert(s.contains(sep));
        s.index_of_first_ensures(sep);
        let first = s.index_of_first(sep)->0;
        if first < at {
            assert(parts[0][first] == s[first]);
        }
        assert(first == at);
        assert(s.take(at) == parts[0]);
        assert(s.skip(at + 1) == joined(rest, sep));
        assert(seq![parts[0]] + rest == parts);
    }
}

/// Joining undoes splitting, and no piece holds the separator.
pub proof fn law_joining_undoes_splitting(s: Seq<char>, sep: char)
    ensures
        joined(pieces(s, sep), sep) == s,
        pieces(s, sep).len() > 0,
        forall|i: int| 0 <= i < pieces(s, sep).len() ==> !(#[trigger] pieces(s, sep)[i]).contains(sep),
    decreases s.len(),
{
    if s.contains(sep) {
        s.index_of_first_ensures(sep);
        let at = s.index_of_first(sep)->0;
        let rest = s.skip(at + 1);
        law_joining_undoes_splitting(rest, sep);
        let all = pieces(s, sep);
        assert(all == seq![s.take(at)] + pieces(rest, sep));
        assert(all.drop_first() == pieces(rest, sep));
        assert(s == s.take(at) + seq![sep] + rest);
        assert forall|i: int| 0 <= i < all.len() implies !(#[trigger] all[i]).contains(sep) by {
            if i == 0 {
                assert forall|j: int| 0 <= j < at implies #[trigger] s.take(at)[j] != sep by {
                    assert(s.take(at)[j] == s[j]);
                }
            } else {
                assert(all[i] == pieces(rest, sep)[i - 1]);
            }
        }
    }
}

/// Each digit counts ten times what it would count one place further right.
pub proof fn law_digits_count_by_place(a: Seq<char>, b: Seq<char>, c: char)
    requires
        forall|i: int| 0 <= i < a.len() ==> '0' <= #[trigger] a[i] <= '9',
        forall|i: int| 0 <= i < b.len() ==> '0' <= #[trigger] b[i] <= '9',
        '0' <= c <= '9',
    ensures
        digits_value(seq![c]) == c as int - '0' as int,
        digits_value(a + b) == digits_value(a) * pow(10, b.len()) + digits_value(b),
    decreases b.len(),
{
    assert(seq![c].drop_last() == Seq::<char>::empty());
    assert(digits_value(Seq::<char>::empty()) == 0);
    if b.len() == 0 {
        assert(a + b == a);
        lemma_pow0(10);
    } else {
        let front = b.drop_last();
        law_digits_count_by_place(a, front, c);
        assert((a + b).drop_last() == a + front);
        assert((a + b).last() == b.last());
        lemma_pow1(10);
        lemma_pow_adds(10, front.len(), 1);
        let value = digits_value(a) as int;
        let place = pow(10, front.len());
        assert(value * (place * 10) == (value * place) * 10) by (nonlinear_arith);
        assert('0' <= b[b.len() - 1] <= '9');
    }
}

/// A number in decimal is written with digits only, without a leading zero,
/// and its digits add up to it.
pub proof fn law_decimal_adds_up(n: nat)
    ensures
        decimal_text(n).len() > 0,
        forall|i: int| 0 <= i < decimal_text(n).len() ==> '0' <= #[trigger] decimal_text(n)[i] <= '9',
        n > 0 ==> decimal_text(n)[0] != '0',
        n == 0 ==> decimal_text(n) == seq!['0'],
        digits_value(decimal_text(n)) == n,
    decreases n,
{
    let t = decimal_text(n);
    if n < 10 {
        assert(t.drop_last() == Seq::<char>::empty());
        assert(digits_value(Seq::<char>::empty()) == 0);
    } else {
        law_decimal_adds_up(n / 10);
        assert(t.drop_last() == decimal_text(n / 10));
        assert(t[0] == decimal_text(n / 10)[0]);
        assert forall|i: int| 0 <= i < t.len() implies '0' <= #[trigger] t[i] <= '9' by {
            if i < t.len() - 1 {
                assert(t[i] == decimal_text(n / 10)[i]);
            }
        }
    }
}

/// Every number reads back as what was written, with or without a plus sign
/// and zeros before it; a number that does not fit does not read.
pub proof fn law_numbers_read_back(n: nat, zeros: nat, plus: bool)
    ensures
        ({
            let sign = if plus {
                seq!['+']
            } else {
                Seq::empty()
            };
            number_in(sign + Seq::new(zeros, |i: int| '0') + decimal_text(n)) == if n
                <= 18_446_744_073_709_551_615 {
                Some(n as u64)
            } else {
                None
            }
        }),
{
    let fill = Seq::new(zeros, |i: int| '0');
    let sign = if plus {
        seq!['+']
    } else {
        Seq::empty()
    };
    let text = sign + fill + decimal_text(n);
    law_decimal_adds_up(n);
    law_digits_count_by_place(fill, decimal_text(n), '0');
    lemma_zeros_count_nothing(zeros);
    let d = fill + decimal_text(n);
    assert forall|i: int| 0 <= i < d.len() implies '0' <= #[trigger] d[i] <= '9' by {
        if i >= zeros {
            assert(d[i] == decimal_text(n)[i - zeros]);
        }
    }
    assert(0 * pow(10, decimal_text(n).len()) == 0);
    if plus {
        assert(text.skip(1) == d);
    } else {
        assert(text == d);
        assert('0' <= d[0] <= '9');
    }
    assert(without_plus(text) == d);
}

proof fn lemma_zeros_count_nothing(zeros: nat)
    ensures
        digits_value(Seq::new(zeros, |i: int| '0')) == 0,
    decreases zeros,
{
    let fill = Seq::new(zeros, |i: int| '0');
    if zeros > 0 {
        lemma_zeros_count_nothing((zeros - 1) as nat);
        assert(fill.drop_last() == Seq::new((zeros - 1) as nat, |i: int| '0'));
    }
}

/// Nothing but digits, after at most one plus sign, reads as a number; and
/// there has to be a digit.
pub proof fn law_other_texts_are_no_numbers(s: Seq<char>, at: int)
    requires
        s.len() == 0 || s == seq!['+'] || (0 <= at < s.len() && !('0' <= s[at] <= '9') && !(at == 0
            && s[0] == '+')),
    ensures
        number_in(s) is None,
{
    if s.len() > 0 && s != seq!['+'] {
        let d = without_plus(s);
        if s[0] == '+' {
            assert(d[at - 1] == s[at]);
        } else {
            assert(d[at] == s[at]);
        }
    }
}

/// Padding puts zeros before the number, as many as are needed to reach the
/// width, and none if it is reached.
pub proof fn law_padding_fills_the_width(n: nat, width: nat)
    ensures
        ({
            let bare = decimal_text(n);
            let filled = padded_text(n, width);
            &&& filled.len() == if bare.len() < width {
                width
            } else {
                bare.len()
            }
            &&& filled.skip(filled.len() - bare.len()) == bare
            &&& forall|i: int| 0 <= i < filled.len() - bare.len() ==> #[trigger] filled[i] == '0'
        }),
{
    let bare = decimal_text(n);
    let filled = padded_text(n, width);
    assert(filled.skip(filled.len() - bare.len()) =~= bare);
}

} // verus!
