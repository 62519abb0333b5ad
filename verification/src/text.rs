//! Character-level text helpers: comparing, searching and writing strings.
use vstd::prelude::*;

verus! {

/// Whether `part` stands in `s` starting at position `k`.
pub open spec fn occurs_at(s: Seq<char>, part: Seq<char>, k: int) -> bool {
    &&& 0 <= k <= s.len() - part.len()
    &&& s.subrange(k, k + part.len()) == part
}

/// Whether `s` starts with `part`.
pub open spec fn has_prefix(s: Seq<char>, part: Seq<char>) -> bool {
    occurs_at(s, part, 0)
}

/// Whether `s` ends with `part`.
pub open spec fn has_suffix(s: Seq<char>, part: Seq<char>) -> bool {
    occurs_at(s, part, s.len() - part.len())
}

/// Whether `part` stands anywhere in `s`.
pub open spec fn has_part(s: Seq<char>, part: Seq<char>) -> bool {
    exists|k: int| occurs_at(s, part, k)
}

/// `String::push` appends one character.
pub assume_specification[ String::push ](s: &mut String, ch: char)
    ensures
        final(s)@ == old(s)@.push(ch),
;

/// Copies the characters of `s` into a vector.
pub fn chars_of(s: &str) -> (r: Vec<char>)
    ensures
        r@ == s@,
{
    let mut out: Vec<char> = Vec::new();
    for c in it: s.chars()
        invariant
            out@ == it.seq().take(it.index()),
            it.seq() == s@,
    {
        out.push(c);
    }
    out
}

/// Copies the characters `from..to` into a string.
pub fn string_of(chars: &Vec<char>, from: usize, to: usize) -> (r: String)
    requires
        from <= to <= chars.len(),
    ensures
        r@ == chars@.subrange(from as int, to as int),
{
    let mut out = String::new();
    let mut i: usize = from;
    while i < to
        invariant
            from <= i <= to <= chars.len(),
            out@ == chars@.subrange(from as int, i as int),
        decreases to - i,
    {
        out.push(chars[i]);
        i += 1;
    }
    out
}

/// Tests whether `part` stands in `s` at position `k`.
fn found_at(s: &Vec<char>, part: &Vec<char>, k: usize) -> (r: bool)
    ensures
        r == occurs_at(s@, part@, k as int),
{
    if part.len() > s.len() || k > s.len() - part.len() {
        return false;
    }
    let mut i: usize = 0;
    while i < part.len()
        invariant
            i <= part.len() <= s.len(),
            k <= s.len() - part.len(),
            forall|j: int| 0 <= j < i ==> s@[k + j] == part@[j],
        decreases part.len() - i,
    {
        if s[k + i] != part[i] {
            assert(s@.subrange(k as int, k + part@.len())[i as int] == s@[k + i]);
            return false;
        }
        i += 1;
    }
    assert(s@.subrange(k as int, k + part@.len()) =~= part@);
    true
}

/// Compares two strings.
pub fn same_text(a: &str, b: &str) -> (r: bool)
    ensures
        r == (a@ == b@),
{
    let x = chars_of(a);
    let y = chars_of(b);
    if x.len() != y.len() {
        return false;
    }
    let r = found_at(&x, &y, 0);
    assert(x@.subrange(0, y@.len() as int) =~= x@);
    r
}

/// Tests for a prefix.
pub fn starts_with(s: &str, part: &str) -> (r: bool)
    ensures
        r == has_prefix(s@, part@),
{
    found_at(&chars_of(s), &chars_of(part), 0)
}

/// Tests for a suffix.
pub fn ends_with(s: &str, part: &str) -> (r: bool)
    ensures
        r == has_suffix(s@, part@),
{
    let x = chars_of(s);
    let y = chars_of(part);
    if y.len() > x.len() {
        return false;
    }
    found_at(&x, &y, x.len() - y.len())
}

/// Tests whether `part` stands anywhere in `s`.
pub fn contains(s: &str, part: &str) -> (r: bool)
    ensures
        r == has_part(s@, part@),
{
    let x = chars_of(s);
    let y = chars_of(part);
    if y.len() > x.len() {
        return false;
    }
    let last: usize = x.len() - y.len();
    let mut k: usize = 0;
    while k <= last
        invariant
            k <= last + 1,
            last == x.len() - y.len(),
            x@ == s@,
            y@ == part@,
            forall|j: int| 0 <= j < k ==> !occurs_at(s@, part@, j),
        decreases last + 1 - k,
    {
        if found_at(&x, &y, k) {
            return true;
        }
        if k == last {
            return false;
        }
        k += 1;
    }
    false
}

/// The character that stands for a digit.
pub open spec fn digit(d: nat) -> char {
    (48 + d) as char
}

/// A number in decimal notation, without leading zeros.
pub open spec fn decimal(n: nat) -> Seq<char>
    decreases n,
{
    if n < 10 {
        seq![digit(n)]
    } else {
        decimal(n / 10).push(digit(n % 10))
    }
}

/// The number that a sequence of decimal digits denotes.
pub open spec fn decimal_value(s: Seq<char>) -> int
    decreases s.len(),
{
    if s.len() == 0 {
        0
    } else {
        10 * decimal_value(s.drop_last()) + (s.last() as int - 48)
    }
}

/// Reading the decimal notation of a number gives the number back.
pub proof fn decimal_reads_back(n: nat)
    ensures
        decimal_value(decimal(n)) == n,
    decreases n,
{
    reveal_with_fuel(decimal_value, 2);
    if n < 10 {
        assert(decimal(n).drop_last() =~= Seq::<char>::empty());
    } else {
        decimal_reads_back(n / 10);
        assert(decimal(n).drop_last() =~= decimal(n / 10));
    }
}

/// Writes one digit.
fn digit_char(d: u64) -> (r: char)
    requires
        d < 10,
    ensures
        r == digit(d as nat),
{
    match d {
        0 => '0',
        1 => '1',
        2 => '2',
        3 => '3',
        4 => '4',
        5 => '5',
        6 => '6',
        7 => '7',
        8 => '8',
        _ => '9',
    }
}

/// Appends a number in decimal notation.
pub fn push_decimal(out: &mut String, n: u64)
    ensures
        final(out)@ == old(out)@ + decimal(n as nat),
    decreases n,
{
    if n < 10 {
        out.push(digit_char(n));
    } else {
        push_decimal(out, n / 10);
        out.push(digit_char(n % 10));
    }
    assert(out@ =~= old(out)@ + decimal(n as nat));
}

/// Writes a number in decimal notation.
pub fn decimal_text(n: u64) -> (r: String)
    ensures
        r@ == decimal(n as nat),
{
    let mut out = String::new();
    push_decimal(&mut out, n);
    assert(out@ =~= decimal(n as nat));
    out
}

/// A text starts with `part` exactly if it is `part` and something after it.
pub proof fn prefix_comes_first(s: Seq<char>, part: Seq<char>)
    ensures
        has_prefix(s, part) <==> part.is_prefix_of(s),
        has_prefix(s, part) <==> exists|rest: Seq<char>| s == #[trigger] (part + rest),
{
    if has_prefix(s, part) {
        assert(s =~= part + s.skip(part.len() as int));
    }
    if exists|rest: Seq<char>| s == #[trigger] (part + rest) {
        let rest = choose|rest: Seq<char>| s == #[trigger] (part + rest);
        assert(s.subrange(0, part.len() as int) =~= part);
    }
}

/// A text ends with `part` exactly if it is `part` and something before it.
pub proof fn suffix_comes_last(s: Seq<char>, part: Seq<char>)
    ensures
        has_suffix(s, part) <==> part.is_suffix_of(s),
        has_suffix(s, part) <==> exists|rest: Seq<char>| s == #[trigger] (rest + part),
{
    if has_suffix(s, part) {
        assert(s =~= s.take(s.len() - part.len()) + part);
    }
    if exists|rest: Seq<char>| s == #[trigger] (rest + part) {
        let rest = choose|rest: Seq<char>| s == #[trigger] (rest + part);
        assert(s.subrange(s.len() - part.len(), s.len() as int) =~= part);
    }
}

/// A text has `part` in it exactly if it is `part` and something on either side.
pub proof fn part_has_two_sides(s: Seq<char>, part: Seq<char>)
    ensures
        has_part(s, part) <==> exists|a: Seq<char>, b: Seq<char>| s == #[trigger] (a + part + b),
{
    if has_part(s, part) {
        let k = choose|k: int| occurs_at(s, part, k);
        assert(s =~= s.take(k) + part + s.skip(k + part.len()));
    }
    if exists|a: Seq<char>, b: Seq<char>| s == #[trigger] (a + part + b) {
        let (a, b) = choose|a: Seq<char>, b: Seq<char>| s == #[trigger] (a + part + b);
        let k = a.len() as int;
        assert(s.subrange(k, k + part.len()) =~= part);
        assert(occurs_at(s, part, k));
    }
}

/// The four tests on texts tell what they are named after.
pub proof fn text_tests_tell(s: &str, part: &str, same: bool, first: bool, last: bool, within: bool)
    requires
        call_ensures(same_text, (s, part), same),
        call_ensures(starts_with, (s, part), first),
        call_ensures(ends_with, (s, part), last),
        call_ensures(contains, (s, part), within),
    ensures
        same == (s@ == part@),
        first == part@.is_prefix_of(s@),
        last == part@.is_suffix_of(s@),
        within <==> exists|a: Seq<char>, b: Seq<char>| s@ == #[trigger] (a + part@ + b),
{
    prefix_comes_first(s@, part@);
    suffix_comes_last(s@, part@);
    part_has_two_sides(s@, part@);
}

/// Decimal notation is made of digits, and starts with a zero only if it is that
/// of zero.
pub proof fn decimal_is_plain_digits(n: nat)
    ensures
        decimal(n).len() > 0,
        forall|i: int| 0 <= i < decimal(n).len() ==> '0' <= #[trigger] decimal(n)[i] <= '9',
        decimal(n)[0] == '0' ==> n == 0 && decimal(n).len() == 1,
    decreases n,
{
    if n >= 10 {
        decimal_is_plain_digits(n / 10);
        let s = decimal(n);
        assert forall|i: int| 0 <= i < s.len() implies '0' <= #[trigger] s[i] <= '9' by {
            if i < s.len() - 1 {
                assert(s[i] == decimal(n / 10)[i]);
            }
        }
        assert(s[0] == decimal(n / 10)[0]);
    }
}

/// Different numbers are written differently.
pub proof fn decimals_differ(m: nat, n: nat)
    ensures
        decimal(m) == decimal(n) ==> m == n,
{
    decimal_reads_back(m);
    decimal_reads_back(n);
}

/// The text of a number denotes it.
pub proof fn decimal_text_denotes_the_number(n: u64, r: String)
    requires
        call_ensures(decimal_text, (n,), r),
    ensures
        decimal_value(r@) == n,
        forall|i: int| 0 <= i < r@.len() ==> '0' <= #[trigger] r@[i] <= '9',
{
    decimal_reads_back(n as nat);
    decimal_is_plain_digits(n as nat);
}

} // verus!
