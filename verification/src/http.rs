//! The request line of an HTTP request and the text of a response.
use vstd::prelude::*;
use vstd::string::*;

use crate::text::{chars_of, push_decimal, string_of};

verus! {

/// The error of a failed `core::str::from_utf8`.
#[verifier::external_type_specification]
#[verifier::external_body]
pub struct ExUtf8Error(core::str::Utf8Error);

/// `core::str::from_utf8` succeeds on well-formed UTF-8 alone, and then gives
/// the characters that the bytes encode.
pub assume_specification<'a>[ core::str::from_utf8 ](v: &'a [u8]) -> (r: Result<
    &'a str,
    core::str::Utf8Error,
>)
    ensures
        r is Ok <==> vstd::utf8::valid_utf8(v@),
        r matches Ok(s) ==> s@ == vstd::utf8::decode_utf8(v@),
;

/// Whether a character has the Unicode property `White_Space`.
pub open spec fn white(c: char) -> bool {
    let u = c as u32;
    ||| 0x09 <= u <= 0x0d
    ||| u == 0x20
    ||| u == 0x85
    ||| u == 0xa0
    ||| u == 0x1680
    ||| 0x2000 <= u <= 0x200a
    ||| u == 0x2028
    ||| u == 0x2029
    ||| u == 0x202f
    ||| u == 0x205f
    ||| u == 0x3000
}

/// Tests a character for white space.
pub fn is_white(c: char) -> (r: bool)
    ensures
        r == white(c),
{
    let u: u32 = c as u32;
    (0x09 <= u && u <= 0x0d) || u == 0x20 || u == 0x85 || u == 0xa0 || u == 0x1680 || (0x2000 <= u
        && u <= 0x200a) || u == 0x2028 || u == 0x2029 || u == 0x202f || u == 0x205f || u == 0x3000
}

/// The number of characters before the first one that `stop` accepts.
pub open spec fn lead(s: Seq<char>, stop: spec_fn(char) -> bool) -> int
    decreases s.len(),
{
    if s.len() == 0 || stop(s[0]) {
        0
    } else {
        1 + lead(s.drop_first(), stop)
    }
}

/// Accepts white space.
pub open spec fn whites() -> spec_fn(char) -> bool {
    |c: char| white(c)
}

/// Accepts what is no white space.
pub open spec fn blacks() -> spec_fn(char) -> bool {
    |c: char| !white(c)
}

/// Accepts one character.
pub open spec fn only(x: char) -> spec_fn(char) -> bool {
    |c: char| c == x
}

/// The first line of a text, without its line ending (`\n` or `\r\n`).
pub open spec fn first_line(s: Seq<char>) -> Seq<char> {
    let n = lead(s, only('\n'));
    if 0 < n < s.len() && s[n - 1] == '\r' {
        s.take(n - 1)
    } else {
        s.take(n)
    }
}

/// A text from its first character on that is no white space.
pub open spec fn trimmed(s: Seq<char>) -> Seq<char> {
    s.skip(lead(s, blacks()))
}

/// What follows the first word of a text that starts with it.
pub open spec fn past_word(s: Seq<char>) -> Seq<char> {
    s.skip(lead(s, whites()))
}

/// The second of the words that white space separates.
pub open spec fn second_word(line: Seq<char>) -> Option<Seq<char>> {
    let rest = trimmed(past_word(trimmed(line)));
    if rest.len() == 0 {
        None
    } else {
        Some(rest.take(lead(rest, whites())))
    }
}

/// A request target up to its query.
pub open spec fn without_query(target: Seq<char>) -> Seq<char> {
    target.take(lead(target, only('?')))
}

/// The path that a request asks for: the second word of its first line, without
/// a query.
pub open spec fn request_path(text: Seq<char>) -> Option<Seq<char>> {
    match second_word(first_line(text)) {
        Some(target) => Some(without_query(target)),
        None => None,
    }
}

/// `lead` counts up to the first accepted character.
proof fn lead_is(s: Seq<char>, stop: spec_fn(char) -> bool, n: int)
    requires
        0 <= n <= s.len(),
        forall|i: int| 0 <= i < n ==> !stop(#[trigger] s[i]),
        n < s.len() ==> stop(s[n]),
    ensures
        lead(s, stop) == n,
    decreases s.len(),
{
    if n > 0 {
        assert(!stop(s[0]));
        let t = s.drop_first();
        assert forall|i: int| 0 <= i < n - 1 implies !stop(#[trigger] t[i]) by {
            assert(t[i] == s[i + 1]);
        }
        lead_is(t, stop, n - 1);
    }
}

/// Finds the first character of `chars[from..to]` that is white space, or that
/// is none.
fn find_white(chars: &Vec<char>, from: usize, to: usize, want: bool) -> (r: usize)
    requires
        from <= to <= chars@.len(),
    ensures
        from <= r <= to,
        r - from == lead(chars@.subrange(from as int, to as int), if want {
            whites()
        } else {
            blacks()
        }),
{
    let ghost s = chars@.subrange(from as int, to as int);
    let ghost stop = if want {
        whites()
    } else {
        blacks()
    };
    let mut i: usize = from;
    while i < to
        invariant
            from <= i <= to <= chars@.len(),
            s == chars@.subrange(from as int, to as int),
            stop == (if want {
                whites()
            } else {
                blacks()
            }),
            forall|j: int| 0 <= j < i - from ==> !stop(#[trigger] s[j]),
        decreases to - i,
    {
        assert(s[i - from] == chars@[i as int]);
        if is_white(chars[i]) == want {
            proof {
                lead_is(s, stop, i - from);
            }
            return i;
        }
        i += 1;
    }
    proof {
        lead_is(s, stop, to - from);
    }
    to
}

/// Finds the first `x` in `chars[from..to]`.
fn find_char(chars: &Vec<char>, from: usize, to: usize, x: char) -> (r: usize)
    requires
        from <= to <= chars@.len(),
    ensures
        from <= r <= to,
        r - from == lead(chars@.subrange(from as int, to as int), only(x)),
{
    let ghost s = chars@.subrange(from as int, to as int);
    let mut i: usize = from;
    while i < to
        invariant
            from <= i <= to <= chars@.len(),
            s == chars@.subrange(from as int, to as int),
            forall|j: int| 0 <= j < i - from ==> !only(x)(#[trigger] s[j]),
        decreases to - i,
    {
        assert(s[i - from] == chars@[i as int]);
        if chars[i] == x {
            proof {
                lead_is(s, only(x), i - from);
            }
            return i;
        }
        i += 1;
    }
    proof {
        lead_is(s, only(x), to - from);
    }
    to
}

/// Reads the path that a request asks for from the bytes that arrived first.
pub fn read_path(request: &[u8]) -> (r: Option<String>)
    ensures
        vstd::utf8::valid_utf8(request@) ==> match r {
            Some(path) => request_path(vstd::utf8::decode_utf8(request@)) == Some(path@),
            None => request_path(vstd::utf8::decode_utf8(request@)) is None,
        },
        !vstd::utf8::valid_utf8(request@) ==> r is None,
{
    let text = match core::str::from_utf8(request) {
        Ok(text) => text,
        Err(_) => return None,
    };
    let chars = chars_of(text);
    let all: usize = chars.len();
    assert(chars@.subrange(0, all as int) =~= chars@);
    let mut end: usize = find_char(&chars, 0, all, '\n');
    if 0 < end && end < all && chars[end - 1] == '\r' {
        end -= 1;
    }
    let ghost line = first_line(text@);
    assert(chars@.subrange(0, end as int) =~= line);
    let word: usize = find_white(&chars, 0, end, false);
    assert(chars@.subrange(word as int, end as int) =~= trimmed(line));
    let gap: usize = find_white(&chars, word, end, true);
    assert(chars@.subrange(gap as int, end as int) =~= past_word(trimmed(line)));
    let start: usize = find_white(&chars, gap, end, false);
    let ghost rest = chars@.subrange(start as int, end as int);
    assert(rest =~= trimmed(past_word(trimmed(line))));
    if start == end {
        return None;
    }
    let stop: usize = find_white(&chars, start, end, true);
    let ghost target = chars@.subrange(start as int, stop as int);
    assert(target =~= rest.take(lead(rest, whites())));
    let query: usize = find_char(&chars, start, stop, '?');
    let path = string_of(&chars, start, query);
    assert(path@ =~= without_query(target));
    Some(path)
}

/// The words that go with a status code.
pub open spec fn status_text(status: u16) -> Seq<char> {
    if status == 404 {
        "Not Found"@
    } else if status == 503 {
        "Service Unavailable"@
    } else {
        "OK"@
    }
}

/// The head of a response.
pub open spec fn response_head(status: u16, content_type: Seq<char>, length: nat) -> Seq<char> {
    "HTTP/1.1 "@ + crate::text::decimal(status as nat) + " "@ + status_text(status)
        + "\r\nContent-Type: "@ + content_type + "\r\nContent-Length: "@ + crate::text::decimal(
        length,
    ) + "\r\nConnection: close\r\n\r\n"@
}

/// A whole response. Its length is that of the body in bytes.
pub open spec fn response_text(status: u16, content_type: Seq<char>, body: Seq<char>) -> Seq<char> {
    response_head(status, content_type, vstd::utf8::encode_utf8(body).len()) + body
}

/// Writes a response.
pub fn write_response(status: u16, content_type: &str, body: &str) -> (r: String)
    ensures
        r@ == response_text(status, content_type@, body@),
{
    let words = match status {
        404 => "Not Found",
        503 => "Service Unavailable",
        _ => "OK",
    };
    let length: usize = body.as_bytes().len();
    let mut out = String::new();
    out.append("HTTP/1.1 ");
    push_decimal(&mut out, status as u64);
    out.append(" ");
    out.append(words);
    out.append("\r\nContent-Type: ");
    out.append(content_type);
    out.append("\r\nContent-Length: ");
    push_decimal(&mut out, length as u64);
    out.append("\r\nConnection: close\r\n\r\n");
    assert(out@ =~= response_head(status, content_type@, length as nat));
    out.append(body);
    out
}

/// Whether a text holds no white space.
pub open spec fn is_word(s: Seq<char>) -> bool {
    forall|i: int| 0 <= i < s.len() ==> !white(#[trigger] s[i])
}

/// The path of a well-formed request is its target up to the query, whatever
/// the method, the version and what follows the first line.
pub proof fn request_line_gives_path(
    method: Seq<char>,
    target: Seq<char>,
    version: Seq<char>,
    rest: Seq<char>,
)
    requires
        method.len() > 0,
        is_word(method),
        target.len() > 0,
        is_word(target),
        !version.contains('\n'),
    ensures
        request_path(method + " "@ + target + " "@ + version + "\r\n"@ + rest) == Some(
            without_query(target),
        ),
{
    reveal_strlit(" ");
    reveal_strlit("\r\n");
    let line = method + " "@ + target + " "@ + version;
    let text = line + "\r\n"@ + rest;
    let n = line.len() + 1;
    assert forall|i: int| 0 <= i < n implies !only('\n')(#[trigger] text[i]) by {
        let m = method.len() as int;
        let t = target.len() as int;
        if i < m {
            assert(!white(method[i]));
        } else if m < i < m + 1 + t {
            assert(!white(target[i - m - 1]));
        } else if m + t + 2 <= i < line.len() {
            assert(version[i - m - t - 2] == text[i]);
        }
    }
    lead_is(text, only('\n'), n as int);
    assert(first_line(text) =~= line);
    assert(!white(method[0]));
    lead_is(line, blacks(), 0);
    assert(trimmed(line) =~= line);
    assert forall|i: int| 0 <= i < method.len() implies !whites()(#[trigger] line[i]) by {
        assert(line[i] == method[i]);
    }
    lead_is(line, whites(), method.len() as int);
    let after = " "@ + target + " "@ + version;
    assert(past_word(line) =~= after);
    assert(after[1] == target[0]);
    assert(!white(target[0]));
    assert(white(after[0]));
    lead_is(after, blacks(), 1);
    let tail = target + " "@ + version;
    assert(trimmed(after) =~= tail);
    assert forall|i: int| 0 <= i < target.len() implies !whites()(#[trigger] tail[i]) by {
        assert(tail[i] == target[i]);
    }
    lead_is(tail, whites(), target.len() as int);
    assert(tail.take(target.len() as int) =~= target);
}

/// A query changes nothing of the path.
pub proof fn query_is_left_out(path: Seq<char>, query: Seq<char>)
    requires
        !path.contains('?'),
    ensures
        without_query(path) == path,
        without_query(path + "?"@ + query) == path,
{
    reveal_strlit("?");
    let target = path + "?"@ + query;
    assert forall|i: int| 0 <= i < path.len() implies !only('?')(#[trigger] path[i]) by {
        assert(path.contains(path[i]));
    }
    lead_is(path, only('?'), path.len() as int);
    assert(path.take(path.len() as int) =~= path);
    assert forall|i: int| 0 <= i < path.len() implies !only('?')(#[trigger] target[i]) by {
        assert(target[i] == path[i]);
    }
    lead_is(target, only('?'), path.len() as int);
    assert(target.take(path.len() as int) =~= path);
}

/// Decimal notation is made of digits.
proof fn decimal_has_no_cr(n: nat)
    ensures
        !crate::text::decimal(n).contains('\r'),
    decreases n,
{
    let s = crate::text::decimal(n);
    if n >= 10 {
        decimal_has_no_cr(n / 10);
        assert forall|i: int| 0 <= i < s.len() implies s[i] != '\r' by {
            if i < s.len() - 1 {
                assert(crate::text::decimal(n / 10)[i] == s[i]);
            }
        }
    }
}

/// A response is its head followed by the body, and the first empty line in it
/// is the one that ends the head.
pub proof fn first_empty_line_ends_head(status: u16, content_type: Seq<char>, body: Seq<char>)
    requires
        !content_type.contains('\r'),
    ensures
        ({
            let r = response_text(status, content_type, body);
            let n = response_head(
                status,
                content_type,
                vstd::utf8::encode_utf8(body).len(),
            ).len();
            &&& r.skip(n as int) == body
            &&& crate::text::occurs_at(r, "\r\n\r\n"@, n - 4)
            &&& forall|k: int| k < n - 4 ==> !crate::text::occurs_at(r, "\r\n\r\n"@, k)
        }),
{
    let length = vstd::utf8::encode_utf8(body).len();
    let status_digits = crate::text::decimal(status as nat);
    let length_digits = crate::text::decimal(length);
    let words = status_text(status);
    let blank = "\r\n\r\n"@;
    reveal_strlit("HTTP/1.1 ");
    reveal_strlit(" ");
    reveal_strlit("OK");
    reveal_strlit("Not Found");
    reveal_strlit("Service Unavailable");
    reveal_strlit("\r\nContent-Type: ");
    reveal_strlit("\r\nContent-Length: ");
    reveal_strlit("\r\nConnection: close\r\n\r\n");
    reveal_strlit("\r\n\r\n");
    decimal_has_no_cr(status as nat);
    decimal_has_no_cr(length);
    let a = "HTTP/1.1 "@ + status_digits + " "@ + words;
    let b = "\r\nContent-Type: "@;
    let c = "\r\nContent-Length: "@;
    let d = "\r\nConnection: close\r\n\r\n"@;
    let head = response_head(status, content_type, length);
    assert(head =~= a + b + content_type + c + length_digits + d);
    let r = response_text(status, content_type, body);
    assert(r =~= head + body);
    assert(r.skip(head.len() as int) =~= body);
    let n = head.len() as int;
    assert(r.subrange(n - 4, n) =~= blank);
    let at_b = a.len() as int;
    let at_t = at_b + b.len();
    let at_c = at_t + content_type.len();
    let at_l = at_c + c.len();
    let at_d = at_l + length_digits.len();
    assert forall|k: int| k < n - 4 implies !crate::text::occurs_at(r, blank, k) by {
        if crate::text::occurs_at(r, blank, k) {
            let found = r.subrange(k, k + 4);
            assert(found[0] == r[k] && found[2] == r[k + 2]);
            assert(r[k] == '\r' && r[k + 2] == '\r');
            assert(r[k] == head[k] && r[k + 2] == head[k + 2]);
            if k < at_b {
                let p = "HTTP/1.1 "@.len();
                let q = p + status_digits.len();
                if k < p {
                    assert(head[k] == "HTTP/1.1 "@[k]);
                } else if k < q {
                    assert(status_digits[k - p] == head[k]);
                } else if k == q {
                    assert(head[k] == ' ');
                } else {
                    assert(head[k] == words[k - q - 1]);
                }
            } else if k < at_t {
                assert(head[k] == b[k - at_b]);
                assert(k == at_b);
                assert(head[k + 2] == b[2]);
            } else if k < at_c {
                assert(content_type[k - at_t] == head[k]);
            } else if k < at_l {
                assert(head[k] == c[k - at_c]);
                assert(k == at_c);
                assert(head[k + 2] == c[2]);
            } else if k < at_d {
                assert(length_digits[k - at_l] == head[k]);
            } else {
                assert(head[k] == d[k - at_d]);
                assert(head[k + 2] == d[k - at_d + 2]);
            }
        }
    }
}

/// The characters that separate words.
pub proof fn white_space_is_the_unicode_property(c: char, r: bool)
    requires
        call_ensures(is_white, (c,), r),
    ensures
        r <==> c == '\u{9}' || c == '\u{a}' || c == '\u{b}' || c == '\u{c}' || c == '\u{d}' || c
            == '\u{20}' || c == '\u{85}' || c == '\u{a0}' || c == '\u{1680}' || c == '\u{2000}' || c
            == '\u{2001}' || c == '\u{2002}' || c == '\u{2003}' || c == '\u{2004}' || c == '\u{2005}'
            || c == '\u{2006}' || c == '\u{2007}' || c == '\u{2008}' || c == '\u{2009}' || c
            == '\u{200a}' || c == '\u{2028}' || c == '\u{2029}' || c == '\u{202f}' || c == '\u{205f}'
            || c == '\u{3000}',
{
}

/// Whether a text is white space alone.
pub open spec fn is_gap(s: Seq<char>) -> bool {
    forall|i: int| 0 <= i < s.len() ==> white(#[trigger] s[i])
}

proof fn second_word_of(
    before: Seq<char>,
    first: Seq<char>,
    gap: Seq<char>,
    second: Seq<char>,
    after: Seq<char>,
)
    requires
        is_gap(before),
        first.len() > 0,
        is_word(first),
        is_gap(gap),
        gap.len() > 0,
        second.len() > 0,
        is_word(second),
        after.len() > 0 ==> white(after[0]),
    ensures
        second_word(before + first + gap + second + after) == Some(second),
{
    let line = before + first + gap + second + after;
    let one = first + gap + second + after;
    let two = gap + second + after;
    let three = second + after;
    assert(line =~= before + one);
    assert forall|i: int| 0 <= i < before.len() implies !blacks()(#[trigger] line[i]) by {
        assert(white(before[i]));
    }
    assert(!white(first[0]) && line[before.len() as int] == first[0]);
    lead_is(line, blacks(), before.len() as int);
    assert(trimmed(line) =~= one);
    assert forall|i: int| 0 <= i < first.len() implies !whites()(#[trigger] one[i]) by {
        assert(!white(first[i]));
    }
    assert(white(gap[0]) && one[first.len() as int] == gap[0]);
    lead_is(one, whites(), first.len() as int);
    assert(past_word(one) =~= two);
    assert forall|i: int| 0 <= i < gap.len() implies !blacks()(#[trigger] two[i]) by {
        assert(white(gap[i]));
    }
    assert(!white(second[0]) && two[gap.len() as int] == second[0]);
    lead_is(two, blacks(), gap.len() as int);
    assert(trimmed(two) =~= three);
    assert forall|i: int| 0 <= i < second.len() implies !whites()(#[trigger] three[i]) by {
        assert(!white(second[i]));
    }
    lead_is(three, whites(), second.len() as int);
    assert(three.take(second.len() as int) =~= second);
}

proof fn one_word_only(before: Seq<char>, word: Seq<char>, after: Seq<char>)
    requires
        is_gap(before),
        is_word(word),
        is_gap(after),
    ensures
        second_word(before + word + after) is None,
{
    let line = before + word + after;
    if word.len() > 0 {
        let one = word + after;
        assert(line =~= before + one);
        assert forall|i: int| 0 <= i < before.len() implies !blacks()(#[trigger] line[i]) by {
            assert(white(before[i]));
        }
        assert(!white(word[0]) && line[before.len() as int] == word[0]);
        lead_is(line, blacks(), before.len() as int);
        assert(trimmed(line) =~= one);
        assert forall|i: int| 0 <= i < word.len() implies !whites()(#[trigger] one[i]) by {
            assert(!white(word[i]));
        }
        if after.len() > 0 {
            assert(white(after[0]));
        }
        lead_is(one, whites(), word.len() as int);
        assert(past_word(one) =~= after);
        assert forall|i: int| 0 <= i < after.len() implies !blacks()(#[trigger] after[i]) by {}
        lead_is(after, blacks(), after.len() as int);
        assert(trimmed(after) =~= Seq::empty());
    } else {
        assert forall|i: int| 0 <= i < line.len() implies !blacks()(#[trigger] line[i]) by {
            if i < before.len() {
                assert(white(before[i]));
            } else {
                assert(white(after[i - before.len()]));
            }
        }
        lead_is(line, blacks(), line.len() as int);
        let none = Seq::<char>::empty();
        assert(trimmed(line) =~= none);
        lead_is(none, whites(), 0);
        assert(past_word(none) =~= none);
        lead_is(none, blacks(), 0);
        assert(trimmed(none) =~= none);
    }
}

proof fn first_line_of(line: Seq<char>, rest: Seq<char>)
    requires
        !line.contains('\n'),
    ensures
        first_line(line) == line,
        first_line(line + "\n"@ + rest) == (if line.len() > 0 && line.last() == '\r' {
            line.drop_last()
        } else {
            line
        }),
{
    reveal_strlit("\n");
    let text = line + "\n"@ + rest;
    let n = line.len() as int;
    assert forall|i: int| 0 <= i < n implies !only('\n')(#[trigger] line[i]) by {
        assert(line.contains(line[i]));
    }
    lead_is(line, only('\n'), n);
    assert(line.take(n) =~= line);
    assert forall|i: int| 0 <= i < n implies !only('\n')(#[trigger] text[i]) by {
        assert(text[i] == line[i]);
    }
    assert(text[n] == '\n');
    lead_is(text, only('\n'), n);
    if n > 0 {
        assert(text[n - 1] == line.last());
        assert(text.take(n - 1) =~= line.drop_last());
    }
    assert(text.take(n) =~= line);
}

/// Whether a request consists of this line, or starts with it.
pub open spec fn opens_with(text: Seq<char>, line: Seq<char>, rest: Seq<char>) -> bool {
    &&& !line.contains('\n')
    &&& text == line || text == line + "\n"@ + rest
}

/// The path that a request asks for is the second word of its first line up to a
/// `?`, whatever white space stands around the words and whatever follows.
pub proof fn path_is_the_second_word(
    before: Seq<char>,
    first: Seq<char>,
    gap: Seq<char>,
    path: Seq<char>,
    query: Seq<char>,
    after: Seq<char>,
    rest: Seq<char>,
    request: &[u8],
    r: Option<String>,
)
    requires
        is_gap(before),
        first.len() > 0,
        is_word(first),
        is_gap(gap),
        gap.len() > 0,
        is_word(path),
        !path.contains('?'),
        is_word(query),
        query.len() > 0 ==> query[0] == '?',
        path.len() + query.len() > 0,
        after.len() > 0 ==> white(after[0]),
        ({
            let text = vstd::utf8::decode_utf8(request@);
            &&& vstd::utf8::valid_utf8(request@)
            &&& opens_with(text, before + first + gap + (path + query) + after, rest)
        }),
        call_ensures(read_path, (request,), r),
    ensures
        r matches Some(found) && found@ == path,
{
    let target = path + query;
    let line = before + first + gap + target + after;
    let text = vstd::utf8::decode_utf8(request@);
    first_line_of(line, rest);
    assert(is_word(target)) by {
        assert forall|i: int| 0 <= i < target.len() implies !white(#[trigger] target[i]) by {
            if i < path.len() {
                assert(!white(path[i]));
            } else {
                assert(!white(query[i - path.len()]));
            }
        }
    }
    second_word_of(before, first, gap, target, after);
    if first_line(text) != line {
        assert(line.last() == '\r');
        if after.len() == 0 {
            assert(line.last() == target.last());
            assert(!white(target[target.len() - 1]));
        }
        let less = after.drop_last();
        assert(line.drop_last() =~= before + first + gap + target + less);
        second_word_of(before, first, gap, target, less);
    }
    let rest_of_query = query.drop_first();
    query_is_left_out(path, rest_of_query);
    reveal_strlit("?");
    if query.len() > 0 {
        assert(path + "?"@ + rest_of_query =~= target);
    } else {
        assert(target =~= path);
    }
}

/// The first line of a request has less than two words, so it names no path.
pub(crate) proof fn no_path_in_one_word(
    before: Seq<char>,
    word: Seq<char>,
    after: Seq<char>,
    rest: Seq<char>,
    text: Seq<char>,
)
    requires
        is_gap(before),
        is_word(word),
        is_gap(after),
        opens_with(text, before + word + after, rest),
    ensures
        request_path(text) is None,
{
    let line = before + word + after;
    first_line_of(line, rest);
    one_word_only(before, word, after);
    if first_line(text) != line {
        assert(line.last() == '\r');
        let short = line.drop_last();
        if after.len() > 0 {
            let less = after.drop_last();
            assert(is_gap(less)) by {
                assert forall|i: int| 0 <= i < less.len() implies white(#[trigger] less[i]) by {
                    assert(white(after[i]));
                }
            }
            assert(short =~= before + word + less);
            one_word_only(before, word, less);
        } else if word.len() > 0 {
            assert(line.last() == word.last());
            assert(!white(word[word.len() - 1]));
        } else {
            let less = before.drop_last();
            assert(is_gap(less)) by {
                assert forall|i: int| 0 <= i < less.len() implies white(#[trigger] less[i]) by {
                    assert(white(before[i]));
                }
            }
            assert(short =~= less + word + after);
            one_word_only(less, word, after);
        }
    }
}

/// A request whose first line has less than two words asks for nothing, and so
/// does one that is no text.
pub proof fn one_word_asks_for_nothing(
    before: Seq<char>,
    word: Seq<char>,
    after: Seq<char>,
    rest: Seq<char>,
    request: &[u8],
    r: Option<String>,
)
    requires
        is_gap(before),
        is_word(word),
        is_gap(after),
        vstd::utf8::valid_utf8(request@) ==> opens_with(
            vstd::utf8::decode_utf8(request@),
            before + word + after,
            rest,
        ),
        call_ensures(read_path, (request,), r),
    ensures
        r is None,
{
    if vstd::utf8::valid_utf8(request@) {
        no_path_in_one_word(before, word, after, rest, vstd::utf8::decode_utf8(request@));
    }
}

/// A response tells its status in digits and words, its type, the length of the
/// body in bytes, and that the connection closes; then comes the body.
pub proof fn response_tells_status_type_and_length(
    status: u16,
    content_type: &str,
    body: &str,
    r: String,
)
    requires
        call_ensures(write_response, (status, content_type, body), r),
    ensures
        exists|code: Seq<char>, words: Seq<char>, length: Seq<char>|
            {
                &&& #[trigger] crate::text::decimal_value(code) == status
                &&& code == crate::text::decimal(status as nat)
                &&& #[trigger] crate::text::decimal_value(length) == vstd::utf8::encode_utf8(
                    body@,
                ).len()
                &&& length == crate::text::decimal(vstd::utf8::encode_utf8(body@).len())
                &&& words == (if status == 404 {
                    "Not Found"@
                } else if status == 503 {
                    "Service Unavailable"@
                } else {
                    "OK"@
                })
                &&& r@ == #[trigger] ("HTTP/1.1 "@ + code + " "@ + words) + "\r\nContent-Type: "@
                    + content_type@ + "\r\nContent-Length: "@ + length
                    + "\r\nConnection: close\r\n\r\n"@ + body@
            },
{
    let n = vstd::utf8::encode_utf8(body@).len();
    let code = crate::text::decimal(status as nat);
    let length = crate::text::decimal(n);
    let words = status_text(status);
    crate::text::decimal_reads_back(status as nat);
    crate::text::decimal_reads_back(n);
    assert(crate::text::decimal_value(code) == status);
    assert(crate::text::decimal_value(length) == n);
    assert(r@ == ("HTTP/1.1 "@ + code + " "@ + words) + "\r\nContent-Type: "@ + content_type@
        + "\r\nContent-Length: "@ + length + "\r\nConnection: close\r\n\r\n"@ + body@);
}

} // verus!
