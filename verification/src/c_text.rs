//! Texts as C code reads them.
use vstd::prelude::*;

use crate::text::chars_of;

verus! {

/// A text that C code can read: it holds no NUL.
#[derive(Debug)]
pub struct CText {
    text: String,
}

impl View for CText {
    type V = Seq<char>;

    closed spec fn view(&self) -> Seq<char> {
        self.text@
    }
}

impl CText {
    #[verifier::type_invariant]
    spec fn holds_no_nul(self) -> bool {
        !self.text@.contains('\0')
    }

    /// The characters.
    pub fn as_str(&self) -> (r: &str)
        ensures
            r@ == self@,
            !r@.contains('\0'),
    {
        proof {
            use_type_invariant(self);
        }
        self.text.as_str()
    }
}

/// A text with a space for each NUL.
pub open spec fn sanitized(s: Seq<char>) -> Seq<char> {
    s.map_values(
        |c: char|
            if c == '\0' {
                ' '
            } else {
                c
            },
    )
}

/// Makes a text readable for C code, with a space for each NUL.
pub fn make_c_string(value: &str) -> (r: CText)
    ensures
        r@ == sanitized(value@),
{
    let chars = chars_of(value);
    let mut text = String::new();
    let mut i: usize = 0;
    while i < chars.len()
        invariant
            i <= chars@.len(),
            text@ == sanitized(chars@.take(i as int)),
        decreases chars@.len() - i,
    {
        assert(chars@.take(i + 1) =~= chars@.take(i as int).push(chars@[i as int]));
        if chars[i] == '\0' {
            text.push(' ');
        } else {
            text.push(chars[i]);
        }
        assert(text@ =~= sanitized(chars@.take(i + 1)));
        i += 1;
    }
    assert(chars@.take(i as int) =~= chars@);
    CText { text }
}

/// A text without NUL is passed on as it is.
pub proof fn nul_free_text_is_kept(s: Seq<char>)
    requires
        !s.contains('\0'),
    ensures
        sanitized(s) == s,
{
    assert(sanitized(s) =~= s) by {
        assert forall|i: int| 0 <= i < s.len() implies sanitized(s)[i] == s[i] by {
            assert(s.contains(s[i]));
        }
    }
}

/// What C code is given holds no NUL byte, so the byte after it ends it.
pub proof fn sanitized_text_has_no_nul_byte(s: Seq<char>)
    ensures
        !vstd::utf8::encode_utf8(sanitized(s)).contains(0u8),
    decreases s.len(),
{
    let t = sanitized(s);
    if s.len() > 0 {
        sanitized_text_has_no_nul_byte(s.drop_first());
        assert(t.drop_first() =~= sanitized(s.drop_first()));
        let u = t[0] as u32;
        let first = vstd::utf8::encode_scalar(u);
        assert(t[0] != '\0');
        assert(u != 0) by {
            vstd::utf8::char_u32_cast(t[0], u);
            vstd::utf8::char_u32_cast('\0', 0);
        }
        assert(0 < u <= 0x7f ==> (u & 0x7f) as u8 != 0) by (bit_vector);
        assert(0xc0u8 | ((u >> 6) & 0x1f) as u8 != 0) by (bit_vector);
        assert(0xe0u8 | ((u >> 12) & 0x0f) as u8 != 0) by (bit_vector);
        assert(0xf0u8 | ((u >> 18) & 0x7) as u8 != 0) by (bit_vector);
        assert(0x80u8 | (u & 0x3f) as u8 != 0) by (bit_vector);
        assert(0x80u8 | ((u >> 6) & 0x3f) as u8 != 0) by (bit_vector);
        assert(0x80u8 | ((u >> 12) & 0x3f) as u8 != 0) by (bit_vector);
        assert(!first.contains(0u8));
        let rest = vstd::utf8::encode_utf8(t.drop_first());
        let whole = vstd::utf8::encode_utf8(t);
        assert(whole == first + rest);
        assert forall|i: int| 0 <= i < whole.len() implies whole[i] != 0u8 by {
            if i < first.len() {
                assert(first.contains(first[i]));
            } else {
                assert(rest.contains(rest[i - first.len()]));
            }
        }
    }
}

/// A text for C code has the characters of the text that it is made of, with a
/// space in place of each NUL.
pub proof fn c_text_keeps_all_but_nul(s: &str, r: CText)
    requires
        call_ensures(make_c_string, (s,), r),
    ensures
        r@.len() == s@.len(),
        forall|i: int|
            0 <= i < s@.len() ==> #[trigger] r@[i] == (if s@[i] == '\0' {
                ' '
            } else {
                s@[i]
            }),
{
}

} // verus!
