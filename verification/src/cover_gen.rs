//! The text parts of generated covers: XML escaping, the SVG frame and the
//! initial letter shown on a cover. The drawing itself is done elsewhere.
use vstd::prelude::*;

use crate::text::{alphanumeric, is_alphanumeric, owned, push_str, to_uppercase, uppercase_of};

verus! {

/// Cover width in pixels.
pub const WIDTH: u32 = 400;

/// Cover height in pixels.
pub const HEIGHT: u32 = 600;

/// The escape of one character in SVG text and attributes.
pub open spec fn escape_char(c: char) -> Seq<char> {
    if c == '&' {
        "&amp;"@
    } else if c == '<' {
        "&lt;"@
    } else if c == '>' {
        "&gt;"@
    } else if c == '"' {
        "&quot;"@
    } else if c == '\'' {
        "&apos;"@
    } else {
        seq![c]
    }
}

/// `s` with `&`, `<`, `>`, `"` and `'` written as entities.
pub open spec fn escaped(s: Seq<char>) -> Seq<char>
    decreases s.len(),
{
    if s.len() == 0 {
        Seq::empty()
    } else {
        escaped(s.drop_last()) + escape_char(s.last())
    }
}

/// `s` with `&`, `<`, `>`, `"` and `'` written as entities.
pub fn escape_xml(s: &str) -> (r: String)
    ensures
        r@ == escaped(s@),
{
    let chars = crate::text::str_chars(s);
    let mut r = String::new();
    let mut n: usize = 0;
    while n < chars.len()
        invariant
            n <= chars.len(),
            chars@ == s@,
            r@ == escaped(s@.take(n as int)),
        decreases chars.len() - n,
    {
        let c = chars[n];
        proof {
            assert(s@.take(n + 1).drop_last() =~= s@.take(n as int));
        }
        let e: Option<&str> = if c == '&' {
            Some("&amp;")
        } else if c == '<' {
            Some("&lt;")
        } else if c == '>' {
            Some("&gt;")
        } else if c == '"' {
            Some("&quot;")
        } else if c == '\'' {
            Some("&apos;")
        } else {
            None
        };
        match e {
            Some(entity) => push_str(&mut r, entity),
            None => {
                crate::text::push_char(&mut r, c);
                assert(seq![c] =~= escape_char(c));
            },
        }
        n = n + 1;
    }
    assert(s@.take(n as int) =~= s@);
    r
}

/// The first alphanumeric character of `s`.
pub open spec fn first_alphanumeric(s: Seq<char>) -> Option<char>
    decreases s.len(),
{
    if s.len() == 0 {
        None
    } else if alphanumeric(s[0]) {
        Some(s[0])
    } else {
        first_alphanumeric(s.drop_first())
    }
}

/// The letter shown large on a cover: the title's first alphanumeric
/// character in upper case, else a bullet.
pub open spec fn initial_letter_of(title: Seq<char>) -> Seq<char> {
    match first_alphanumeric(title) {
        Some(c) => uppercase_of(c),
        None => "•"@,
    }
}

/// The letter shown large on a cover.
pub fn initial_letter(title: &str) -> (r: String)
    ensures
        r@ == initial_letter_of(title@),
{
    let chars = crate::text::str_chars(title);
    let mut i: usize = 0;
    assert(chars@.skip(0) =~= chars@);
    while i < chars.len()
        invariant
            i <= chars.len(),
            chars@ == title@,
            first_alphanumeric(title@) == first_alphanumeric(chars@.skip(i as int)),
        decreases chars.len() - i,
    {
        proof {
            assert(chars@.skip(i as int).drop_first() =~= chars@.skip(i + 1));
            assert(chars@.skip(i as int)[0] == chars@[i as int]);
        }
        if is_alphanumeric(chars[i]) {
            let up = to_uppercase(chars[i]);
            return crate::text::string_of(&up);
        }
        i = i + 1;
    }
    owned("•")
}

/// The SVG document of a cover: its definitions and body in a frame of the
/// cover's size.
pub open spec fn svg_document_text(defs: Seq<char>, body: Seq<char>) -> Seq<char> {
    "<svg xmlns=\"http://www.w3.org/2000/svg\" xmlns:xlink=\"http://www.w3.org/1999/xlink\" viewBox=\"0 0 400 600\" width=\"400\" height=\"600\"><defs>"@
        + defs + "</defs>"@ + body + "</svg>"@
}

/// The SVG document of a cover.
pub fn svg_document(defs: &str, body: &str) -> (r: String)
    ensures
        r@ == svg_document_text(defs@, body@),
{
    let mut r = owned(
        "<svg xmlns=\"http://www.w3.org/2000/svg\" xmlns:xlink=\"http://www.w3.org/1999/xlink\" viewBox=\"0 0 400 600\" width=\"400\" height=\"600\"><defs>",
    );
    push_str(&mut r, defs);
    push_str(&mut r, "</defs>");
    push_str(&mut r, body);
    push_str(&mut r, "</svg>");
    r
}


/// Escaping leaves no `<`, `>`, `"` or `'` in the text: whatever the input,
/// the escaped text cannot open or close a tag or an attribute value.
pub proof fn lemma_escape_xml_removes_markup(s: Seq<char>)
    ensures
        forall|i: int|
            0 <= i < escaped(s).len() ==> #[trigger] escaped(s)[i] != '<' && escaped(s)[i] != '>'
                && escaped(s)[i] != '"' && escaped(s)[i] != '\'',
    decreases s.len(),
{
    reveal_strlit("&amp;");
    reveal_strlit("&lt;");
    reveal_strlit("&gt;");
    reveal_strlit("&quot;");
    reveal_strlit("&apos;");
    if s.len() > 0 {
        lemma_escape_xml_removes_markup(s.drop_last());
        let prev = escaped(s.drop_last());
        let e = escape_char(s.last());
        assert forall|i: int| 0 <= i < escaped(s).len() implies #[trigger] escaped(s)[i] != '<'
            && escaped(s)[i] != '>' && escaped(s)[i] != '"' && escaped(s)[i] != '\'' by {
            if i < prev.len() {
                assert(escaped(s)[i] == prev[i]);
            } else {
                assert(escaped(s)[i] == e[i - prev.len()]);
            }
        }
    }
}

} // verus!
