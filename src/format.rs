//! Display strings of history entries.
use vstd::prelude::*;

verus! {

/// Number of characters of a text that its preview keeps.
pub const PREVIEW_CHARS: usize = 100;

/// The preview of a text: the text itself, or its first hundred characters
/// followed by "..." when it is longer.
pub open spec fn text_preview_of(t: Seq<char>) -> Seq<char> {
    if t.len() > PREVIEW_CHARS {
        t.take(PREVIEW_CHARS as int) + seq!['.', '.', '.']
    } else {
        t
    }
}

pub open spec fn digit_char(d: nat) -> char {
    if d == 0 { '0' }
    else if d == 1 { '1' }
    else if d == 2 { '2' }
    else if d == 3 { '3' }
    else if d == 4 { '4' }
    else if d == 5 { '5' }
    else if d == 6 { '6' }
    else if d == 7 { '7' }
    else if d == 8 { '8' }
    else { '9' }
}

/// Decimal digits of a number, without leading zeros.
pub open spec fn decimal_of(n: nat) -> Seq<char>
    decreases n,
{
    if n < 10 {
        seq![digit_char(n)]
    } else {
        decimal_of(n / 10).push(digit_char(n % 10))
    }
}

/// "Image (WxH)".
pub open spec fn image_preview_text(width: u32, height: u32) -> Seq<char> {
    seq!['I', 'm', 'a', 'g', 'e', ' ', '('] + decimal_of(width as nat) + seq!['x']
        + decimal_of(height as nat) + seq![')']
}

/// Relies on String::push: appends one character.
#[verifier::external_body]
pub(crate) fn push_char(s: &mut String, c: char)
    ensures
        final(s)@ == old(s)@.push(c),
{
    s.push(c)
}

fn digit(d: u64) -> (c: char)
    requires
        d < 10,
    ensures
        c == digit_char(d as nat),
{
    if d == 0 { '0' }
    else if d == 1 { '1' }
    else if d == 2 { '2' }
    else if d == 3 { '3' }
    else if d == 4 { '4' }
    else if d == 5 { '5' }
    else if d == 6 { '6' }
    else if d == 7 { '7' }
    else if d == 8 { '8' }
    else { '9' }
}

/// Appends the decimal digits of `n`.
pub fn push_decimal(s: &mut String, n: u64)
    ensures
        final(s)@ == old(s)@ + decimal_of(n as nat),
    decreases n,
{
    if n >= 10 {
        push_decimal(s, n / 10);
    }
    push_char(s, digit(n % 10));
    assert(decimal_of(n as nat) == if n < 10 {
        seq![digit_char(n as nat)]
    } else {
        decimal_of((n / 10) as nat).push(digit_char((n % 10) as nat))
    });
    assert(s@ =~= old(s)@ + decimal_of(n as nat));
}

/// The preview of an image entry.
pub fn image_preview(width: u32, height: u32) -> (r: String)
    ensures
        r@ == image_preview_text(width, height),
{
    let mut s = String::new();
    push_char(&mut s, 'I');
    push_char(&mut s, 'm');
    push_char(&mut s, 'a');
    push_char(&mut s, 'g');
    push_char(&mut s, 'e');
    push_char(&mut s, ' ');
    push_char(&mut s, '(');
    push_decimal(&mut s, width as u64);
    push_char(&mut s, 'x');
    push_decimal(&mut s, height as u64);
    push_char(&mut s, ')');
    assert(s@ =~= image_preview_text(width, height));
    s
}

/// The preview of a text entry.
pub fn text_preview(text: &str) -> (r: String)
    ensures
        r@ == text_preview_of(text@),
{
    if text.unicode_len() > PREVIEW_CHARS {
        let head = text.substring_char(0, PREVIEW_CHARS);
        let mut s = String::from_str(head);
        push_char(&mut s, '.');
        push_char(&mut s, '.');
        push_char(&mut s, '.');
        assert(s@ =~= text_preview_of(text@));
        s
    } else {
        String::from_str(text)
    }
}

} // verus!
