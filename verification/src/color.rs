//! CSS hex colours.
use crate::outside::from_rgb;
use crate::picture::Color;
use vstd::prelude::*;
use vstd::utf8::{encode_utf8, is_continuation_byte};

verus! {

/// The byte of the hash sign.
pub const HASH: u8 = 0x23;

/// The byte of the plus sign, which a two-digit channel may start with.
pub const PLUS: u8 = 0x2b;

/// A text without the hash signs that it starts with.
pub open spec fn without_hashes(text: Seq<u8>) -> Seq<u8>
    decreases text.len(),
{
    if text.len() > 0 && text[0] == HASH {
        without_hashes(text.drop_first())
    } else {
        text
    }
}

/// The value of a hexadecimal digit, in either case.
pub open spec fn digit_value(c: u8) -> Option<u8> {
    if 0x30 <= c <= 0x39 {
        Some((c - 0x30) as u8)
    } else if 0x41 <= c <= 0x46 {
        Some((c - 0x41 + 10) as u8)
    } else if 0x61 <= c <= 0x66 {
        Some((c - 0x61 + 10) as u8)
    } else {
        None
    }
}

/// The value of a channel written with two bytes: two digits, or a plus sign
/// and one digit.
pub open spec fn pair_value(high: u8, low: u8) -> Option<u8> {
    if high == PLUS {
        digit_value(low)
    } else {
        match (digit_value(high), digit_value(low)) {
            (Some(h), Some(l)) => Some((16 * h + l) as u8),
            _ => None,
        }
    }
}

/// The opaque colour of three channels, where each has a value.
pub open spec fn opaque(r: Option<u8>, g: Option<u8>, b: Option<u8>) -> Option<Color> {
    match (r, g, b) {
        (Some(r), Some(g), Some(b)) => Some(Color { r, g, b, a: 255 }),
        _ => None,
    }
}

/// A one-digit channel stands for that digit twice.
pub open spec fn doubled(digit: Option<u8>) -> Option<u8> {
    match digit {
        Some(d) => Some((17 * d) as u8),
        None => None,
    }
}

/// The colour that a text stands for: six digits or three, after any hash signs.
pub open spec fn color_of(text: Seq<u8>) -> Option<Color> {
    let t = without_hashes(text);
    if t.len() == 6 {
        opaque(pair_value(t[0], t[1]), pair_value(t[2], t[3]), pair_value(t[4], t[5]))
    } else if t.len() == 3 {
        opaque(
            doubled(digit_value(t[0])),
            doubled(digit_value(t[1])),
            doubled(digit_value(t[2])),
        )
    } else {
        None
    }
}

/// Whether a channel of the text would end in the middle of a character. The
/// channels are taken in order, and only while those before had a value.
pub open spec fn splits_character(text: Seq<u8>) -> bool {
    let t = without_hashes(text);
    if t.len() == 6 {
        is_continuation_byte(t[2]) || (pair_value(t[0], t[1]) is Some && is_continuation_byte(t[4]))
    } else if t.len() == 3 {
        is_continuation_byte(t[1]) || (digit_value(t[0]) is Some && is_continuation_byte(t[2]))
    } else {
        false
    }
}

/// Hash signs in front change nothing.
pub proof fn law_hash_is_optional(text: Seq<u8>)
    ensures
        color_of(seq![HASH] + text) == color_of(text),
        splits_character(seq![HASH] + text) == splits_character(text),
{
    assert((seq![HASH] + text).drop_first() =~= text);
}

/// The short form means the long form with every digit written twice.
pub proof fn law_short_form_doubles_digits(r: u8, g: u8, b: u8)
    requires
        r != HASH,
    ensures
        color_of(seq![r, g, b]) == color_of(seq![r, r, g, g, b, b]),
{
    let short = seq![r, g, b];
    let long = seq![r, r, g, g, b, b];
    assert(without_hashes(short) == short);
    assert(without_hashes(long) == long);
}

/// The digits are 0 to 9 and the letters up to f in either case, and nothing
/// else has a value.
pub proof fn law_digits_are_hexadecimal(c: u8)
    ensures
        digit_value(c) is Some <==> ('0' <= c as char <= '9' || 'a' <= c as char <= 'f' || 'A'
            <= c as char <= 'F'),
        '0' <= c as char <= '9' ==> digit_value(c) == Some((c - 48) as u8),
        'a' <= c as char <= 'f' ==> digit_value(c) == Some((c - 97 + 10) as u8),
        'A' <= c as char <= 'F' ==> digit_value(c) == Some((c - 65 + 10) as u8),
        digit_value(c) matches Some(d) ==> d < 16,
{
}

/// What is left of a text without its hash signs is its end; it starts with no
/// hash sign, and what was taken away is nothing else.
pub proof fn law_only_hashes_are_taken_away(text: Seq<u8>)
    ensures
        ({
            let rest = without_hashes(text);
            let taken = text.len() - rest.len();
            &&& 0 <= taken
            &&& rest == text.skip(taken)
            &&& rest.len() > 0 ==> rest[0] != 0x23
            &&& forall|i: int| 0 <= i < taken ==> #[trigger] text[i] == 0x23
        }),
    decreases text.len(),
{
    if text.len() > 0 && text[0] == HASH {
        let tail = text.drop_first();
        law_only_hashes_are_taken_away(tail);
        let taken = text.len() - without_hashes(text).len();
        assert(without_hashes(text) =~= text.skip(taken));
        assert forall|i: int| 0 <= i < taken implies #[trigger] text[i] == 0x23 by {
            if i > 0 {
                assert(tail[i - 1] == text[i]);
            }
        }
    } else {
        assert(text =~= text.skip(0));
    }
}

/// After the hash signs a colour is six characters, two for each channel, or
/// three, one for each. Red comes first, then green, then blue, and the colour is
/// opaque. A channel of two is two digits, the first of them sixteen times its
/// worth, or a plus sign and one digit; a channel of one is a digit, seventeen
/// times its worth. Nothing else is a colour.
pub proof fn law_what_a_color_is(text: Seq<u8>)
    ensures
        ({
            let t = without_hashes(text);
            &&& t.len() != 6 && t.len() != 3 ==> color_of(text) is None
            &&& t.len() == 6 ==> {
                &&& color_of(text) is Some <==> (digit_value(t[0]) is Some || t[0] == 0x2b) && (
                digit_value(t[2]) is Some || t[2] == 0x2b) && (digit_value(t[4]) is Some || t[4]
                    == 0x2b) && digit_value(t[1]) is Some && digit_value(t[3]) is Some
                    && digit_value(t[5]) is Some
                &&& color_of(text) matches Some(c) ==> {
                    &&& c.a == 255
                    &&& c.r == (if t[0] == 0x2b {
                        0int
                    } else {
                        16 * digit_value(t[0])->0
                    }) + digit_value(t[1])->0
                    &&& c.g == (if t[2] == 0x2b {
                        0int
                    } else {
                        16 * digit_value(t[2])->0
                    }) + digit_value(t[3])->0
                    &&& c.b == (if t[4] == 0x2b {
                        0int
                    } else {
                        16 * digit_value(t[4])->0
                    }) + digit_value(t[5])->0
                }
            }
            &&& t.len() == 3 ==> {
                &&& color_of(text) is Some <==> digit_value(t[0]) is Some && digit_value(t[1]) is Some
                    && digit_value(t[2]) is Some
                &&& color_of(text) matches Some(c) ==> {
                    &&& c.a == 255
                    &&& c.r == 17 * digit_value(t[0])->0
                    &&& c.g == 17 * digit_value(t[1])->0
                    &&& c.b == 17 * digit_value(t[2])->0
                }
            }
        }),
{
}

/// Texts of plain characters can always be cut into channels. Where other
/// characters occur, a text cannot be cut if its second channel, or with a
/// readable first channel its third, would start inside a character.
pub proof fn law_what_splits_a_character(text: Seq<u8>)
    ensures
        (forall|i: int| 0 <= i < text.len() ==> #[trigger] text[i] < 0x80) ==> !splits_character(
            text,
        ),
        ({
            let t = without_hashes(text);
            &&& t.len() != 6 && t.len() != 3 ==> !splits_character(text)
            &&& t.len() == 6 ==> (splits_character(text) <==> is_continuation_byte(t[2]) || (
            is_continuation_byte(t[4]) && (digit_value(t[0]) is Some || t[0] == 0x2b)
                && digit_value(t[1]) is Some))
            &&& t.len() == 3 ==> (splits_character(text) <==> is_continuation_byte(t[1]) || (
            is_continuation_byte(t[2]) && digit_value(t[0]) is Some))
        }),
{
    law_only_hashes_are_taken_away(text);
}

/// The hexadecimal digit of a value below sixteen, in upper or lower case.
pub open spec fn digit(value: int, upper: bool) -> u8 {
    if value < 10 {
        (0x30 + value) as u8
    } else if upper {
        (0x41 + value - 10) as u8
    } else {
        (0x61 + value - 10) as u8
    }
}

/// The two digits of a byte, each in its own case.
pub open spec fn digits(value: u8, upper_high: bool, upper_low: bool) -> Seq<u8> {
    seq![digit(value as int / 16, upper_high), digit(value as int % 16, upper_low)]
}

/// The two digits of a byte have it as their value.
proof fn lemma_pair_of_digits(v: u8, upper_high: bool, upper_low: bool)
    ensures
        pair_value(digits(v, upper_high, upper_low)[0], digits(v, upper_high, upper_low)[1])
            == Some(v),
        digits(v, upper_high, upper_low)[0] != HASH,
{
    assert(digit_value(digit(v as int / 16, upper_high)) == Some((v / 16) as u8));
    assert(digit_value(digit(v as int % 16, upper_low)) == Some((v % 16) as u8));
}

/// Every opaque colour is what its six digits stand for, whatever the case of
/// each.
pub proof fn law_six_digits_give_the_color_back(
    r: u8,
    g: u8,
    b: u8,
    upper: (bool, bool, bool, bool, bool, bool),
)
    ensures
        color_of(
            seq![HASH] + (digits(r, upper.0, upper.1) + digits(g, upper.2, upper.3) + digits(
                b,
                upper.4,
                upper.5,
            )),
        ) == Some(Color { r, g, b, a: 255 }),
{
    let text = digits(r, upper.0, upper.1) + digits(g, upper.2, upper.3) + digits(
        b,
        upper.4,
        upper.5,
    );
    lemma_pair_of_digits(r, upper.0, upper.1);
    lemma_pair_of_digits(g, upper.2, upper.3);
    lemma_pair_of_digits(b, upper.4, upper.5);
    law_hash_is_optional(text);
    assert(without_hashes(text) == text);
}

/// Computes `digit_value`.
fn digit_of(c: u8) -> (r: Option<u8>)
    ensures
        r == digit_value(c),
        r matches Some(d) ==> d < 16,
{
    if 0x30 <= c && c <= 0x39 {
        Some(c - 0x30)
    } else if 0x41 <= c && c <= 0x46 {
        Some(c - 0x41 + 10)
    } else if 0x61 <= c && c <= 0x66 {
        Some(c - 0x61 + 10)
    } else {
        None
    }
}

/// Computes `pair_value`.
fn pair_of(high: u8, low: u8) -> (r: Option<u8>)
    ensures
        r == pair_value(high, low),
{
    if high == PLUS {
        digit_of(low)
    } else {
        match (digit_of(high), digit_of(low)) {
            (Some(h), Some(l)) => Some(16 * h + l),
            _ => None,
        }
    }
}

/// How many hash signs a text starts with.
fn hashes(text: &[u8]) -> (n: usize)
    ensures
        n <= text@.len(),
        without_hashes(text@) == text@.skip(n as int),
{
    let mut n: usize = 0;
    assert(text@.skip(0) =~= text@);
    while n < text.len() && text[n] == HASH
        invariant
            n <= text@.len(),
            without_hashes(text@) == without_hashes(text@.skip(n as int)),
        decreases text@.len() - n,
    {
        assert(text@.skip(n as int).drop_first() =~= text@.skip(n + 1));
        n = n + 1;
    }
    n
}

/// Tells whether a byte continues a character.
fn continues_character(c: u8) -> (r: bool)
    ensures
        r == is_continuation_byte(c),
{
    0x80 <= c && c <= 0xbf
}

/// Tells whether `parse_color` may not be asked about a text.
pub fn color_splits_character(s: &str) -> (r: bool)
    ensures
        r == splits_character(encode_utf8(s@)),
{
    let text = s.as_bytes();
    let n: usize = hashes(text);
    let len: usize = text.len() - n;
    if len == 6 {
        continues_character(text[n + 2]) || (pair_of(text[n], text[n + 1]).is_some()
            && continues_character(text[n + 4]))
    } else if len == 3 {
        continues_character(text[n + 1]) || (digit_of(text[n]).is_some() && continues_character(
            text[n + 2],
        ))
    } else {
        false
    }
}

/// Parses a CSS hex colour, `#rrggbb` or `#rgb`.
pub fn parse_color(s: Option<&str>) -> (r: Option<Color>)
    requires
        s matches Some(text) ==> !splits_character(encode_utf8(text@)),
    ensures
        r == match s {
            Some(text) => color_of(encode_utf8(text@)),
            None => None,
        },
{
    let text = s?.as_bytes();
    let n: usize = hashes(text);
    let len: usize = text.len() - n;
    if len == 6 {
        let r: u8 = pair_of(text[n], text[n + 1])?;
        let g: u8 = pair_of(text[n + 2], text[n + 3])?;
        let b: u8 = pair_of(text[n + 4], text[n + 5])?;
        Some(from_rgb(r, g, b))
    } else if len == 3 {
        let r: u8 = digit_of(text[n])? * 17;
        let g: u8 = digit_of(text[n + 1])? * 17;
        let b: u8 = digit_of(text[n + 2])? * 17;
        Some(from_rgb(r, g, b))
    } else {
        None
    }
}

} // verus!
