//! The default styles can be shown.

use vstd::prelude::*;
use vstd::string::*;

use super::presentation::{
    attribute_step, color_failure, default_styles, is_finite, is_negative, is_unit, oklch_failure,
    oklch_payload, reading_at, readings_at, style_color, style_failure, style_numbers, style_step,
    styles_failure, words_of, StyleStep,
};
use crate::text::{after, begins, is_hex, is_whitespace, trimmed, trimmed_end, trimmed_start};

verus! {

/// The numbers in the default style `i`: how each is written, and the bits of
/// the binary32 number that is nearest to it.
pub open spec fn default_numbers(i: int) -> Seq<(Seq<char>, u32)> {
    if i == 25 {
        seq![("0.439"@, 0x3EE0_C49C), ("0"@, 0), ("0"@, 0)]
    } else if i == 26 {
        seq![("0.269"@, 0x3E89_BA5E), ("0"@, 0), ("0"@, 0)]
    } else if i == 27 {
        seq![("0.718"@, 0x3F37_CED9), ("0.202"@, 0x3E4E_D917), ("349.761"@, 0x43AE_E168)]
    } else if i == 28 {
        seq![("0.823"@, 0x3F52_B021), ("0.12"@, 0x3DF5_C28F), ("346.018"@, 0x43AD_024E)]
    } else if i == 29 {
        seq![("0.936"@, 0x3F6F_9DB2), ("0.032"@, 0x3D03_126F), ("17.717"@, 0x418D_BC6A)]
    } else if i == 30 {
        seq![("0.823"@, 0x3F52_B021), ("0.12"@, 0x3DF5_C28F), ("346.018"@, 0x43AD_024E)]
    } else if i == 31 {
        seq![("0.518"@, 0x3F04_9BA6), ("0.253"@, 0x3E81_8937), ("323.949"@, 0x43A1_F979)]
    } else {
        Seq::empty()
    }
}

/// How the numbers are written.
pub open spec fn written_as(numbers: Seq<(Seq<char>, u32)>) -> Seq<Seq<char>> {
    Seq::new(numbers.len(), |k: int| numbers[k].0)
}

/// What the numbers read as.
pub open spec fn read_as(numbers: Seq<(Seq<char>, u32)>) -> Seq<Option<u32>> {
    Seq::new(numbers.len(), |k: int| Some(numbers[k].1))
}

/// What the numbers of the default styles read as.
pub open spec fn default_readings() -> Seq<Seq<Option<u32>>> {
    Seq::new(default_styles().len(), |i: int| read_as(default_numbers(i)))
}

/// Whether a style holds these numbers and can be shown with them.
#[verifier::opaque]
spec fn is_shown(style: Seq<char>, numbers: Seq<(Seq<char>, u32)>) -> bool {
    style_numbers(style) == written_as(numbers) && style_failure(style, read_as(numbers)) is None
}

// ---------------------------------------------------------------------------
// Words
// ---------------------------------------------------------------------------

/// Whether no white space stands in a text.
spec fn is_solid(s: Seq<char>) -> bool {
    s.len() > 0 && forall|i: int| 0 <= i < s.len() ==> !is_whitespace(#[trigger] s[i])
}

/// A word behind a space is one more word.
proof fn lemma_one_more_word(before: Seq<char>, word: Seq<char>)
    requires
        is_solid(word),
    ensures
        words_of(before + seq![' '] + word) == words_of(before).push(word),
    decreases word.len(),
{
    let s = before + seq![' '] + word;
    let less = word.drop_last();
    assert(s.drop_last() =~= before + seq![' '] + less);
    assert(s.last() == word.last());
    assert(!is_whitespace(word[word.len() - 1]));
    if less.len() == 0 {
        assert((before + seq![' '] + less) =~= before.push(' '));
        assert(before.push(' ').drop_last() =~= before);
        assert(words_of(before.push(' ')) == words_of(before));
        assert(seq![word.last()] =~= word);
    } else {
        assert forall|i: int| 0 <= i < less.len() implies !is_whitespace(#[trigger] less[i]) by {
            assert(less[i] == word[i]);
        }
        lemma_one_more_word(before, less);
        assert(s.drop_last().last() == less.last());
        assert(!is_whitespace(less[less.len() - 1]));
        let p = words_of(before).push(less);
        assert(p.drop_last() =~= words_of(before));
        assert(less.push(word.last()) =~= word);
    }
}

proof fn lemma_first_word(word: Seq<char>)
    requires
        is_solid(word),
    ensures
        words_of(word) == seq![word],
    decreases word.len(),
{
    let less = word.drop_last();
    assert(!is_whitespace(word[word.len() - 1]));
    if less.len() == 0 {
        assert(words_of(less) =~= Seq::<Seq<char>>::empty());
        assert(seq![word.last()] =~= word);
        assert(words_of(word) =~= seq![word]);
    } else {
        assert forall|i: int| 0 <= i < less.len() implies !is_whitespace(#[trigger] less[i]) by {
            assert(less[i] == word[i]);
        }
        lemma_first_word(less);
        assert(!is_whitespace(less[less.len() - 1]));
        assert(less.push(word.last()) =~= word);
        assert(words_of(word) =~= seq![word]);
    }
}

// ---------------------------------------------------------------------------
// Styles
// ---------------------------------------------------------------------------

/// Whether a text is a colour by its first character.
spec fn looks_like_color(color: Seq<char>) -> bool {
    color.len() > 1 && (color[0] == '#' || color[0] == 'o') && !is_whitespace(color.last())
}

proof fn lemma_trimmed(style: Seq<char>)
    requires
        style.len() > 0,
        !is_whitespace(style[0]),
        !is_whitespace(style.last()),
    ensures
        trimmed(style) == style,
{
    assert(trimmed_end(style) == style);
}

/// A style that does not begin like an attribute has no step for it.
proof fn lemma_absent(style: Seq<char>, attribute: Seq<char>)
    requires
        style.len() > 0,
        attribute.len() > 0,
        style[0] != attribute[0],
    ensures
        attribute_step(style, attribute) is Absent,
{
    if begins(style, attribute) {
        assert(style.subrange(0, attribute.len() as int)[0] == style[0]);
    }
}

proof fn lemma_no_attribute(color: Seq<char>)
    requires
        looks_like_color(color),
    ensures
        style_color(color) == Some(color),
{
    reveal_strlit("bold");
    reveal_strlit("dim");
    reveal_strlit("italic");
    reveal_strlit("underline");
    lemma_absent(color, "bold"@);
    lemma_absent(color, "dim"@);
    lemma_absent(color, "italic"@);
    lemma_absent(color, "underline"@);
}

proof fn lemma_behind(style: Seq<char>, attribute: Seq<char>, color: Seq<char>)
    requires
        style == attribute + seq![' '] + color,
        attribute == "bold"@ || attribute == "dim"@,
        looks_like_color(color),
    ensures
        style_color(style) == Some(color),
        style_numbers(style) == (match oklch_payload(color) {
            Some(payload) => words_of(payload),
            None => Seq::empty(),
        }),
        forall|readings: Seq<Option<u32>>| #[trigger]
            style_failure(style, readings) == color_failure(color, readings),
{
    reveal_strlit("bold");
    reveal_strlit("dim");
    reveal_strlit("none");
    lemma_no_attribute(color);
    assert(style.subrange(0, attribute.len() as int) =~= attribute);
    assert(style[attribute.len() as int] == ' ');
    assert(after(style, attribute.len() as int + 1) =~= color);
    assert(trimmed_start(color) == color);
    assert(attribute_step(style, attribute) == StyleStep::Next(color));
    assert(style[0] == attribute[0]);
    if attribute == "dim"@ {
        lemma_absent(style, "bold"@);
    }
    assert(style_step(style) == StyleStep::Next(color));
    assert(style.last() == color.last());
    lemma_trimmed(style);
}

proof fn lemma_alone(color: Seq<char>)
    requires
        looks_like_color(color),
    ensures
        style_numbers(color) == (match oklch_payload(color) {
            Some(payload) => words_of(payload),
            None => Seq::empty(),
        }),
        forall|readings: Seq<Option<u32>>| #[trigger]
            style_failure(color, readings) == color_failure(color, readings),
{
    reveal_strlit("none");
    lemma_no_attribute(color);
    lemma_trimmed(color);
}

/// An attribute alone can be shown.
proof fn lemma_attribute_shown(style: Seq<char>)
    requires
        style == "bold"@ || style == "dim"@ || style == "italic"@,
    ensures
        is_shown(style, Seq::empty()),
{
    reveal(is_shown);
    reveal_strlit("bold");
    reveal_strlit("dim");
    reveal_strlit("italic");
    reveal_strlit("none");
    lemma_trimmed(style);
    if style == "dim"@ || style == "italic"@ {
        lemma_absent(style, "bold"@);
    }
    if style == "italic"@ {
        lemma_absent(style, "dim"@);
    }
    assert(style_color(style) is None);
    assert(written_as(Seq::empty()) =~= Seq::<Seq<char>>::empty());
}

/// Whether a colour is written with six hexadecimal digits.
spec fn is_hex_color(color: Seq<char>) -> bool {
    &&& color.len() == 7
    &&& color[0] == '#'
    &&& forall|i: int| 1 <= i < 7 ==> is_hex(#[trigger] color[i])
}

proof fn lemma_hex_color(color: Seq<char>)
    requires
        is_hex_color(color),
    ensures
        looks_like_color(color),
        oklch_payload(color) is None,
        forall|readings: Seq<Option<u32>>| #[trigger] color_failure(color, readings) is None,
{
    reveal_strlit("oklch(");
    assert(is_hex(color[6]));
    assert(color.subrange(0, 1) =~= seq!['#']);
    if begins(color, "oklch("@) {
        assert(color.subrange(0, 6)[0] == color[0]);
    }
}

/// A colour of hexadecimal digits can be shown, behind an attribute or alone.
proof fn lemma_hex_shown(style: Seq<char>, color: Seq<char>)
    requires
        is_hex_color(color),
        style == color || style == "bold"@ + seq![' '] + color,
    ensures
        is_shown(style, Seq::empty()),
{
    reveal(is_shown);
    lemma_hex_color(color);
    if style == color {
        lemma_alone(color);
    } else {
        lemma_behind(style, "bold"@, color);
    }
    assert(written_as(Seq::empty()) =~= Seq::<Seq<char>>::empty());
}

/// The colour with these numbers.
spec fn oklch(numbers: Seq<(Seq<char>, u32)>) -> Seq<char> {
    "oklch("@ + (numbers[0].0 + seq![' '] + numbers[1].0 + seq![' '] + numbers[2].0) + seq![')']
}

/// Whether three numbers make a colour.
spec fn is_in_range(numbers: Seq<(Seq<char>, u32)>) -> bool {
    &&& numbers.len() == 3
    &&& forall|k: int|
        0 <= k < 3 ==> is_solid((#[trigger] numbers[k]).0) && is_finite(numbers[k].1)
    &&& is_unit(numbers[0].1)
    &&& !is_negative(numbers[1].1)
}

proof fn lemma_oklch_color(numbers: Seq<(Seq<char>, u32)>)
    requires
        is_in_range(numbers),
    ensures
        looks_like_color(oklch(numbers)),
        oklch_payload(oklch(numbers)) is Some,
        words_of(oklch_payload(oklch(numbers))->Some_0) == written_as(numbers),
        color_failure(oklch(numbers), read_as(numbers)) is None,
{
    reveal_strlit("oklch(");
    let color = oklch(numbers);
    let (a, b, c) = (numbers[0].0, numbers[1].0, numbers[2].0);
    let payload = a + seq![' '] + b + seq![' '] + c;
    assert(is_solid(a) && is_solid(b) && is_solid(c));
    assert(color.subrange(0, 6) =~= "oklch("@);
    let rest = after(color, 6);
    assert(rest =~= payload + seq![')']);
    assert(rest.subrange(rest.len() - 1, rest.len() as int) =~= seq![')']);
    assert(rest.subrange(0, rest.len() - 1) =~= payload);
    assert(oklch_payload(color) == Some(payload));
    lemma_first_word(a);
    lemma_one_more_word(a, b);
    lemma_one_more_word(a + seq![' '] + b, c);
    assert(words_of(payload) =~= written_as(numbers));
    let readings = read_as(numbers);
    assert forall|k: int| 0 <= k < 3 implies #[trigger] reading_at(readings, k) is Some
        && is_finite(reading_at(readings, k)->Some_0) by {
        assert(is_finite(numbers[k].1));
    }
    assert(oklch_failure(3, readings) is None);
    if begins(color, seq!['#']) {
        assert(color.subrange(0, 1)[0] == color[0]);
    }
}

/// A colour in range can be shown, behind an attribute or alone.
proof fn lemma_oklch_shown(style: Seq<char>, numbers: Seq<(Seq<char>, u32)>)
    requires
        is_in_range(numbers),
        style == oklch(numbers) || style == "bold"@ + seq![' '] + oklch(numbers) || style == "dim"@
            + seq![' '] + oklch(numbers),
    ensures
        is_shown(style, numbers),
{
    reveal(is_shown);
    lemma_oklch_color(numbers);
    if style == oklch(numbers) {
        lemma_alone(style);
    } else if style == "bold"@ + seq![' '] + oklch(numbers) {
        lemma_behind(style, "bold"@, oklch(numbers));
    } else {
        lemma_behind(style, "dim"@, oklch(numbers));
    }
}

proof fn lemma_hex_styles()
    ensures
        is_shown("#00FFFF"@, Seq::empty()),
        is_shown("#7BD88F"@, Seq::empty()),
        is_shown("#8AA2D8"@, Seq::empty()),
        is_shown("#FF00FF"@, Seq::empty()),
        is_shown("#FFFF00"@, Seq::empty()),
        is_shown("bold #00FFFF"@, Seq::empty()),
        is_shown("bold #7BD88F"@, Seq::empty()),
        is_shown("bold #8AA2D8"@, Seq::empty()),
        is_shown("bold #FF0000"@, Seq::empty()),
        is_shown("bold #FF00FF"@, Seq::empty()),
        is_shown("bold #FFFF00"@, Seq::empty()),
        is_shown("bold #FFFFFF"@, Seq::empty()),
{
    reveal_strlit("bold");
    reveal_strlit("#00FFFF");
    let color = seq!['#', '0', '0', 'F', 'F', 'F', 'F'];
    assert("#00FFFF"@ =~= color);
    lemma_hex_shown("#00FFFF"@, color);
    reveal_strlit("#7BD88F");
    let color = seq!['#', '7', 'B', 'D', '8', '8', 'F'];
    assert("#7BD88F"@ =~= color);
    lemma_hex_shown("#7BD88F"@, color);
    reveal_strlit("#8AA2D8");
    let color = seq!['#', '8', 'A', 'A', '2', 'D', '8'];
    assert("#8AA2D8"@ =~= color);
    lemma_hex_shown("#8AA2D8"@, color);
    reveal_strlit("#FF00FF");
    let color = seq!['#', 'F', 'F', '0', '0', 'F', 'F'];
    assert("#FF00FF"@ =~= color);
    lemma_hex_shown("#FF00FF"@, color);
    reveal_strlit("#FFFF00");
    let color = seq!['#', 'F', 'F', 'F', 'F', '0', '0'];
    assert("#FFFF00"@ =~= color);
    lemma_hex_shown("#FFFF00"@, color);
    reveal_strlit("bold #00FFFF");
    let color = seq!['#', '0', '0', 'F', 'F', 'F', 'F'];
    assert("bold #00FFFF"@ =~= "bold"@ + seq![' '] + color);
    lemma_hex_shown("bold #00FFFF"@, color);
    reveal_strlit("bold #7BD88F");
    let color = seq!['#', '7', 'B', 'D', '8', '8', 'F'];
    assert("bold #7BD88F"@ =~= "bold"@ + seq![' '] + color);
    lemma_hex_shown("bold #7BD88F"@, color);
    reveal_strlit("bold #8AA2D8");
    let color = seq!['#', '8', 'A', 'A', '2', 'D', '8'];
    assert("bold #8AA2D8"@ =~= "bold"@ + seq![' '] + color);
    lemma_hex_shown("bold #8AA2D8"@, color);
    reveal_strlit("bold #FF0000");
    let color = seq!['#', 'F', 'F', '0', '0', '0', '0'];
    assert("bold #FF0000"@ =~= "bold"@ + seq![' '] + color);
    lemma_hex_shown("bold #FF0000"@, color);
    reveal_strlit("bold #FF00FF");
    let color = seq!['#', 'F', 'F', '0', '0', 'F', 'F'];
    assert("bold #FF00FF"@ =~= "bold"@ + seq![' '] + color);
    lemma_hex_shown("bold #FF00FF"@, color);
    reveal_strlit("bold #FFFF00");
    let color = seq!['#', 'F', 'F', 'F', 'F', '0', '0'];
    assert("bold #FFFF00"@ =~= "bold"@ + seq![' '] + color);
    lemma_hex_shown("bold #FFFF00"@, color);
    reveal_strlit("bold #FFFFFF");
    let color = seq!['#', 'F', 'F', 'F', 'F', 'F', 'F'];
    assert("bold #FFFFFF"@ =~= "bold"@ + seq![' '] + color);
    lemma_hex_shown("bold #FFFFFF"@, color);
}

proof fn lemma_style_25()
    ensures
        is_shown(default_styles()[25].1, default_numbers(25)),
{
    reveal_strlit("oklch(");
    reveal_strlit("oklch(0.439 0 0)");
    reveal_strlit("0");
    reveal_strlit("0.439");
    let numbers = default_numbers(25);
    assert(is_in_range(numbers));
    assert("oklch(0.439 0 0)"@ =~= oklch(numbers));
    lemma_oklch_shown("oklch(0.439 0 0)"@, numbers);
}

proof fn lemma_style_26()
    ensures
        is_shown(default_styles()[26].1, default_numbers(26)),
{
    reveal_strlit("oklch(");
    reveal_strlit("oklch(0.269 0 0)");
    reveal_strlit("0");
    reveal_strlit("0.269");
    let numbers = default_numbers(26);
    assert(is_in_range(numbers));
    assert("oklch(0.269 0 0)"@ =~= oklch(numbers));
    lemma_oklch_shown("oklch(0.269 0 0)"@, numbers);
}

proof fn lemma_style_27()
    ensures
        is_shown(default_styles()[27].1, default_numbers(27)),
{
    reveal_strlit("oklch(");
    reveal_strlit("bold oklch(0.718 0.202 349.761)");
    reveal_strlit("bold");
    reveal_strlit("0.202");
    reveal_strlit("0.718");
    reveal_strlit("349.761");
    let numbers = default_numbers(27);
    assert(is_in_range(numbers));
    assert("bold oklch(0.718 0.202 349.761)"@ =~= "bold"@ + seq![' '] + oklch(numbers));
    lemma_oklch_shown("bold oklch(0.718 0.202 349.761)"@, numbers);
}

proof fn lemma_style_28()
    ensures
        is_shown(default_styles()[28].1, default_numbers(28)),
{
    reveal_strlit("oklch(");
    reveal_strlit("dim oklch(0.823 0.12 346.018)");
    reveal_strlit("dim");
    reveal_strlit("0.12");
    reveal_strlit("0.823");
    reveal_strlit("346.018");
    let numbers = default_numbers(28);
    assert(is_in_range(numbers));
    assert("dim oklch(0.823 0.12 346.018)"@ =~= "dim"@ + seq![' '] + oklch(numbers));
    lemma_oklch_shown("dim oklch(0.823 0.12 346.018)"@, numbers);
}

proof fn lemma_style_29()
    ensures
        is_shown(default_styles()[29].1, default_numbers(29)),
{
    reveal_strlit("oklch(");
    reveal_strlit("oklch(0.936 0.032 17.717)");
    reveal_strlit("0.032");
    reveal_strlit("0.936");
    reveal_strlit("17.717");
    let numbers = default_numbers(29);
    assert(is_in_range(numbers));
    assert("oklch(0.936 0.032 17.717)"@ =~= oklch(numbers));
    lemma_oklch_shown("oklch(0.936 0.032 17.717)"@, numbers);
}

proof fn lemma_style_30()
    ensures
        is_shown(default_styles()[30].1, default_numbers(30)),
{
    reveal_strlit("oklch(");
    reveal_strlit("oklch(0.823 0.12 346.018)");
    reveal_strlit("0.12");
    reveal_strlit("0.823");
    reveal_strlit("346.018");
    let numbers = default_numbers(30);
    assert(is_in_range(numbers));
    assert("oklch(0.823 0.12 346.018)"@ =~= oklch(numbers));
    lemma_oklch_shown("oklch(0.823 0.12 346.018)"@, numbers);
}

proof fn lemma_style_31()
    ensures
        is_shown(default_styles()[31].1, default_numbers(31)),
{
    reveal_strlit("oklch(");
    reveal_strlit("bold oklch(0.518 0.253 323.949)");
    reveal_strlit("bold");
    reveal_strlit("0.253");
    reveal_strlit("0.518");
    reveal_strlit("323.949");
    let numbers = default_numbers(31);
    assert(is_in_range(numbers));
    assert("bold oklch(0.518 0.253 323.949)"@ =~= "bold"@ + seq![' '] + oklch(numbers));
    lemma_oklch_shown("bold oklch(0.518 0.253 323.949)"@, numbers);
}

proof fn lemma_default_shown(i: int)
    requires
        0 <= i < default_styles().len(),
    ensures
        is_shown(default_styles()[i].1, default_numbers(i)),
{
    lemma_hex_styles();
    lemma_attribute_shown("bold"@);
    lemma_attribute_shown("dim"@);
    lemma_attribute_shown("italic"@);
    lemma_style_25();
    lemma_style_26();
    lemma_style_27();
    lemma_style_28();
    lemma_style_29();
    lemma_style_30();
    lemma_style_31();
}

/// Every default style can be shown: it holds the numbers that are told of it,
/// and with what they read as it is not refused.
pub proof fn default_styles_are_valid()
    ensures
        forall|i: int|
            0 <= i < default_styles().len() ==> style_numbers((#[trigger] default_styles()[i]).1)
                == written_as(default_numbers(i)) && style_failure(
                default_styles()[i].1,
                default_readings()[i],
            ) is None,
        styles_failure(
            default_styles(),
            default_readings(),
            default_styles().len() as int,
        ) is None,
{
    let all = default_styles();
    assert forall|i: int| 0 <= i < all.len() implies style_numbers((#[trigger] all[i]).1)
        == written_as(default_numbers(i)) && style_failure(all[i].1, default_readings()[i]) is None by {
        reveal(is_shown);
        lemma_default_shown(i);
    }
    lemma_none_fails(all.len() as int);
}

proof fn lemma_none_fails(n: int)
    requires
        0 <= n <= default_styles().len(),
    ensures
        styles_failure(default_styles(), default_readings(), n) is None,
    decreases n,
{
    if n > 0 {
        lemma_none_fails(n - 1);
        reveal(is_shown);
        lemma_default_shown(n - 1);
        assert(readings_at(default_readings(), n - 1) == read_as(default_numbers(n - 1)));
    }
}

// ---------------------------------------------------------------------------
// Any style
// ---------------------------------------------------------------------------

/// An attribute before a style leads on to it: the colour behind both is that
/// of the style.
pub proof fn attributes_lead_to_the_color(attribute: Seq<char>, style: Seq<char>)
    requires
        attribute == "bold"@ || attribute == "dim"@ || attribute == "italic"@ || attribute
            == "underline"@,
        style.len() > 0,
        !is_whitespace(style[0]),
    ensures
        style_color(attribute + seq![' '] + style) == style_color(style),
        style_color(attribute) is None,
{
    reveal_strlit("bold");
    reveal_strlit("dim");
    reveal_strlit("italic");
    reveal_strlit("underline");
    let whole = attribute + seq![' '] + style;
    assert(whole.subrange(0, attribute.len() as int) =~= attribute);
    assert(whole[attribute.len() as int] == ' ');
    assert(after(whole, attribute.len() as int + 1) =~= style);
    assert(trimmed_start(style) == style);
    assert(attribute_step(whole, attribute) == StyleStep::Next(style));
    assert(whole[0] == attribute[0]);
    if attribute != "bold"@ {
        lemma_absent(whole, "bold"@);
        lemma_absent(attribute, "bold"@);
        if attribute != "dim"@ {
            lemma_absent(whole, "dim"@);
            lemma_absent(attribute, "dim"@);
            if attribute != "italic"@ {
                lemma_absent(whole, "italic"@);
                lemma_absent(attribute, "italic"@);
            }
        }
    }
    assert(style_step(whole) == StyleStep::Next(style));
    assert(style_step(attribute) is Whole);
}

/// A colour that begins with a hash is six hexadecimal digits; any other colour
/// is in the OKLCH form, or none.
pub proof fn colors_have_their_form(color: Seq<char>, readings: Seq<Option<u32>>)
    requires
        color.len() > 0,
    ensures
        color[0] == '#' ==> (color_failure(color, readings) is None <==> is_hex_text(color)),
        color[0] != '#' && oklch_payload(color) is None ==> color_failure(color, readings) is Some,
        color[0] != '#' && oklch_payload(color) is Some ==> color_failure(color, readings)
            == oklch_failure(words_of(oklch_payload(color)->Some_0).len(), readings),
{
    assert(color.subrange(0, 1)[0] == color[0]);
    if color[0] == '#' {
        assert(color.subrange(0, 1) =~= seq!['#']);
        let hex = after(color, 1);
        if is_hex_text(color) {
            assert forall|i: int| 0 <= i < hex.len() implies is_hex(#[trigger] hex[i]) by {
                assert(is_hex(color[i + 1]));
            }
        }
        if color_failure(color, readings) is None {
            assert forall|i: int| 1 <= i < 7 implies is_hex(#[trigger] color[i]) by {
                assert(hex[i - 1] == color[i]);
                assert(is_hex(hex[i - 1]));
            }
        }
    }
}

/// Whether a text is a hash and six hexadecimal digits.
pub open spec fn is_hex_text(color: Seq<char>) -> bool {
    color.len() == 7 && color[0] == '#' && forall|i: int| 1 <= i < 7 ==> is_hex(#[trigger] color[i])
}

/// The numbers of a colour are accepted exactly when there are three, all of
/// them finite, the lightness is between zero and one and the chroma is not
/// negative.
pub proof fn numbers_of_colors_are_in_range(count: nat, readings: Seq<Option<u32>>)
    requires
        readings.len() == count,
    ensures
        oklch_failure(count, readings) is None <==> {
            &&& count == 3
            &&& forall|i: int|
                0 <= i < 3 ==> (#[trigger] readings[i]) is Some && readings[i]->Some_0 % 0x8000_0000
                    < 0x7F80_0000
            &&& readings[0]->Some_0 <= 0x3F80_0000 || readings[0]->Some_0 == 0x8000_0000
            &&& readings[1]->Some_0 <= 0x8000_0000
        },
{
    if count == 3 {
        assert(reading_at(readings, 0) == readings[0]);
        assert(reading_at(readings, 1) == readings[1]);
        assert(reading_at(readings, 2) == readings[2]);
        if oklch_failure(count, readings) is None {
            assert forall|i: int| 0 <= i < 3 implies (#[trigger] readings[i]) is Some
                && readings[i]->Some_0 % 0x8000_0000 < 0x7F80_0000 by {
                assert(reading_at(readings, i) is Some);
                assert(is_finite(reading_at(readings, i)->Some_0));
            }
        }
        if forall|i: int|
            0 <= i < 3 ==> (#[trigger] readings[i]) is Some && readings[i]->Some_0 % 0x8000_0000
                < 0x7F80_0000 {
            assert forall|i: int| 0 <= i < count implies #[trigger] reading_at(readings, i) is Some
                && is_finite(reading_at(readings, i)->Some_0) by {
                assert(readings[i] is Some);
            }
        }
    }
}

} // verus!
