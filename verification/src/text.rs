//! UTF-16 text as the window system takes it.
use vstd::prelude::*;

verus! {

/// The UTF-16 code units of one character.
pub open spec fn char_units(c: char) -> Seq<u16> {
    let v = c as u32;
    if v < 0x1_0000 {
        seq![v as u16]
    } else {
        seq![(0xD800 + (v - 0x1_0000) / 0x400) as u16, (0xDC00 + (v - 0x1_0000) % 0x400) as u16]
    }
}

/// The UTF-16 code units of a text.
pub open spec fn utf16(text: Seq<char>) -> Seq<u16>
    decreases text.len(),
{
    if text.len() == 0 {
        Seq::empty()
    } else {
        utf16(text.drop_last()) + char_units(text.last())
    }
}

pub proof fn lemma_utf16_concat(a: Seq<char>, b: Seq<char>)
    ensures
        utf16(a + b) == utf16(a) + utf16(b),
    decreases b.len(),
{
    if b.len() == 0 {
        assert(a + b =~= a);
        assert(utf16(a) + utf16(b) =~= utf16(a));
    } else {
        assert((a + b).drop_last() =~= a + b.drop_last());
        lemma_utf16_concat(a, b.drop_last());
        assert(utf16(a) + (utf16(b.drop_last()) + char_units(b.last())) =~= (utf16(a) + utf16(
            b.drop_last(),
        )) + char_units(b.last()));
    }
}

/// Encodes a text in UTF-16.
pub fn encode_utf16(text: &str) -> (units: Vec<u16>)
    ensures
        units@ == utf16(text@),
{
    let mut units: Vec<u16> = Vec::new();
    for c in it: text.chars()
        invariant
            it.seq() == text@,
            units@ == utf16(text@.take(it.index() as int)),
    {
        proof {
            let done = text@.take(it.index() as int + 1);
            assert(done.drop_last() =~= text@.take(it.index() as int));
            assert(done.last() == c);
            vstd::utf8::char_is_scalar(c);
        }
        let v: u32 = c as u32;
        if v < 0x1_0000 {
            units.push(v as u16);
        } else {
            units.push((0xD800 + (v - 0x1_0000) / 0x400) as u16);
            units.push((0xDC00 + (v - 0x1_0000) % 0x400) as u16);
        }
        assert(units@ =~= utf16(text@.take(it.index() as int + 1)));
    }
    assert(text@.take(text@.len() as int) =~= text@);
    units
}

/// Encodes a text in UTF-16 with a terminating zero.
pub fn wide_nul(text: &str) -> (units: Vec<u16>)
    ensures
        units@ == utf16(text@).push(0),
{
    let mut units: Vec<u16> = encode_utf16(text);
    units.push(0);
    units
}

/// The units of a fixed-size text field: the given ones, then zeros.
pub open spec fn padded(units: Seq<u16>, capacity: nat) -> Seq<u16> {
    Seq::new(
        capacity,
        |i: int|
            if i < units.len() {
                units[i]
            } else {
                0
            },
    )
}

/// The units of a text that fit before the terminating zero of a field.
pub open spec fn clipped(units: Seq<u16>, capacity: nat) -> Seq<u16> {
    if units.len() < capacity {
        units
    } else {
        units.take(capacity - 1)
    }
}

/// Fills a field of `capacity` units with the first `keep` of the given ones.
fn fill_field(units: &Vec<u16>, keep: usize, capacity: usize) -> (field: Vec<u16>)
    requires
        keep <= units@.len(),
        keep <= capacity,
    ensures
        field@ == padded(units@.take(keep as int), capacity as nat),
{
    let mut field: Vec<u16> = Vec::new();
    let mut i: usize = 0;
    while i < capacity
        invariant
            i <= capacity,
            keep <= units@.len(),
            keep <= capacity,
            field@.len() == i,
            forall|j: int|
                0 <= j < i ==> #[trigger] field@[j] == padded(
                    units@.take(keep as int),
                    capacity as nat,
                )[j],
        decreases capacity - i,
    {
        if i < keep {
            field.push(units[i]);
        } else {
            field.push(0);
        }
        i = i + 1;
    }
    assert(field@ =~= padded(units@.take(keep as int), capacity as nat));
    field
}

/// A field of `capacity` units that holds the whole text.
pub fn whole_field(text: &str, capacity: usize) -> (field: Vec<u16>)
    requires
        utf16(text@).len() <= capacity,
    ensures
        field@ == padded(utf16(text@), capacity as nat),
{
    let units: Vec<u16> = encode_utf16(text);
    assert(units@.take(units@.len() as int) =~= units@);
    fill_field(&units, units.len(), capacity)
}

/// A field of `capacity` units that holds as much of the text as leaves room
/// for a terminating zero.
pub fn clipped_field(text: &str, capacity: usize) -> (field: Vec<u16>)
    requires
        capacity > 0,
    ensures
        field@ == padded(clipped(utf16(text@), capacity as nat), capacity as nat),
{
    let units: Vec<u16> = encode_utf16(text);
    let keep: usize = if units.len() < capacity { units.len() } else { capacity - 1 };
    assert(units@.take(keep as int) =~= clipped(utf16(text@), capacity as nat));
    fill_field(&units, keep, capacity)
}

/// A clipped field has its full size, ends in a zero, starts with the text as
/// far as it fits, and loses nothing of a text that is short enough.
pub proof fn law_clipped_field(text: Seq<char>, capacity: nat)
    requires
        capacity > 0,
    ensures
        ({
            let field = padded(clipped(utf16(text), capacity), capacity);
            &&& field.len() == capacity
            &&& field.last() == 0
            &&& forall|i: int|
                0 <= i < utf16(text).len() && i < capacity - 1 ==> #[trigger] field[i] == utf16(text)[i]
            &&& utf16(text).len() < capacity ==> field.take(utf16(text).len() as int) == utf16(text)
        }),
{
    let field = padded(clipped(utf16(text), capacity), capacity);
    if utf16(text).len() < capacity {
        assert(field.take(utf16(text).len() as int) =~= utf16(text));
    }
}

/// The character of a decimal digit.
pub open spec fn digit(d: nat) -> char {
    (48 + d) as char
}

/// The decimal notation of a number.
pub open spec fn decimal(n: nat) -> Seq<char>
    decreases n,
{
    if n < 10 {
        seq![digit(n)]
    } else {
        decimal(n / 10).push(digit(n % 10))
    }
}

/// The number that a row of decimal digits denotes.
pub open spec fn decimal_value(digits: Seq<char>) -> int
    decreases digits.len(),
{
    if digits.len() == 0 {
        0
    } else {
        10 * decimal_value(digits.drop_last()) + (digits.last() as u32 - 48)
    }
}

/// Decimal notation denotes the number it was made from, and starts with a
/// zero only for zero itself.
pub proof fn law_decimal_denotes(n: nat)
    ensures
        decimal_value(decimal(n)) == n,
        decimal(n).len() >= 1,
        n > 0 ==> decimal(n)[0] != '0',
    decreases n,
{
    reveal_with_fuel(decimal_value, 2);
    if n >= 10 {
        law_decimal_denotes(n / 10);
        assert(decimal(n).drop_last() =~= decimal(n / 10));
    } else {
        assert(decimal(n).drop_last() =~= Seq::<char>::empty());
    }
}

/// Appends the decimal notation of a number.
fn push_decimal(units: &mut Vec<u16>, n: u32)
    ensures
        final(units)@ == old(units)@ + utf16(decimal(n as nat)),
    decreases n,
{
    let ghost before = units@;
    if n >= 10 {
        push_decimal(units, n / 10);
        assert(decimal(n as nat).drop_last() =~= decimal((n / 10) as nat));
    } else {
        assert(decimal(n as nat).drop_last() =~= Seq::<char>::empty());
        assert(units@ =~= before + utf16(Seq::<char>::empty()));
    }
    units.push(48 + (n % 10) as u16);
    assert(units@ =~= before + utf16(decimal(n as nat)));
}

/// The text of a size: the two numbers with a multiplication sign between.
pub open spec fn size_text(width: nat, height: nat) -> Seq<char> {
    decimal(width) + seq!['\u{d7}'] + decimal(height)
}

/// The label that shows the size of a selection.
pub fn size_label(width: i32, height: i32) -> (units: Vec<u16>)
    requires
        width >= 0,
        height >= 0,
    ensures
        units@ == utf16(size_text(width as nat, height as nat)),
{
    let mut units: Vec<u16> = Vec::new();
    push_decimal(&mut units, width as u32);
    units.push(0xD7);
    push_decimal(&mut units, height as u32);
    proof {
        let w = decimal(width as nat);
        let h = decimal(height as nat);
        let sign = seq!['\u{d7}'];
        reveal_with_fuel(utf16, 2);
        assert(sign.drop_last() =~= Seq::<char>::empty());
        assert(utf16(sign) =~= seq![0xD7u16]);
        lemma_utf16_concat(w, sign);
        lemma_utf16_concat(w + sign, h);
        assert(units@ =~= utf16(w) + utf16(sign) + utf16(h));
    }
    units
}

/// A text is encoded character by character, in order.
pub proof fn law_utf16_goes_by_characters(a: Seq<char>, b: Seq<char>)
    ensures
        utf16(a + b) == utf16(a) + utf16(b),
        utf16(Seq::<char>::empty()) == Seq::<u16>::empty(),
{
    lemma_utf16_concat(a, b);
}

/// A character of 16 bits is its own unit. Any other is a pair of surrogates
/// that hold ten bits each of what it has above 0x10000.
pub proof fn law_utf16_of_character(c: char)
    ensures
        (c as int) < 0x1_0000 ==> utf16(seq![c]).len() == 1 && utf16(seq![c])[0] == c as int,
        (c as int) >= 0x1_0000 ==> {
            &&& utf16(seq![c]).len() == 2
            &&& 0xD800 <= utf16(seq![c])[0] < 0xDC00 <= utf16(seq![c])[1] < 0xE000
            &&& c as int == 0x1_0000 + 0x400 * (utf16(seq![c])[0] - 0xD800) + (utf16(seq![c])[1] - 0xDC00)
        },
{
    vstd::utf8::char_is_scalar(c);
    reveal_with_fuel(utf16, 2);
    assert(seq![c].drop_last() =~= Seq::<char>::empty());
    assert(utf16(seq![c]) =~= char_units(c));
}

/// A field has its full size: the units it is filled with, then zeros.
pub proof fn law_padded(units: Seq<u16>, capacity: nat, i: int)
    ensures
        padded(units, capacity).len() == capacity,
        0 <= i < capacity && i < units.len() ==> padded(units, capacity)[i] == units[i],
        units.len() <= i < capacity ==> padded(units, capacity)[i] == 0,
{
}

/// What is kept of a text that does not fit is all but the room of one zero.
pub proof fn law_clipped(units: Seq<u16>, capacity: nat, i: int)
    requires
        capacity > 0,
    ensures
        units.len() < capacity ==> clipped(units, capacity) == units,
        units.len() >= capacity ==> clipped(units, capacity).len() == capacity - 1,
        0 <= i < clipped(units, capacity).len() ==> clipped(units, capacity)[i] == units[i],
{
}

/// Decimal notation is made of digits only, and multiplying by ten and adding a
/// digit appends that digit.
pub proof fn law_decimal_digits(n: nat, d: nat, i: int)
    requires
        d < 10,
    ensures
        0 <= i < decimal(n).len() ==> '0' <= decimal(n)[i] <= '9',
        n > 0 ==> decimal(10 * n + d).len() == decimal(n).len() + 1,
        n > 0 ==> decimal(10 * n + d).drop_last() == decimal(n),
        decimal(10 * n + d).last() as int == '0' as int + d,
        n < 10 ==> decimal(n).len() == 1,
    decreases n,
{
    assert((10 * n + d) / 10 == n && (10 * n + d) % 10 == d);
    if n > 0 {
        assert(decimal(10 * n + d).drop_last() =~= decimal(n));
    }
    if n >= 10 {
        law_decimal_digits(n / 10, 0, i);
    }
}

/// The text of a size is the width, a multiplication sign, and the height.
pub proof fn law_size_text(width: nat, height: nat)
    ensures
        ({
            let text = size_text(width, height);
            let at = decimal(width).len() as int;
            &&& 0 < at < text.len() - 1
            &&& text[at] as int == 0xD7
            &&& decimal_value(text.take(at)) == width
            &&& decimal_value(text.skip(at + 1)) == height
        }),
{
    let text = size_text(width, height);
    let at = decimal(width).len() as int;
    law_decimal_denotes(width);
    law_decimal_denotes(height);
    assert(text.take(at) =~= decimal(width));
    assert(text.skip(at + 1) =~= decimal(height));
}

}
