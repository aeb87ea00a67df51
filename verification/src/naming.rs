//! Names of stored images.
//!
//! A stored image is a file named `img_` followed by four or more decimal
//! digits, a dot, and one of the extensions `png`, `jpg` or `jpeg`. The digits
//! are the image's sequence number. New images are always written as
//! `img_NNNN.png`, the number padded with zeros to four digits.

use vstd::prelude::*;
use crate::text::{chars_of, string_of};

verus! {

/// The fewest digits a sequence number is written with.
pub const NUMBER_WIDTH: u32 = 4;

/// `c` is one of the ten decimal digits.
pub open spec fn is_digit(c: char) -> bool {
    '0' <= c && c <= '9'
}

/// The value of a decimal digit.
pub open spec fn digit_value(c: char) -> nat {
    (c as u32 - '0' as u32) as nat
}

/// The digit that stands for `d`, where `d < 10`.
pub open spec fn digit_char(d: nat) -> char {
    ('0' as u32 + d) as char
}

/// Every character of `text` is a decimal digit.
pub open spec fn all_digits(text: Seq<char>) -> bool {
    forall|i: int| 0 <= i < text.len() ==> is_digit(#[trigger] text[i])
}

/// The number that `digits` denotes in base ten; the empty sequence denotes 0.
pub open spec fn decimal_value(digits: Seq<char>) -> nat
    decreases digits.len(),
{
    if digits.len() == 0 {
        0
    } else {
        decimal_value(digits.drop_last()) * 10 + digit_value(digits.last())
    }
}

/// `n` in base ten, padded on the left with zeros to at least `width` digits.
pub open spec fn padded_decimal(n: nat, width: nat) -> Seq<char>
    decreases n, width,
{
    if n < 10 && width <= 1 {
        seq![digit_char(n)]
    } else {
        padded_decimal(n / 10, if width > 0 { (width - 1) as nat } else { 0 }).push(digit_char(n % 10))
    }
}

/// The prefix every stored image's name starts with.
pub open spec fn name_prefix() -> Seq<char> {
    seq!['i', 'm', 'g', '_']
}

/// The suffix of the names this store writes.
pub open spec fn png_suffix() -> Seq<char> {
    seq!['.', 'p', 'n', 'g']
}

/// The suffix of a JPEG file's name in its short form.
pub open spec fn jpg_suffix() -> Seq<char> {
    seq!['.', 'j', 'p', 'g']
}

/// The suffix of a JPEG file's name in its long form.
pub open spec fn jpeg_suffix() -> Seq<char> {
    seq!['.', 'j', 'p', 'e', 'g']
}

/// `text` ends with `suffix`.
pub open spec fn ends_with(text: Seq<char>, suffix: Seq<char>) -> bool {
    text.len() >= suffix.len() && text.skip(text.len() - suffix.len()) == suffix
}

/// `name` without its dot and extension, if the extension is a recognised one.
pub open spec fn image_stem(name: Seq<char>) -> Option<Seq<char>> {
    if ends_with(name, png_suffix()) {
        Some(name.take(name.len() - 4))
    } else if ends_with(name, jpg_suffix()) {
        Some(name.take(name.len() - 4))
    } else if ends_with(name, jpeg_suffix()) {
        Some(name.take(name.len() - 5))
    } else {
        None
    }
}

/// The file formats in which a stored image may be found.
#[derive(Debug, Clone, Copy, PartialEq, Eq, Structural)]
pub enum StoredFormat {
    Png,
    Jpeg,
}

/// The format that a file's extension stands for: PNG for `.png`, JPEG for
/// `.jpg` and `.jpeg`, none for any other name.
pub open spec fn format_of_name(name: Seq<char>) -> Option<StoredFormat> {
    if ends_with(name, png_suffix()) {
        Some(StoredFormat::Png)
    } else if ends_with(name, jpg_suffix()) || ends_with(name, jpeg_suffix()) {
        Some(StoredFormat::Jpeg)
    } else {
        None
    }
}

/// The digits of a stored image's name; `None` for any other name.
pub open spec fn sequence_digits(name: Seq<char>) -> Option<Seq<char>> {
    match image_stem(name) {
        Some(stem) => if stem.len() >= 4 + NUMBER_WIDTH && stem.take(4) == name_prefix()
            && all_digits(stem.skip(4)) {
            Some(stem.skip(4))
        } else {
            None
        },
        None => None,
    }
}

/// `name` is the name of a stored image.
pub open spec fn is_stored_name(name: Seq<char>) -> bool {
    sequence_digits(name) is Some
}

/// The sequence number in a stored image's name; `None` for any other name.
pub open spec fn sequence_number(name: Seq<char>) -> Option<nat> {
    match sequence_digits(name) {
        Some(digits) => Some(decimal_value(digits)),
        None => None,
    }
}

/// The sequence number in `name` as far as the store counts with it: the
/// name's number if it is a stored image's name and the number fits in `u32`.
pub open spec fn counted_number(name: Seq<char>) -> Option<u32> {
    match sequence_number(name) {
        Some(n) => if n <= u32::MAX {
            Some(n as u32)
        } else {
            None
        },
        None => None,
    }
}

/// The name under which the image with sequence number `n` is written.
pub open spec fn image_name(n: nat) -> Seq<char> {
    name_prefix() + padded_decimal(n, NUMBER_WIDTH as nat) + png_suffix()
}

/// Appending a digit multiplies the value by ten and adds the digit.
pub proof fn lemma_decimal_value_push(digits: Seq<char>, c: char)
    ensures
        decimal_value(digits.push(c)) == decimal_value(digits) * 10 + digit_value(c),
{
    assert(digits.push(c).drop_last() == digits);
}

/// A padded numeral is made of digits, is at least as long as asked and at
/// least one digit long, and denotes the number it was made from.
pub proof fn lemma_padded_decimal(n: nat, width: nat)
    ensures
        all_digits(padded_decimal(n, width)),
        padded_decimal(n, width).len() >= width,
        padded_decimal(n, width).len() >= 1,
        decimal_value(padded_decimal(n, width)) == n,
    decreases n, width,
{
    if n < 10 && width <= 1 {
        let s = seq![digit_char(n)];
        assert(s.drop_last() == Seq::<char>::empty());
        assert(decimal_value(s) == decimal_value(s.drop_last()) * 10 + digit_value(s.last()));
    } else {
        let rest_width = if width > 0 { (width - 1) as nat } else { 0 };
        let rest = padded_decimal(n / 10, rest_width);
        lemma_padded_decimal(n / 10, rest_width);
        lemma_decimal_value_push(rest, digit_char(n % 10));
    }
}

/// `extension` is one of the recognised extensions: `png`, `jpg` or `jpeg`.
pub open spec fn is_image_extension(extension: Seq<char>) -> bool {
    extension == png_suffix().skip(1) || extension == jpg_suffix().skip(1) || extension
        == jpeg_suffix().skip(1)
}

/// `name` is `img_`, then `digits`, a dot and `extension`, where `digits` are
/// four or more decimal digits and `extension` is a recognised one.
pub open spec fn is_made_of(name: Seq<char>, digits: Seq<char>, extension: Seq<char>) -> bool {
    &&& digits.len() >= NUMBER_WIDTH
    &&& all_digits(digits)
    &&& is_image_extension(extension)
    &&& name == name_prefix() + digits + seq!['.'] + extension
}

/// A name made of the prefix, four or more digits, a dot and a recognised
/// extension is a stored image's name, and its digits are those digits.
pub proof fn lemma_name_made_of_parts(name: Seq<char>, digits: Seq<char>, extension: Seq<char>)
    requires
        is_made_of(name, digits, extension),
    ensures
        sequence_digits(name) == Some(digits),
        image_stem(name) == Some(name_prefix() + digits),
{
    let stem = name_prefix() + digits;
    let n = name.len() as int;
    assert(png_suffix().skip(1) =~= seq!['p', 'n', 'g']);
    assert(jpg_suffix().skip(1) =~= seq!['j', 'p', 'g']);
    assert(jpeg_suffix().skip(1) =~= seq!['j', 'p', 'e', 'g']);
    if extension == png_suffix().skip(1) {
        assert(name.skip(n - 4) =~= png_suffix());
        assert(name.take(n - 4) =~= stem);
    } else if extension == jpg_suffix().skip(1) {
        assert(name.skip(n - 4) =~= jpg_suffix());
        assert(name.skip(n - 4) != png_suffix()) by {
            assert(name.skip(n - 4)[1] == 'j');
            assert(png_suffix()[1] == 'p');
        }
        assert(name.take(n - 4) =~= stem);
    } else {
        assert(name.skip(n - 5) =~= jpeg_suffix());
        assert(name.skip(n - 4) != png_suffix()) by {
            assert(name.skip(n - 4)[0] == 'j');
            assert(png_suffix()[0] == '.');
        }
        assert(name.skip(n - 4) != jpg_suffix()) by {
            assert(name.skip(n - 4)[0] == 'j');
            assert(jpg_suffix()[0] == '.');
        }
        assert(name.take(n - 5) =~= stem);
    }
    assert(stem.take(4) =~= name_prefix());
    assert(stem.skip(4) =~= digits);
}

/// The stored images' names are exactly the names made of the prefix, four
/// or more digits, a dot and a recognised extension.
pub proof fn lemma_stored_names(name: Seq<char>)
    ensures
        is_stored_name(name) <==> exists|digits: Seq<char>, extension: Seq<char>|
            is_made_of(name, digits, extension),
{
    if is_stored_name(name) {
        let stem = image_stem(name)->0;
        let digits = stem.skip(4);
        let extension = name.skip(stem.len() as int + 1);
        assert(stem =~= name_prefix() + digits) by {
            assert(stem.take(4) == name_prefix());
            assert(stem =~= stem.take(4) + stem.skip(4));
        }
        let n = name.len() as int;
        if ends_with(name, png_suffix()) {
            assert(name.skip(n - 4)[0] == '.');
            assert(extension =~= name.skip(n - 4).skip(1));
        } else if ends_with(name, jpg_suffix()) {
            assert(name.skip(n - 4)[0] == '.');
            assert(extension =~= name.skip(n - 4).skip(1));
        } else {
            assert(name.skip(n - 5)[0] == '.');
            assert(extension =~= name.skip(n - 5).skip(1));
        }
        assert(name =~= name_prefix() + digits + seq!['.'] + extension);
        assert(is_made_of(name, digits, extension));
    }
    if exists|digits: Seq<char>, extension: Seq<char>| is_made_of(name, digits, extension) {
        let (digits, extension) = choose|digits: Seq<char>, extension: Seq<char>|
            is_made_of(name, digits, extension);
        lemma_name_made_of_parts(name, digits, extension);
    }
}

/// The name written for a sequence number is a stored image's name and
/// carries that number. Reading back a name that was written gives the number
/// it was written for.
pub proof fn lemma_image_name_round_trip(n: nat)
    ensures
        is_stored_name(image_name(n)),
        sequence_number(image_name(n)) == Some(n),
        n <= u32::MAX ==> counted_number(image_name(n)) == Some(n as u32),
{
    let digits = padded_decimal(n, NUMBER_WIDTH as nat);
    let name = image_name(n);
    lemma_padded_decimal(n, NUMBER_WIDTH as nat);
    assert(name.skip(name.len() - 4) == png_suffix());
    let stem = name.take(name.len() - 4);
    assert(stem == name_prefix() + digits);
    assert(stem.take(4) == name_prefix());
    assert(stem.skip(4) == digits);
}

/// Two sequence numbers are written under the same name only if they are the
/// same number.
pub proof fn lemma_image_name_injective(m: nat, n: nat)
    requires
        image_name(m) == image_name(n),
    ensures
        m == n,
{
    lemma_image_name_round_trip(m);
    lemma_image_name_round_trip(n);
}

fn digit_of(d: u32) -> (c: char)
    requires
        d < 10,
    ensures
        c == digit_char(d as nat),
        is_digit(c),
{
    (('0' as u8) + (d as u8)) as char
}

fn push_padded_decimal(out: &mut Vec<char>, n: u32, width: u32)
    ensures
        final(out)@ == old(out)@ + padded_decimal(n as nat, width as nat),
    decreases n, width,
{
    if n >= 10 || width > 1 {
        push_padded_decimal(out, n / 10, if width > 0 { width - 1 } else { 0 });
    }
    out.push(digit_of(n % 10));
}

/// The file name under which the image with sequence number `number` is
/// written: `img_`, the number padded with zeros to four digits, `.png`.
pub fn image_file_name(number: u32) -> (name: String)
    ensures
        name@ == image_name(number as nat),
        counted_number(name@) == Some(number),
{
    let mut out: Vec<char> = Vec::new();
    out.push('i');
    out.push('m');
    out.push('g');
    out.push('_');
    assert(out@ == name_prefix());
    push_padded_decimal(&mut out, number, NUMBER_WIDTH);
    out.push('.');
    out.push('p');
    out.push('n');
    out.push('g');
    assert(out@ == image_name(number as nat));
    proof {
        lemma_image_name_round_trip(number as nat);
    }
    string_of(&out)
}

/// The length of the dot and extension that `chars` ends with, if the
/// extension is a recognised one.
fn extension_length(chars: &Vec<char>) -> (found: Option<(usize, StoredFormat)>)
    ensures
        match found {
            Some((k, format)) => k <= chars.len() && image_stem(chars@) == Some(
                chars@.take(chars.len() - k),
            ) && format_of_name(chars@) == Some(format),
            None => image_stem(chars@) is None && format_of_name(chars@) is None,
        },
{
    let n = chars.len();
    if n >= 4 && chars[n - 4] == '.' && chars[n - 3] == 'p' && chars[n - 2] == 'n' && chars[n - 1]
        == 'g' {
        assert(chars@.skip(n - 4) == png_suffix());
        return Some((4, StoredFormat::Png));
    }
    assert(!ends_with(chars@, png_suffix())) by {
        if ends_with(chars@, png_suffix()) {
            let tail = chars@.skip(n - 4);
            assert(tail[0] == '.' && tail[1] == 'p' && tail[2] == 'n' && tail[3] == 'g');
        }
    }
    if n >= 4 && chars[n - 4] == '.' && chars[n - 3] == 'j' && chars[n - 2] == 'p' && chars[n - 1]
        == 'g' {
        assert(chars@.skip(n - 4) == jpg_suffix());
        return Some((4, StoredFormat::Jpeg));
    }
    assert(!ends_with(chars@, jpg_suffix())) by {
        if ends_with(chars@, jpg_suffix()) {
            let tail = chars@.skip(n - 4);
            assert(tail[0] == '.' && tail[1] == 'j' && tail[2] == 'p' && tail[3] == 'g');
        }
    }
    if n >= 5 && chars[n - 5] == '.' && chars[n - 4] == 'j' && chars[n - 3] == 'p' && chars[n - 2]
        == 'e' && chars[n - 1] == 'g' {
        assert(chars@.skip(n - 5) == jpeg_suffix());
        return Some((5, StoredFormat::Jpeg));
    }
    assert(!ends_with(chars@, jpeg_suffix())) by {
        if ends_with(chars@, jpeg_suffix()) {
            let tail = chars@.skip(n - 5);
            assert(tail[0] == '.' && tail[1] == 'j' && tail[2] == 'p' && tail[3] == 'e' && tail[4]
                == 'g');
        }
    }
    None
}

/// The end of the digits of a stored image's name held in `chars`: the digits
/// are `chars[4..end]`. `None` if `chars` is not such a name.
fn digits_end(chars: &Vec<char>) -> (end: Option<usize>)
    ensures
        match end {
            Some(e) => 4 <= e <= chars.len() && sequence_digits(chars@) == Some(
                chars@.subrange(4, e as int),
            ),
            None => sequence_digits(chars@) is None,
        },
{
    let end = match extension_length(chars) {
        Some((k, _)) => chars.len() - k,
        None => {
            return None;
        },
    };
    let ghost stem = chars@.take(end as int);
    if end < 8 || chars[0] != 'i' || chars[1] != 'm' || chars[2] != 'g' || chars[3] != '_' {
        assert(end >= 8 ==> stem.take(4) != name_prefix()) by {
            if end >= 8 && stem.take(4) == name_prefix() {
                let head = stem.take(4);
                assert(head[0] == 'i' && head[1] == 'm' && head[2] == 'g' && head[3] == '_');
            }
        }
        return None;
    }
    assert(stem.take(4) == name_prefix());
    assert(stem.skip(4) == chars@.subrange(4, end as int));
    let ghost digits = stem.skip(4);
    let mut i: usize = 4;
    while i < end
        invariant
            4 <= i <= end <= chars.len(),
            digits == chars@.subrange(4, end as int),
            image_stem(chars@) == Some(stem),
            stem.skip(4) == digits,
            forall|j: int| 0 <= j < i - 4 ==> is_digit(#[trigger] digits[j]),
        decreases end - i,
    {
        let c = chars[i];
        assert(digits[i - 4] == c);
        if !('0' <= c && c <= '9') {
            assert(!all_digits(digits));
            return None;
        }
        i = i + 1;
    }
    assert(all_digits(digits));
    Some(end)
}

/// The format in which the file named `file_name` holds its image, going by
/// the extension: PNG for `.png`, JPEG for `.jpg` and `.jpeg`.
pub fn stored_format(file_name: &str) -> (format: Option<StoredFormat>)
    ensures
        format == format_of_name(file_name@),
        is_stored_name(file_name@) ==> format is Some,
{
    let chars = chars_of(file_name);
    match extension_length(&chars) {
        Some((_, format)) => Some(format),
        None => None,
    }
}

/// Whether `file_name` is the name of a stored image: `img_`, four or more
/// digits, a dot, and `png`, `jpg` or `jpeg`.
pub fn is_stored_image_name(file_name: &str) -> (stored: bool)
    ensures
        stored == is_stored_name(file_name@),
{
    let chars = chars_of(file_name);
    digits_end(&chars).is_some()
}

/// The number that the digits `chars[from..to]` denote, if it fits in `u32`.
fn decimal_of(chars: &Vec<char>, from: usize, to: usize) -> (number: Option<u32>)
    requires
        from <= to <= chars.len(),
        all_digits(chars@.subrange(from as int, to as int)),
    ensures
        match number {
            Some(n) => n == decimal_value(chars@.subrange(from as int, to as int)),
            None => decimal_value(chars@.subrange(from as int, to as int)) > u32::MAX,
        },
{
    let ghost digits = chars@.subrange(from as int, to as int);
    let mut value: u64 = 0;
    let mut i: usize = from;
    assert(digits.take(0) == Seq::<char>::empty());
    while i < to
        invariant
            from <= i <= to <= chars.len(),
            digits == chars@.subrange(from as int, to as int),
            all_digits(digits),
            value == decimal_value(digits.take(i - from)),
            value <= u32::MAX,
        decreases to - i,
    {
        let c = chars[i];
        let ghost read = digits.take(i - from);
        proof {
            assert(digits[i - from] == c);
            assert(is_digit(c));
            assert(digits.take(i - from + 1) == read.push(c));
            lemma_decimal_value_push(read, c);
        }
        let d: u64 = ((c as u8) - ('0' as u8)) as u64;
        value = value * 10 + d;
        if value > 0xffff_ffff {
            proof {
                lemma_decimal_value_prefix(digits, i - from + 1);
            }
            return None;
        }
        i = i + 1;
    }
    assert(digits.take(to - from) == digits);
    Some(value as u32)
}

/// The sequence number that `file_name` carries.
///
/// `Some(n)` exactly when `file_name` is a stored image's name whose digits
/// denote `n` and `n` fits in `u32`; `None` for every other name.
pub fn parse_image_number(file_name: &str) -> (number: Option<u32>)
    ensures
        number == counted_number(file_name@),
{
    let chars = chars_of(file_name);
    match digits_end(&chars) {
        Some(end) => decimal_of(&chars, 4, end),
        None => None,
    }
}

/// The value of a numeral is at least the value of each of its prefixes.
pub proof fn lemma_decimal_value_prefix(digits: Seq<char>, k: int)
    requires
        0 <= k <= digits.len(),
    ensures
        decimal_value(digits.take(k)) <= decimal_value(digits),
    decreases digits.len() - k,
{
    if k == digits.len() {
        assert(digits.take(k) == digits);
    } else {
        lemma_decimal_value_prefix(digits, k + 1);
        assert(digits.take(k + 1).drop_last() == digits.take(k));
    }
}

} // verus!
