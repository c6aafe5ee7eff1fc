//! Text: digits, hexadecimal rendering and assembling strings.
use vstd::prelude::*;

verus! {

/// `std::string::String::push`: appends one character and changes nothing else.
pub assume_specification[ std::string::String::push ](s: &mut std::string::String, c: char)
    ensures
        final(s)@ == old(s)@.push(c),
;

/// Lists the characters of a text.
pub(crate) fn chars_of(text: &str) -> (r: Vec<char>)
    ensures
        r@ == text@,
{
    let n: usize = text.unicode_len();
    let mut chars: Vec<char> = Vec::new();
    for i in 0..n
        invariant
            n == text@.len(),
            chars@ == text@.take(i as int),
    {
        chars.push(text.get_char(i));
        assert(chars@ =~= text@.take(i + 1));
    }
    assert(text@.take(n as int) =~= text@);
    chars
}

/// Makes a text of the characters from one position up to another.
pub(crate) fn string_of(chars: &Vec<char>, from: usize, to: usize) -> (r: String)
    requires
        from <= to <= chars@.len(),
    ensures
        r@ == chars@.subrange(from as int, to as int),
{
    let mut text = String::new();
    for i in from..to
        invariant
            from <= to <= chars@.len(),
            text@ == chars@.subrange(from as int, i as int),
    {
        text.push(chars[i]);
        assert(text@ =~= chars@.subrange(from as int, i + 1));
    }
    text
}

/// The contents of strings.
pub open spec fn texts(strings: Seq<String>) -> Seq<Seq<char>> {
    strings.map_values(|s: String| s@)
}

/// The contents of optional strings.
pub open spec fn opt_texts(strings: Seq<Option<String>>) -> Seq<Option<Seq<char>>> {
    strings.map_values(
        |s: Option<String>|
            match s {
                Some(s) => Some(s@),
                None => None,
            },
    )
}

/// The contents of byte vectors.
pub open spec fn byte_strings(vectors: Seq<Vec<u8>>) -> Seq<Seq<u8>> {
    vectors.map_values(|v: Vec<u8>| v@)
}

/// The contents of an optional byte vector.
pub open spec fn opt_bytes(vector: Option<Vec<u8>>) -> Option<Seq<u8>> {
    match vector {
        Some(v) => Some(v@),
        None => None,
    }
}

/// The contents of optional byte vectors.
pub open spec fn opt_byte_strings(vectors: Seq<Option<Vec<u8>>>) -> Seq<Option<Seq<u8>>> {
    vectors.map_values(|v: Option<Vec<u8>>| opt_bytes(v))
}

/// The length of a text, its first character and its last: texts that differ in this differ.
pub open spec fn mark(text: Seq<char>) -> (nat, char, char) {
    (text.len(), text[0], text[text.len() - 1])
}

/// The character of a decimal digit.
pub open spec fn digit(d: nat) -> char {
    (48 + d) as char
}

/// The decimal digits of `n`, most significant first, without leading zeros.
pub open spec fn decimal(n: nat) -> Seq<char>
    decreases n,
{
    if n < 10 {
        seq![digit(n)]
    } else {
        decimal(n / 10).push(digit(n % 10))
    }
}

/// The last `width` decimal digits of `n`, with leading zeros.
pub open spec fn digits(n: nat, width: nat) -> Seq<char>
    decreases width,
{
    if width == 0 {
        seq![]
    } else {
        digits(n / 10, (width - 1) as nat).push(digit(n % 10))
    }
}

/// The character of a lower-case hexadecimal digit.
pub open spec fn hex_digit(d: int) -> char {
    if d < 10 {
        (48 + d) as char
    } else {
        (87 + d) as char
    }
}

/// `0x`, then two lower-case hexadecimal digits for each byte.
pub open spec fn hex(bytes: Seq<u8>) -> Seq<char> {
    seq!['0', 'x'] + Seq::new(
        2 * bytes.len(),
        |i: int|
            hex_digit(
                if i % 2 == 0 {
                    bytes[i / 2] as int / 16
                } else {
                    bytes[i / 2] as int % 16
                },
            ),
    )
}

/// Writes a hexadecimal digit.
fn hex_char(d: u8) -> (c: char)
    requires
        d < 16,
    ensures
        c == hex_digit(d as int),
{
    match d {
        0 => '0',
        1 => '1',
        2 => '2',
        3 => '3',
        4 => '4',
        5 => '5',
        6 => '6',
        7 => '7',
        8 => '8',
        9 => '9',
        10 => 'a',
        11 => 'b',
        12 => 'c',
        13 => 'd',
        14 => 'e',
        _ => 'f',
    }
}

/// Renders bytes in hexadecimal, with the prefix `0x`.
pub fn to_hex(bytes: &Vec<u8>) -> (r: String)
    ensures
        r@ == hex(bytes@),
{
    let mut text = String::new();
    text.push('0');
    text.push('x');
    assert(text@ =~= hex(bytes@.take(0)));
    for i in 0..bytes.len()
        invariant
            text@ == hex(bytes@.take(i as int)),
    {
        let byte: u8 = bytes[i];
        text.push(hex_char(byte / 16));
        text.push(hex_char(byte % 16));
        assert(text@ =~= hex(bytes@.take(i + 1)));
    }
    assert(bytes@.take(bytes@.len() as int) =~= bytes@);
    text
}

/// Renders each byte string in hexadecimal.
pub fn all_to_hex(values: &Vec<Vec<u8>>) -> (r: Vec<String>)
    ensures
        texts(r@) == byte_strings(values@).map_values(|bytes: Seq<u8>| hex(bytes)),
{
    let mut rendered: Vec<String> = Vec::new();
    for i in 0..values.len()
        invariant
            rendered@.len() == i,
            forall|j: int| 0 <= j < i ==> (#[trigger] rendered@[j])@ == hex(values@[j]@),
    {
        rendered.push(to_hex(&values[i]));
    }
    assert(texts(rendered@) =~= byte_strings(values@).map_values(|bytes: Seq<u8>| hex(bytes)));
    rendered
}

/// The hexadecimal rendering of an optional byte string.
pub open spec fn opt_hex(bytes: Option<Seq<u8>>) -> Option<Seq<char>> {
    match bytes {
        Some(bytes) => Some(hex(bytes)),
        None => None,
    }
}

/// Renders each byte string that is there in hexadecimal.
pub fn all_opt_to_hex(values: &Vec<Option<Vec<u8>>>) -> (r: Vec<Option<String>>)
    ensures
        opt_texts(r@) == opt_byte_strings(values@).map_values(
            |bytes: Option<Seq<u8>>| opt_hex(bytes),
        ),
{
    let mut rendered: Vec<Option<String>> = Vec::new();
    for i in 0..values.len()
        invariant
            rendered@.len() == i,
            forall|j: int|
                0 <= j < i ==> match #[trigger] rendered@[j] {
                    Some(text) => opt_hex(opt_bytes(values@[j])) == Some(text@),
                    None => values@[j] is None,
                },
    {
        let text = match &values[i] {
            Some(bytes) => Some(to_hex(bytes)),
            None => None,
        };
        rendered.push(text);
    }
    assert(opt_texts(rendered@) =~= opt_byte_strings(values@).map_values(
        |bytes: Option<Seq<u8>>| opt_hex(bytes),
    ));
    rendered
}

/// Two byte strings with the same hexadecimal rendering are the same.
pub proof fn law_hex_is_injective(a: Seq<u8>, b: Seq<u8>)
    requires
        hex(a) == hex(b),
    ensures
        a == b,
{
    assert(hex(a).len() == 2 + 2 * a.len());
    assert(hex(b).len() == 2 + 2 * b.len());
    assert forall|i: int| 0 <= i < a.len() implies a[i] == b[i] by {
        let high = 2 * i;
        let low = 2 * i + 1;
        assert(high % 2 == 0 && high / 2 == i && low % 2 == 1 && low / 2 == i);
        assert(hex(a)[2 + high] == hex_digit(a[i] as int / 16));
        assert(hex(b)[2 + high] == hex_digit(b[i] as int / 16));
        assert(hex(a)[2 + low] == hex_digit(a[i] as int % 16));
        assert(hex(b)[2 + low] == hex_digit(b[i] as int % 16));
    }
    assert(a =~= b);
}

/// What vectors of strings and bytes hold is what each of their entries holds, in order.
pub proof fn law_contents_are_those_of_the_entries(
    strings: Seq<String>,
    vectors: Seq<Vec<u8>>,
    optional: Seq<Option<Vec<u8>>>,
)
    ensures
        texts(strings).len() == strings.len(),
        forall|i: int| 0 <= i < strings.len() ==> #[trigger] texts(strings)[i] == strings[i]@,
        byte_strings(vectors).len() == vectors.len(),
        forall|i: int|
            0 <= i < vectors.len() ==> #[trigger] byte_strings(vectors)[i] == vectors[i]@,
        opt_byte_strings(optional).len() == optional.len(),
        forall|i: int|
            0 <= i < optional.len() ==> {
                &&& (#[trigger] opt_byte_strings(optional)[i]) is Some <==> optional[i] is Some
                &&& optional[i] is Some ==> opt_byte_strings(optional)[i]->0 == optional[i]->0@
            },
{
}

} // verus!
