//! Decoding of signing-key material from its textual form: a bracketed,
//! comma-separated list of decimal byte values such as `[12, 34, 255]`.

use vstd::prelude::*;

verus! {

/// Why a piece of text is not a decimal number that fits in sixteen bits.
#[derive(Clone, Copy, Debug, PartialEq, Eq)]
pub enum NumberError {
    /// The text has no characters.
    Empty,
    /// A character is not a decimal digit, or the text is a lone sign.
    InvalidDigit,
    /// The digits denote a value above 65535.
    TooLarge,
}

/// The two characters that may enclose the list.
pub open spec fn is_bracket(c: char) -> bool {
    c == '[' || c == ']'
}

/// The white space characters of Unicode.
pub open spec fn is_space(c: char) -> bool {
    let u = c as u32;
    ||| 0x09 <= u <= 0x0D
    ||| u == 0x20
    ||| u == 0x85
    ||| u == 0xA0
    ||| u == 0x1680
    ||| 0x2000 <= u <= 0x200A
    ||| u == 0x2028
    ||| u == 0x2029
    ||| u == 0x202F
    ||| u == 0x205F
    ||| u == 0x3000
}

/// The classes of characters that trimming removes.
#[derive(Clone, Copy, Debug, PartialEq, Eq)]
pub enum Trimmed {
    /// `[` and `]`.
    Brackets,
    /// White space.
    Spaces,
}

impl Trimmed {
    /// Whether `c` belongs to the class.
    pub open spec fn holds(self, c: char) -> bool {
        match self {
            Trimmed::Brackets => is_bracket(c),
            Trimmed::Spaces => is_space(c),
        }
    }

    /// Executable form of [`Trimmed::holds`].
    pub fn test(self, c: char) -> (b: bool)
        ensures
            b == self.holds(c),
    {
        let u: u32 = c as u32;
        match self {
            Trimmed::Brackets => c == '[' || c == ']',
            Trimmed::Spaces => (0x09 <= u && u <= 0x0D) || u == 0x20 || u == 0x85 || u == 0xA0
                || u == 0x1680 || (0x2000 <= u && u <= 0x200A) || u == 0x2028 || u == 0x2029
                || u == 0x202F || u == 0x205F || u == 0x3000,
        }
    }
}

/// `s` without its longest prefix of characters of class `class`.
pub open spec fn trim_start(s: Seq<char>, class: Trimmed) -> Seq<char>
    decreases s.len(),
{
    if s.len() > 0 && class.holds(s[0]) {
        trim_start(s.drop_first(), class)
    } else {
        s
    }
}

/// `s` without its longest suffix of characters of class `class`.
pub open spec fn trim_end(s: Seq<char>, class: Trimmed) -> Seq<char>
    decreases s.len(),
{
    if s.len() > 0 && class.holds(s.last()) {
        trim_end(s.drop_last(), class)
    } else {
        s
    }
}

/// `s` with the characters of class `class` removed from both ends.
pub open spec fn trim(s: Seq<char>, class: Trimmed) -> Seq<char> {
    trim_end(trim_start(s, class), class)
}

/// The number of characters of `s` before its first comma, or the whole
/// length where it has none.
pub open spec fn first_comma(s: Seq<char>) -> int
    decreases s.len(),
{
    if s.len() == 0 || s[0] == ',' {
        0
    } else {
        1 + first_comma(s.drop_first())
    }
}

/// The pieces of `s` between its commas, in order. A text with `n` commas has
/// `n + 1` pieces, some of which may be empty.
pub open spec fn split_commas(s: Seq<char>) -> Seq<Seq<char>>
    decreases s.len(),
{
    let k = first_comma(s);
    if 0 <= k < s.len() {
        seq![s.take(k)] + split_commas(s.skip(k + 1))
    } else {
        seq![s]
    }
}

/// Whether `c` is one of `0` to `9`.
pub open spec fn is_digit(c: char) -> bool {
    '0' <= c <= '9'
}

/// The value of the digit `c`.
pub open spec fn digit_value(c: char) -> int {
    c as u32 - '0' as u32
}

/// Reads the digits of `s` from the left onto the value `acc`. The first
/// character that is no digit, or the first digit that takes the value above
/// 65535, ends the reading with the matching error.
pub open spec fn read_digits(acc: int, s: Seq<char>) -> Result<int, NumberError>
    decreases s.len(),
{
    if s.len() == 0 {
        Ok(acc)
    } else if !is_digit(s[0]) {
        Err(NumberError::InvalidDigit)
    } else if acc * 10 + digit_value(s[0]) > 65535 {
        Err(NumberError::TooLarge)
    } else {
        read_digits(acc * 10 + digit_value(s[0]), s.drop_first())
    }
}

/// The number that `s` denotes: an optional `+`, then one or more decimal
/// digits, with a value of at most 65535.
pub open spec fn parse_number(s: Seq<char>) -> Result<int, NumberError> {
    if s.len() == 0 {
        Err(NumberError::Empty)
    } else if s.len() == 1 && (s[0] == '+' || s[0] == '-') {
        Err(NumberError::InvalidDigit)
    } else if s[0] == '+' {
        read_digits(0, s.drop_first())
    } else {
        read_digits(0, s)
    }
}

/// The character of the decimal digit `d`.
pub open spec fn digit_char(d: int) -> char {
    if d == 0 {
        '0'
    } else if d == 1 {
        '1'
    } else if d == 2 {
        '2'
    } else if d == 3 {
        '3'
    } else if d == 4 {
        '4'
    } else if d == 5 {
        '5'
    } else if d == 6 {
        '6'
    } else if d == 7 {
        '7'
    } else if d == 8 {
        '8'
    } else {
        '9'
    }
}

/// The decimal numeral of `n`, without leading zeros.
pub open spec fn decimal(n: nat) -> Seq<char>
    decreases n,
{
    if n < 10 {
        seq![digit_char(n as int)]
    } else {
        decimal(n / 10).push(digit_char((n % 10) as int))
    }
}

/// The words that describe a [`NumberError`].
pub open spec fn describe(e: NumberError) -> Seq<char> {
    match e {
        NumberError::Empty => "cannot parse integer from empty string"@,
        NumberError::InvalidDigit => "invalid digit found in string"@,
        NumberError::TooLarge => "number too large to fit in target type"@,
    }
}

/// The message for an entry that is no number.
pub open spec fn not_a_number(e: NumberError) -> Seq<char> {
    "Failed to parse number: "@ + describe(e)
}

/// The message for an entry whose number is above 255.
pub open spec fn out_of_range(n: nat) -> Seq<char> {
    "Number "@ + decimal(n) + " out of byte range"@
}

/// The byte that one entry of the list denotes, or the message that says why
/// it denotes none. White space around the number is ignored.
pub open spec fn decode_entry(piece: Seq<char>) -> Result<u8, Seq<char>> {
    match parse_number(trim(piece, Trimmed::Spaces)) {
        Err(e) => Err(not_a_number(e)),
        Ok(n) => if n > 255 {
            Err(out_of_range(n as nat))
        } else {
            Ok(n as u8)
        },
    }
}

/// The bytes that the entries denote, or the message of the first entry that
/// denotes none.
pub open spec fn decode_entries(pieces: Seq<Seq<char>>) -> Result<Seq<u8>, Seq<char>>
    decreases pieces.len(),
{
    if pieces.len() == 0 {
        Ok(Seq::empty())
    } else {
        match decode_entries(pieces.drop_last()) {
            Err(m) => Err(m),
            Ok(bytes) => match decode_entry(pieces.last()) {
                Err(m) => Err(m),
                Ok(b) => Ok(bytes.push(b)),
            },
        }
    }
}

/// The bytes that the text `input` denotes: the brackets at both ends are
/// dropped, what is left is cut at its commas, and each piece is one byte.
pub open spec fn decode_key_material(input: Seq<char>) -> Result<Seq<u8>, Seq<char>> {
    decode_entries(split_commas(trim(input, Trimmed::Brackets)))
}

proof fn lemma_first_comma_bounds(s: Seq<char>)
    ensures
        0 <= first_comma(s) <= s.len(),
        first_comma(s) < s.len() ==> s[first_comma(s)] == ',',
        forall|j: int| 0 <= j < first_comma(s) ==> s[j] != ',',
    decreases s.len(),
{
    if s.len() == 0 || s[0] == ',' {
    } else {
        let t = s.drop_first();
        lemma_first_comma_bounds(t);
        assert forall|j: int| 0 <= j < first_comma(s) implies s[j] != ',' by {
            if j > 0 {
                assert(s[j] == t[j - 1]);
            }
        }
    }
}

proof fn lemma_first_comma_is(s: Seq<char>, k: int)
    requires
        0 <= k <= s.len(),
        forall|j: int| 0 <= j < k ==> s[j] != ',',
        k < s.len() ==> s[k] == ',',
    ensures
        first_comma(s) == k,
{
    lemma_first_comma_bounds(s);
    let f = first_comma(s);
    if f < k {
        assert(s[f] == ',');
    } else if f > k {
        assert(s[k] != ',');
    }
}

proof fn lemma_trim_start_is(s: Seq<char>, class: Trimmed, a: int)
    requires
        0 <= a <= s.len(),
        forall|j: int| 0 <= j < a ==> class.holds(s[j]),
        a < s.len() ==> !class.holds(s[a]),
    ensures
        trim_start(s, class) == s.skip(a),
    decreases a,
{
    if a == 0 {
        assert(s.skip(0) == s);
    } else {
        let t = s.drop_first();
        assert forall|j: int| 0 <= j < a - 1 implies class.holds(t[j]) by {
            assert(t[j] == s[j + 1]);
        }
        lemma_trim_start_is(t, class, a - 1);
        assert(t.skip(a - 1) == s.skip(a));
    }
}

proof fn lemma_trim_end_is(s: Seq<char>, class: Trimmed, b: int)
    requires
        0 <= b <= s.len(),
        forall|j: int| b <= j < s.len() ==> class.holds(s[j]),
        b > 0 ==> !class.holds(s[b - 1]),
    ensures
        trim_end(s, class) == s.take(b),
    decreases s.len() - b,
{
    if b == s.len() {
        assert(s.take(b) == s);
    } else {
        let t = s.drop_last();
        lemma_trim_end_is(t, class, b);
        assert(t.take(b) == s.take(b));
    }
}

proof fn lemma_entries_step(pieces: Seq<Seq<char>>, piece: Seq<char>)
    ensures
        decode_entries(pieces.push(piece)) == match decode_entries(pieces) {
            Err(m) => Err::<Seq<u8>, Seq<char>>(m),
            Ok(bytes) => match decode_entry(piece) {
                Err(m) => Err(m),
                Ok(b) => Ok(bytes.push(b)),
            },
        },
{
    assert(pieces.push(piece).drop_last() == pieces);
}

proof fn lemma_entries_error_stays(head: Seq<Seq<char>>, tail: Seq<Seq<char>>)
    requires
        decode_entries(head) is Err,
    ensures
        decode_entries(head + tail) == decode_entries(head),
    decreases tail.len(),
{
    if tail.len() == 0 {
        assert(head + tail == head);
    } else {
        lemma_entries_error_stays(head, tail.drop_last());
        assert((head + tail).drop_last() == head + tail.drop_last());
    }
}

/// The characters of `s`, in order.
fn chars_of(s: &str) -> (out: Vec<char>)
    ensures
        out@ == s@,
{
    let mut out: Vec<char> = Vec::new();
    for c in iter: s.chars()
        invariant
            out@ == iter.seq().take(iter.index() as int),
            iter.seq() == s@,
    {
        out.push(c);
        assert(iter.seq().take(iter.index() + 1) == iter.seq().take(iter.index() as int).push(c));
    }
    out
}

/// The bounds of what is left of `text[from..to]` once the characters of
/// class `class` are trimmed from both of its ends.
fn trim_bounds(text: &Vec<char>, from: usize, to: usize, class: Trimmed) -> (r: (usize, usize))
    requires
        from <= to <= text.len(),
    ensures
        from <= r.0 <= r.1 <= to,
        text@.subrange(r.0 as int, r.1 as int) == trim(text@.subrange(from as int, to as int), class),
{
    let ghost s = text@.subrange(from as int, to as int);
    let mut a: usize = from;
    while a < to && class.test(text[a])
        invariant
            from <= a <= to <= text.len(),
            s == text@.subrange(from as int, to as int),
            forall|j: int| 0 <= j < a - from ==> class.holds(s[j]),
        decreases to - a,
    {
        a = a + 1;
    }
    proof {
        lemma_trim_start_is(s, class, a - from);
    }
    let ghost t = s.skip(a - from);
    assert(t == text@.subrange(a as int, to as int));
    let mut b: usize = to;
    while b > a && class.test(text[b - 1])
        invariant
            a <= b <= to <= text.len(),
            t == text@.subrange(a as int, to as int),
            forall|j: int| b - a <= j < t.len() ==> class.holds(t[j]),
        decreases b - a,
    {
        b = b - 1;
    }
    proof {
        lemma_trim_end_is(t, class, b - a);
        assert(t.take(b - a) == text@.subrange(a as int, b as int));
    }
    (a, b)
}

/// The number that `text[from..to]` denotes.
fn parse_number_at(text: &Vec<char>, from: usize, to: usize) -> (r: Result<u16, NumberError>)
    requires
        from <= to <= text.len(),
    ensures
        match r {
            Ok(n) => parse_number(text@.subrange(from as int, to as int)) == Ok::<
                int,
                NumberError,
            >(n as int),
            Err(e) => parse_number(text@.subrange(from as int, to as int)) == Err::<
                int,
                NumberError,
            >(e),
        },
{
    let ghost s = text@.subrange(from as int, to as int);
    if from == to {
        return Err(NumberError::Empty);
    }
    let first = text[from];
    assert(first == s[0]);
    if to - from == 1 && (first == '+' || first == '-') {
        return Err(NumberError::InvalidDigit);
    }
    let start: usize = if first == '+' {
        from + 1
    } else {
        from
    };
    let ghost digits = text@.subrange(start as int, to as int);
    assert(first == '+' ==> digits == s.drop_first());
    assert(first != '+' ==> digits == s);
    assert(digits.skip(0) == digits);
    let mut acc: u16 = 0;
    let mut i: usize = start;
    while i < to
        invariant
            start <= i <= to <= text.len(),
            s == text@.subrange(from as int, to as int),
            digits == text@.subrange(start as int, to as int),
            parse_number(s) == read_digits(0, digits),
            read_digits(0, digits) == read_digits(acc as int, digits.skip(i - start)),
        decreases to - i,
    {
        let c = text[i];
        let ghost rest = digits.skip(i - start);
        assert(rest[0] == c);
        assert(rest.drop_first() == digits.skip(i + 1 - start));
        if !(c >= '0' && c <= '9') {
            return Err(NumberError::InvalidDigit);
        }
        let d: u32 = c as u32 - '0' as u32;
        let next: u32 = acc as u32 * 10 + d;
        if next > 65535 {
            return Err(NumberError::TooLarge);
        }
        acc = next as u16;
        i = i + 1;
    }
    assert(digits.skip(to - start).len() == 0);
    Ok(acc)
}

/// The one-character text of the decimal digit `d`.
fn digit_text(d: u16) -> (t: &'static str)
    requires
        d < 10,
    ensures
        t@ == seq![digit_char(d as int)],
{
    proof {
        reveal_strlit("0");
        reveal_strlit("1");
        reveal_strlit("2");
        reveal_strlit("3");
        reveal_strlit("4");
        reveal_strlit("5");
        reveal_strlit("6");
        reveal_strlit("7");
        reveal_strlit("8");
        reveal_strlit("9");
    }
    let t = if d == 0 {
        "0"
    } else if d == 1 {
        "1"
    } else if d == 2 {
        "2"
    } else if d == 3 {
        "3"
    } else if d == 4 {
        "4"
    } else if d == 5 {
        "5"
    } else if d == 6 {
        "6"
    } else if d == 7 {
        "7"
    } else if d == 8 {
        "8"
    } else {
        "9"
    };
    assert(t@ =~= seq![digit_char(d as int)]);
    t
}

/// Appends the decimal numeral of `n` to `out`.
fn push_decimal(out: &mut String, n: u16)
    ensures
        final(out)@ == old(out)@ + decimal(n as nat),
    decreases n,
{
    if n >= 10 {
        push_decimal(out, n / 10);
    }
    out.append(digit_text(n % 10));
    proof {
        if n >= 10 {
            assert(final(out)@ =~= old(out)@ + decimal((n / 10) as nat).push(
                digit_char((n % 10) as int),
            ));
        }
    }
}

/// The message for an entry that is no number.
fn not_a_number_message(e: NumberError) -> (m: String)
    ensures
        m@ == not_a_number(e),
{
    let mut m = String::from_str("Failed to parse number: ");
    match e {
        NumberError::Empty => m.append("cannot parse integer from empty string"),
        NumberError::InvalidDigit => m.append("invalid digit found in string"),
        NumberError::TooLarge => m.append("number too large to fit in target type"),
    }
    m
}

/// The message for an entry whose number is above 255.
fn out_of_range_message(n: u16) -> (m: String)
    ensures
        m@ == out_of_range(n as nat),
{
    let mut m = String::from_str("Number ");
    push_decimal(&mut m, n);
    m.append(" out of byte range");
    m
}

/// The byte that the entry `text[from..to]` denotes.
fn decode_entry_at(text: &Vec<char>, from: usize, to: usize) -> (r: Result<u8, String>)
    requires
        from <= to <= text.len(),
    ensures
        match r {
            Ok(b) => decode_entry(text@.subrange(from as int, to as int)) == Ok::<u8, Seq<char>>(b),
            Err(m) => decode_entry(text@.subrange(from as int, to as int)) == Err::<u8, Seq<char>>(
                m@,
            ),
        },
{
    let (a, b) = trim_bounds(text, from, to, Trimmed::Spaces);
    match parse_number_at(text, a, b) {
        Err(e) => Err(not_a_number_message(e)),
        Ok(n) => if n > 255 {
            Err(out_of_range_message(n))
        } else {
            Ok(n as u8)
        },
    }
}

/// Decodes key material from its textual form.
///
/// The text is a list of decimal byte values separated by commas. Any run of
/// `[` and `]` at either end is dropped first, and white space around an
/// entry is ignored. An entry may carry a leading `+`. The result holds one
/// byte for each entry, in order.
///
/// The decoding fails on the first entry, from the left, that is empty, holds
/// anything but digits, or denotes a value above 255; the message names the
/// fault. A text without entries, such as `[]`, has one empty entry and
/// fails.
pub fn parse_bytes_from_string(input: &str) -> (result: Result<Vec<u8>, String>)
    ensures
        match result {
            Ok(bytes) => decode_key_material(input@) == Ok::<Seq<u8>, Seq<char>>(bytes@),
            Err(message) => decode_key_material(input@) == Err::<Seq<u8>, Seq<char>>(message@),
        },
{
    let text = chars_of(input);
    assert(text@.subrange(0, text.len() as int) == input@);
    let (lo, hi) = trim_bounds(&text, 0, text.len(), Trimmed::Brackets);
    let ghost body = text@.subrange(lo as int, hi as int);
    let mut bytes: Vec<u8> = Vec::new();
    let ghost mut done: Seq<Seq<char>> = Seq::empty();
    let mut pos: usize = lo;
    assert(body.skip(0) == body);
    assert(done + split_commas(body) == split_commas(body));
    loop
        invariant
            lo <= pos <= hi <= text.len(),
            body == text@.subrange(lo as int, hi as int),
            split_commas(body) == done + split_commas(body.skip(pos - lo)),
            decode_entries(done) == Ok::<Seq<u8>, Seq<char>>(bytes@),
            body == trim(input@, Trimmed::Brackets),
        decreases hi - pos,
    {
        let ghost rest = body.skip(pos - lo);
        let mut end: usize = pos;
        while end < hi && text[end] != ','
            invariant
                pos <= end <= hi <= text.len(),
                lo <= pos,
                body == text@.subrange(lo as int, hi as int),
                rest == body.skip(pos - lo),
                forall|j: int| 0 <= j < end - pos ==> rest[j] != ',',
            decreases hi - end,
        {
            end = end + 1;
        }
        proof {
            lemma_first_comma_is(rest, end - pos);
            assert(rest.take(end - pos) == text@.subrange(pos as int, end as int));
            if end == hi {
                assert(rest.take(end - pos) == rest);
            } else {
                assert(rest.skip(end - pos + 1) == body.skip(end + 1 - lo));
            }
        }
        let ghost piece = text@.subrange(pos as int, end as int);
        let entry = decode_entry_at(&text, pos, end);
        proof {
            lemma_entries_step(done, piece);
        }
        match entry {
            Err(message) => {
                proof {
                    let tail = if end == hi {
                        Seq::<Seq<char>>::empty()
                    } else {
                        split_commas(body.skip(end + 1 - lo))
                    };
                    assert(split_commas(body) == done.push(piece) + tail);
                    lemma_entries_error_stays(done.push(piece), tail);
                }
                return Err(message);
            },
            Ok(b) => {
                bytes.push(b);
                proof {
                    done = done.push(piece);
                }
                if end == hi {
                    assert(split_commas(body) == done);
                    return Ok(bytes);
                }
                pos = end + 1;
                assert(split_commas(body) == done + split_commas(body.skip(pos - lo)));
            },
        }
    }
}

} // verus!
