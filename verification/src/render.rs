use vstd::prelude::*;
use vstd::string::*;

verus! {

broadcast use vstd::string::group_string_axioms;

// ---------------------------------------------------------------------------
// Calls into std.

/// Calls `String::push`; the contract claims that the character is added at the end.
#[verifier::external_body]
pub fn push_char(text: &mut String, c: char)
    ensures
        final(text)@ == old(text)@.push(c),
{
    text.push(c);
}

/// Whether a character has the Unicode White_Space property: tab through carriage return,
/// space, next line, no-break space, ogham space mark, the spaces from en quad to hair space,
/// the line and paragraph separators, narrow no-break space, medium mathematical space and
/// ideographic space.
pub open spec fn white_space(c: char) -> bool {
    let code = c as u32;
    ||| 0x09 <= code <= 0x0D
    ||| code == 0x20
    ||| code == 0x85
    ||| code == 0xA0
    ||| code == 0x1680
    ||| 0x2000 <= code <= 0x200A
    ||| code == 0x2028
    ||| code == 0x2029
    ||| code == 0x202F
    ||| code == 0x205F
    ||| code == 0x3000
}

/// Whether a character has the Unicode White_Space property, as `char::is_whitespace` tells.
pub fn is_white_space(c: char) -> (b: bool)
    ensures
        b == white_space(c),
{
    let code = c as u32;
    (0x09 <= code && code <= 0x0D) || code == 0x20 || code == 0x85 || code == 0xA0 || code
        == 0x1680 || (0x2000 <= code && code <= 0x200A) || code == 0x2028 || code == 0x2029
        || code == 0x202F || code == 0x205F || code == 0x3000
}

// ---------------------------------------------------------------------------
// Numbers.

pub open spec fn digit(d: int) -> char {
    seq!['0', '1', '2', '3', '4', '5', '6', '7', '8', '9'][d]
}

/// The decimal digits of a number.
pub open spec fn digits(n: nat) -> Seq<char>
    decreases n,
{
    if n < 10 {
        seq![digit(n as int)]
    } else {
        digits(n / 10).push(digit((n % 10) as int))
    }
}

/// The decimal text of an integer, with a minus sign when it is negative.
pub open spec fn signed(i: int) -> Seq<char> {
    if i < 0 {
        seq!['-'] + digits((-i) as nat)
    } else {
        digits(i as nat)
    }
}

pub fn digit_char(d: u64) -> (c: char)
    requires
        d < 10,
    ensures
        c == digit(d as int),
{
    if d == 0 {
        '0'
    } else if d == 1 {
        '1'
    } else if d == 2 {
        '2'
    } else if d == 3 {
        '3'
    } else if d == 4 {
        '4'
    } else if d == 5 {
        '5'
    } else if d == 6 {
        '6'
    } else if d == 7 {
        '7'
    } else if d == 8 {
        '8'
    } else {
        '9'
    }
}

/// Appends the decimal digits of `n`.
pub fn push_nat(text: &mut String, n: u64)
    ensures
        final(text)@ == old(text)@ + digits(n as nat),
    decreases n,
{
    if n >= 10 {
        push_nat(text, n / 10);
    }
    push_char(text, digit_char(n % 10));
    proof {
        if n >= 10 {
            assert(digits(n as nat) == digits((n / 10) as nat).push(digit((n % 10) as int)));
        }
    }
}

/// Appends the decimal text of `i`.
pub fn push_int(text: &mut String, i: i64)
    ensures
        final(text)@ == old(text)@ + signed(i as int),
{
    if i < 0 {
        push_char(text, '-');
        let magnitude: u64 = if i == i64::MIN {
            9223372036854775808u64
        } else {
            (-i) as u64
        };
        push_nat(text, magnitude);
        assert(final(text)@ == old(text)@ + (seq!['-'] + digits((-i) as nat)));
    } else {
        push_nat(text, i as u64);
    }
}

/// The decimal text of `n`.
pub fn nat_text(n: u64) -> (text: String)
    ensures
        text@ == digits(n as nat),
{
    let mut text = String::new();
    push_nat(&mut text, n);
    assert(text@ == Seq::<char>::empty() + digits(n as nat));
    text
}

/// The decimal text of `i`.
pub fn int_text(i: i64) -> (text: String)
    ensures
        text@ == signed(i as int),
{
    let mut text = String::new();
    push_int(&mut text, i);
    assert(text@ == Seq::<char>::empty() + signed(i as int));
    text
}

// ---------------------------------------------------------------------------
// Characters.

/// The characters of a text.
pub fn chars_of(text: &str) -> (chars: Vec<char>)
    ensures
        chars@ == text@,
{
    let mut chars: Vec<char> = Vec::new();
    for c in iter: text.chars()
        invariant
            chars@ == iter.seq().take(iter.index() as int),
    {
        chars.push(c);
    }
    chars
}

/// Appends `chars[from..to]`.
pub fn push_slice(text: &mut String, chars: &Vec<char>, from: usize, to: usize)
    requires
        from <= to <= chars.len(),
    ensures
        final(text)@ == old(text)@ + chars@.subrange(from as int, to as int),
{
    let mut index = from;
    while index < to
        invariant
            from <= index <= to <= chars.len(),
            text@ == old(text)@ + chars@.subrange(from as int, index as int),
        decreases to - index,
    {
        push_char(text, chars[index]);
        assert(chars@.subrange(from as int, index + 1) == chars@.subrange(
            from as int,
            index as int,
        ).push(chars@[index as int]));
        index = index + 1;
    }
}

/// The first `count` characters of a text, or all of it when it is shorter.
pub fn first_chars(text: &str, count: usize) -> (first: String)
    ensures
        first@ == text@.take(if count < text@.len() {
            count as int
        } else {
            text@.len() as int
        }),
{
    let chars = chars_of(text);
    let end = if count < chars.len() {
        count
    } else {
        chars.len()
    };
    let mut first = String::new();
    push_slice(&mut first, &chars, 0, end);
    assert(first@ =~= text@.take(end as int));
    first
}

/// A copy of a text.
pub fn owned(text: &str) -> (copy: String)
    ensures
        copy@ == text@,
{
    String::from_str(text)
}

/// How many UTF-16 code units a character takes.
pub open spec fn utf16_units(c: char) -> nat {
    if (c as u32) < 0x10000 {
        1
    } else {
        2
    }
}

/// How many UTF-16 code units a text takes, which is how Discord measures it.
pub open spec fn utf16_length(text: Seq<char>) -> nat
    decreases text.len(),
{
    if text.len() == 0 {
        0
    } else {
        utf16_length(text.drop_last()) + utf16_units(text.last())
    }
}

proof fn lemma_utf16_prefix(text: Seq<char>, count: int)
    requires
        0 <= count <= text.len(),
    ensures
        utf16_length(text.take(count)) <= utf16_length(text),
    decreases text.len() - count,
{
    if count < text.len() {
        lemma_utf16_prefix(text, count + 1);
        assert(text.take(count + 1).drop_last() == text.take(count));
    } else {
        assert(text.take(count) == text);
    }
}

/// How many UTF-16 code units a text takes, counted up to `cap`: the count when it is below
/// `cap`, and `cap` otherwise.
pub fn discord_length(text: &str, cap: usize) -> (length: usize)
    requires
        cap < usize::MAX,
    ensures
        length == if utf16_length(text@) < cap {
            utf16_length(text@)
        } else {
            cap as nat
        },
{
    if cap == 0 {
        return 0;
    }
    let chars = chars_of(text);
    let mut length: usize = 0;
    let mut index: usize = 0;
    while index < chars.len()
        invariant
            chars@ == text@,
            cap < usize::MAX,
            index <= chars.len(),
            length == utf16_length(chars@.take(index as int)),
            length < cap,
        decreases chars.len() - index,
    {
        proof {
            assert(chars@.take(index + 1).drop_last() == chars@.take(index as int));
            lemma_utf16_prefix(chars@, index + 1);
        }
        if (chars[index] as u32) < 0x10000 {
            length = length + 1;
        } else {
            length = length + 2;
        }
        index = index + 1;
        if length >= cap {
            proof {
                lemma_utf16_prefix(chars@, index as int);
            }
            return cap;
        }
    }
    assert(chars@.take(chars.len() as int) == chars@);
    length
}

/// Whether two texts are the same.
pub fn same_text(a: &str, b: &str) -> (same: bool)
    ensures
        same == (a@ == b@),
{
    let left = chars_of(a);
    let right = chars_of(b);
    if left.len() != right.len() {
        assert(a@.len() != b@.len());
        return false;
    }
    let mut index: usize = 0;
    while index < left.len()
        invariant
            left@ == a@,
            right@ == b@,
            left.len() == right.len(),
            index <= left.len(),
            forall|i: int| 0 <= i < index ==> left@[i] == right@[i],
        decreases left.len() - index,
    {
        if left[index] != right[index] {
            assert(a@[index as int] != b@[index as int]);
            return false;
        }
        index = index + 1;
    }
    assert(a@ =~= b@);
    true
}

/// Whether the text's last character is `c`.
pub fn ends_with_char(text: &str, c: char) -> (ends: bool)
    ensures
        ends == (text@.len() > 0 && text@.last() == c),
{
    let chars = chars_of(text);
    chars.len() > 0 && chars[chars.len() - 1] == c
}

// ---------------------------------------------------------------------------
// Trimming.

/// The position of the first character at or after `from` that is not white space.
pub open spec fn lead_end(text: Seq<char>, from: int) -> int
    decreases text.len() - from,
{
    if from < 0 || from >= text.len() {
        text.len() as int
    } else if white_space(text[from]) {
        lead_end(text, from + 1)
    } else {
        from
    }
}

/// The end of the text once trailing white space from `to` back to `floor` is cut.
pub open spec fn trail_start(text: Seq<char>, to: int, floor: int) -> int
    decreases to - floor,
{
    if to <= floor {
        floor
    } else if white_space(text[to - 1]) {
        trail_start(text, to - 1, floor)
    } else {
        to
    }
}

/// The text without leading and trailing white space.
pub open spec fn trimmed(text: Seq<char>) -> Seq<char> {
    let start = lead_end(text, 0);
    text.subrange(start, trail_start(text, text.len() as int, start))
}

proof fn lemma_lead_end_bounds(text: Seq<char>, from: int)
    requires
        0 <= from <= text.len(),
    ensures
        from <= lead_end(text, from) <= text.len(),
    decreases text.len() - from,
{
    if from < text.len() && white_space(text[from]) {
        lemma_lead_end_bounds(text, from + 1);
    }
}

proof fn lemma_trail_start_bounds(text: Seq<char>, to: int, floor: int)
    requires
        floor <= to,
    ensures
        floor <= trail_start(text, to, floor) <= to,
    decreases to - floor,
{
    if to > floor && white_space(text[to - 1]) {
        lemma_trail_start_bounds(text, to - 1, floor);
    }
}

/// The text without leading and trailing white space.
pub fn trim(text: &str) -> (trimmed_text: String)
    ensures
        trimmed_text@ == trimmed(text@),
{
    let chars = chars_of(text);
    let mut start: usize = 0;
    while start < chars.len() && is_white_space(chars[start])
        invariant
            chars@ == text@,
            start <= chars.len(),
            lead_end(chars@, 0) == lead_end(chars@, start as int),
        decreases chars.len() - start,
    {
        start = start + 1;
    }
    let mut end: usize = chars.len();
    while end > start && is_white_space(chars[end - 1])
        invariant
            chars@ == text@,
            start <= end <= chars.len(),
            lead_end(chars@, 0) == start,
            trail_start(chars@, chars.len() as int, start as int) == trail_start(
                chars@,
                end as int,
                start as int,
            ),
        decreases end - start,
    {
        end = end - 1;
    }
    let mut trimmed_text = String::new();
    push_slice(&mut trimmed_text, &chars, start, end);
    assert(trimmed_text@ =~= chars@.subrange(start as int, end as int));
    trimmed_text
}

// ---------------------------------------------------------------------------
// Joining.

/// The parts with `separator` between each two of them.
pub open spec fn joined(parts: Seq<Seq<char>>, separator: Seq<char>) -> Seq<char>
    decreases parts.len(),
{
    if parts.len() == 0 {
        Seq::empty()
    } else if parts.len() == 1 {
        parts[0]
    } else {
        joined(parts.drop_last(), separator) + separator + parts.last()
    }
}

/// The texts of owned strings.
pub open spec fn texts(parts: Seq<String>) -> Seq<Seq<char>> {
    parts.map_values(|part: String| part@)
}

/// The texts of string slices.
pub open spec fn str_texts(parts: Seq<&str>) -> Seq<Seq<char>> {
    parts.map_values(|part: &str| part@)
}

/// Joins owned strings with a separator.
pub fn join(parts: &[String], separator: &str) -> (text: String)
    ensures
        text@ == joined(texts(parts@), separator@),
{
    let ghost all = texts(parts@);
    let mut text = String::new();
    let mut index: usize = 0;
    while index < parts.len()
        invariant
            all == texts(parts@),
            index <= parts.len(),
            text@ == joined(all.take(index as int), separator@),
        decreases parts.len() - index,
    {
        assert(all.take(index + 1).drop_last() == all.take(index as int));
        if index > 0 {
            text.append(separator);
        }
        text.append(parts[index].as_str());
        index = index + 1;
    }
    assert(all.take(parts.len() as int) == all);
    text
}

/// Joins string slices with a separator.
pub fn join_strs(parts: &[&str], separator: &str) -> (text: String)
    ensures
        text@ == joined(str_texts(parts@), separator@),
{
    let ghost all = str_texts(parts@);
    let mut text = String::new();
    let mut index: usize = 0;
    while index < parts.len()
        invariant
            all == str_texts(parts@),
            index <= parts.len(),
            text@ == joined(all.take(index as int), separator@),
        decreases parts.len() - index,
    {
        assert(all.take(index + 1).drop_last() == all.take(index as int));
        if index > 0 {
            text.append(separator);
        }
        text.append(parts[index]);
        index = index + 1;
    }
    assert(all.take(parts.len() as int) == all);
    text
}

/// The UTF-16 length of two texts one after the other is the sum of their lengths.
pub proof fn lemma_utf16_length_concat(first: Seq<char>, second: Seq<char>)
    ensures
        utf16_length(first + second) == utf16_length(first) + utf16_length(second),
    decreases second.len(),
{
    if second.len() == 0 {
        assert(first + second == first);
    } else {
        lemma_utf16_length_concat(first, second.drop_last());
        assert((first + second).drop_last() == first + second.drop_last());
        assert((first + second).last() == second.last());
    }
}

} // verus!
