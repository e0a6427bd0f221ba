use vstd::prelude::*;

use crate::text::Refusal;
use vstd::string::*;

use crate::ids::GuildId;
use crate::ids::Ping;
use crate::ids::RoleId;
use crate::render::chars_of;
use crate::render::digit;
use crate::render::str_texts;
use crate::ships::RoundOptions;
use crate::ships::Tier;
use crate::ships::HIGHEST_TIER;
use crate::solves::Ranking;
use crate::render::digits;
use crate::render::push_nat;
use crate::render::push_char;
use crate::render::digit_char;
use crate::attendance::Delivery;
use crate::attendance::Target;
use crate::schedule::civil_date_exists;
use crate::schedule::Day;
use crate::schedule::Hour;
use crate::schedule::Night;

verus! {

broadcast use vstd::string::group_string_axioms;

pub const CANCEL_PREFIX: &'static str = "barnacle-cancel:";
pub const ENDED_BUTTON_ID: &'static str = "barnacle-cancel:ended";

/// Whether a sign-up post's ping will be heard.
#[derive(Debug, Clone, Copy, PartialEq, Eq, Structural)]
pub enum PingVerdict {
    Sounds,
    BlockedByChannel,
    Silent,
    Unchecked,
}

/// What decides whether a ping is heard.
#[derive(Debug, Clone, Copy, PartialEq, Eq, Structural)]
pub struct PingReach {
    pub role_mentionable: bool,
    pub server_grant: bool,
    pub channel_grant: bool,
}

pub open spec fn cancel_prefix() -> Seq<char> {
    seq!['b', 'a', 'r', 'n', 'a', 'c', 'l', 'e', '-', 'c', 'a', 'n', 'c', 'e', 'l', ':']
}

/// The custom ID of a round's cancel button.
pub fn cancel_button_id(number: u64) -> (id: String)
    ensures
        id@ == cancel_prefix() + digits(number as nat),
{
    proof {
        reveal_strlit("barnacle-cancel:");
    }
    let mut id = String::from_str(CANCEL_PREFIX);
    push_nat(&mut id, number);
    id
}

pub open spec fn is_digit(c: char) -> bool {
    '0' <= c && c <= '9'
}

pub open spec fn digit_value(c: char) -> int {
    c as int - '0' as int
}

/// The number a run of decimal digits spells.
pub open spec fn digits_value(text: Seq<char>) -> int
    decreases text.len(),
{
    if text.len() == 0 {
        0
    } else {
        digits_value(text.drop_last()) * 10 + digit_value(text.last())
    }
}

/// The `u64` a text spells in decimal, with an optional leading plus sign, as `str::parse`
/// reads it.
pub open spec fn parsed_u64(text: Seq<char>) -> Option<u64> {
    parsed_digits(unsigned_body(text))
}

/// The text without a leading plus sign.
pub open spec fn unsigned_body(text: Seq<char>) -> Seq<char> {
    if text.len() > 0 && text[0] == '+' {
        text.drop_first()
    } else {
        text
    }
}

pub open spec fn all_digits(text: Seq<char>) -> bool {
    forall|i: int| 0 <= i < text.len() ==> is_digit(#[trigger] text[i])
}

/// The `u64` a non-empty run of decimal digits spells, if it fits.
pub open spec fn parsed_digits(body: Seq<char>) -> Option<u64> {
    if body.len() > 0 && all_digits(body) && digits_value(body) <= u64::MAX {
        Some(digits_value(body) as u64)
    } else {
        None
    }
}

proof fn lemma_digits_value_step(text: Seq<char>, count: int)
    requires
        0 <= count < text.len(),
    ensures
        digits_value(text.take(count + 1)) == digits_value(text.take(count)) * 10 + digit_value(
            text[count],
        ),
{
    assert(text.take(count + 1).drop_last() == text.take(count));
}

proof fn lemma_digits_value_grows(text: Seq<char>, count: int)
    requires
        0 <= count <= text.len(),
        forall|i: int| 0 <= i < text.len() ==> is_digit(#[trigger] text[i]),
    ensures
        digits_value(text.take(count)) <= digits_value(text),
        0 <= digits_value(text.take(count)),
    decreases text.len() - count,
{
    if count < text.len() {
        lemma_digits_value_grows(text, count + 1);
        lemma_digits_value_step(text, count);
    } else {
        assert(text.take(count) == text);
        lemma_digits_nonnegative(text);
    }
}

proof fn lemma_digits_nonnegative(text: Seq<char>)
    requires
        forall|i: int| 0 <= i < text.len() ==> is_digit(#[trigger] text[i]),
    ensures
        0 <= digits_value(text),
    decreases text.len(),
{
    if text.len() > 0 {
        assert(forall|i: int| 0 <= i < text.drop_last().len() ==> text.drop_last()[i] == text[i]);
        lemma_digits_nonnegative(text.drop_last());
    }
}

/// Reads a `u64` from `chars[from..]` as `str::parse` does.
fn parse_u64_from(chars: &Vec<char>, from: usize) -> (parsed: Option<u64>)
    requires
        from <= chars.len(),
    ensures
        parsed == parsed_u64(chars@.skip(from as int)),
{
    let ghost text = chars@.skip(from as int);
    let mut start = from;
    if start < chars.len() && chars[start] == '+' {
        start = start + 1;
    }
    let ghost body = chars@.skip(start as int);
    assert(body == unsigned_body(text));
    if start >= chars.len() {
        assert(body.len() == 0);
        return None;
    }
    if exists_non_digit(chars, start) {
        proof {
            let i = choose|i: int| start <= i < chars.len() && !is_digit(#[trigger] chars@[i]);
            assert(!is_digit(body[i - start]));
            assert(!all_digits(body));
        }
        return None;
    }
    assert forall|i: int| 0 <= i < body.len() implies is_digit(#[trigger] body[i]) by {
        assert(body[i] == chars@[start + i]);
    }
    assert(all_digits(body));
    let mut value: u64 = 0;
    let mut index = start;
    while index < chars.len()
        invariant
            start <= index <= chars.len(),
            body == chars@.skip(start as int),
            text == chars@.skip(from as int),
            body == unsigned_body(text),
            body.len() > 0,
            forall|i: int| 0 <= i < body.len() ==> is_digit(#[trigger] body[i]),
            value == digits_value(body.take(index - start)),
        decreases chars.len() - index,
    {
        let c = chars[index];
        assert(is_digit(body[index - start]));
        let d = (c as u32 - '0' as u32) as u64;
        proof {
            lemma_digits_value_step(body, index - start);
        }
        if value > (u64::MAX - d) / 10 {
            proof {
                assert(digits_value(body.take(index - start + 1)) > u64::MAX) by (nonlinear_arith)
                    requires
                        value > (u64::MAX - d) / 10,
                        digits_value(body.take(index - start + 1)) == value * 10 + d,
                        d <= 9,
                ;
                lemma_digits_value_grows(body, index - start + 1);
                assert(digits_value(body) > u64::MAX);
            }
            return None;
        }
        value = value * 10 + d;
        index = index + 1;
    }
    assert(body.take(index - start) == body);
    Some(value)
}

/// Whether any of `chars[from..]` is not a decimal digit.
fn exists_non_digit(chars: &Vec<char>, from: usize) -> (found: bool)
    requires
        from <= chars.len(),
    ensures
        !found ==> forall|i: int| from <= i < chars.len() ==> is_digit(#[trigger] chars@[i]),
        found ==> exists|i: int| from <= i < chars.len() && !is_digit(#[trigger] chars@[i]),
{
    let mut index = from;
    while index < chars.len()
        invariant
            from <= index <= chars.len(),
            forall|i: int| from <= i < index ==> is_digit(#[trigger] chars@[i]),
        decreases chars.len() - index,
    {
        let c = chars[index];
        if !('0' <= c && c <= '9') {
            return true;
        }
        index = index + 1;
    }
    false
}

/// The round number a cancel button's custom ID carries.
pub fn round_number(custom_id: &str) -> (number: Option<u64>)
    ensures
        number == (if custom_id@.len() >= cancel_prefix().len() && custom_id@.take(
            cancel_prefix().len() as int,
        ) == cancel_prefix() {
            parsed_u64(custom_id@.skip(cancel_prefix().len() as int))
        } else {
            None
        }),
{
    let chars = chars_of(custom_id);
    let prefix = chars_of(CANCEL_PREFIX);
    proof {
        reveal_strlit("barnacle-cancel:");
        assert(prefix@ == cancel_prefix());
    }
    if chars.len() < prefix.len() {
        return None;
    }
    let mut index: usize = 0;
    while index < prefix.len()
        invariant
            prefix@ == cancel_prefix(),
            chars@ == custom_id@,
            chars.len() >= prefix.len(),
            index <= prefix.len(),
            forall|i: int| 0 <= i < index ==> chars@[i] == prefix@[i],
        decreases prefix.len() - index,
    {
        if chars[index] != prefix[index] {
            assert(custom_id@.take(prefix@.len() as int)[index as int] != cancel_prefix()[index as int]);
            return None;
        }
        index = index + 1;
    }
    assert(custom_id@.take(prefix@.len() as int) =~= cancel_prefix());
    parse_u64_from(&chars, prefix.len())
}

// ---------------------------------------------------------------------------
// Sign-up buttons.

pub const SIGNUP_PREFIX: &'static str = "barnacle-signup:";

/// A sign-up button's custom ID is the prefix, fixed-width decimal fields for the season and for
/// the night's year (plus 10000), month and day, then a character for the hours it answers
/// (`a` for all, or the hour's number) and one for the answer (`y` or `n`). Fixed widths make
/// every click read back as exactly the ID it came from.
pub const SIGNUP_ID_LENGTH: usize = 47;

pub open spec fn signup_prefix() -> Seq<char> {
    seq!['b', 'a', 'r', 'n', 'a', 'c', 'l', 'e', '-', 's', 'i', 'g', 'n', 'u', 'p', ':']
}

/// A click on a sign-up button, as its custom ID carries it.
#[derive(Debug, Clone, Copy, PartialEq, Eq, Structural)]
pub struct SignupClick {
    pub season: i64,
    pub night: Night,
    pub target: Target,
    pub attending: bool,
}

pub open spec fn pow10(n: nat) -> nat
    decreases n,
{
    if n == 0 {
        1
    } else {
        10 * pow10((n - 1) as nat)
    }
}

/// `n` as `width` decimal digits, with leading zeros.
pub open spec fn padded(n: nat, width: nat) -> Seq<char>
    decreases width,
{
    if width == 0 {
        Seq::empty()
    } else {
        padded(n / 10, (width - 1) as nat).push(digit((n % 10) as int))
    }
}

pub open spec fn target_char(target: Target) -> char {
    match target {
        Target::All => 'a',
        Target::One(hour) => digit(hour.number()),
    }
}

pub open spec fn choice_char(attending: bool) -> char {
    if attending {
        'y'
    } else {
        'n'
    }
}

/// What the custom IDs of a season's sign-up buttons for a night begin with.
pub open spec fn signup_tag_text(season: i64, night: Night) -> Seq<char> {
    let (year, month, day) = night.day().parts();
    signup_prefix() + padded((season as u64) as nat, 20) + padded((year + 10000) as nat, 5)
        + padded(month as nat, 2) + padded(day as nat, 2)
}

pub open spec fn signup_id_text(click: SignupClick) -> Seq<char> {
    signup_tag_text(click.season, click.night) + seq![
        target_char(click.target),
        choice_char(click.attending),
    ]
}

pub open spec fn target_of(c: char) -> Option<Target> {
    if c == 'a' {
        Some(Target::All)
    } else if '1' <= c && c <= '4' {
        Some(Target::One(Hour::numbered(digit_value(c))))
    } else {
        None
    }
}

pub open spec fn choice_of(c: char) -> Option<bool> {
    if c == 'y' {
        Some(true)
    } else if c == 'n' {
        Some(false)
    } else {
        None
    }
}

/// The `width` characters of an ID from position `from`.
pub open spec fn id_field(id: Seq<char>, from: int, width: int) -> Seq<char> {
    id.subrange(from, from + width)
}

/// The click a custom ID carries, read field by field; `None` for an ID that no sign-up
/// button carries.
pub open spec fn parsed_signup(id: Seq<char>) -> Option<SignupClick> {
    if id.len() == SIGNUP_ID_LENGTH && id.take(16) == signup_prefix() && all_digits(
        id.subrange(16, 45),
    ) {
        let season = digits_value(id_field(id, 16, 20));
        let year = digits_value(id_field(id, 36, 5)) - 10000;
        let month = digits_value(id_field(id, 41, 2));
        let day = digits_value(id_field(id, 43, 2));
        if season <= u64::MAX && civil_date_exists(year, month, day) {
            match (Night::at(Day::of_parts((year, month, day))), target_of(id[45]), choice_of(id[46])) {
                (Some(night), Some(target), Some(attending)) => Some(
                    SignupClick { season: (season as u64) as i64, night, target, attending },
                ),
                _ => None,
            }
        } else {
            None
        }
    } else {
        None
    }
}

proof fn lemma_digit(d: int)
    requires
        0 <= d < 10,
    ensures
        is_digit(digit(d)),
        digit_value(digit(d)) == d,
{
    assert(digit(0) == '0' && digit(1) == '1' && digit(2) == '2' && digit(3) == '3' && digit(4)
        == '4' && digit(5) == '5' && digit(6) == '6' && digit(7) == '7' && digit(8) == '8'
        && digit(9) == '9');
}

proof fn lemma_digit_of_char(c: char)
    requires
        is_digit(c),
    ensures
        0 <= digit_value(c) < 10,
        digit(digit_value(c)) == c,
{
    lemma_digit(digit_value(c));
    assert(c == '0' || c == '1' || c == '2' || c == '3' || c == '4' || c == '5' || c == '6' || c
        == '7' || c == '8' || c == '9');
}

proof fn lemma_pow10_values()
    ensures
        pow10(2) == 100,
        pow10(5) == 100000,
        pow10(19) == 10000000000000000000,
        pow10(20) == 100000000000000000000,
{
    reveal_with_fuel(pow10, 21);
}

proof fn lemma_pow10_grows(small: nat, large: nat)
    requires
        small <= large,
    ensures
        pow10(small) <= pow10(large),
        1 <= pow10(small),
    decreases large,
{
    if small < large {
        lemma_pow10_grows(small, (large - 1) as nat);
    } else if small > 0 {
        lemma_pow10_grows((small - 1) as nat, (small - 1) as nat);
    }
}

/// Padding a number that fits gives `width` digits that spell it.
proof fn lemma_padded(n: nat, width: nat)
    requires
        n < pow10(width),
    ensures
        padded(n, width).len() == width,
        all_digits(padded(n, width)),
        digits_value(padded(n, width)) == n,
    decreases width,
{
    if width > 0 {
        let rest = (width - 1) as nat;
        assert(n / 10 < pow10(rest)) by (nonlinear_arith)
            requires
                n < 10 * pow10(rest),
        ;
        lemma_padded(n / 10, rest);
        lemma_digit((n % 10) as int);
        let s = padded(n, width);
        assert(s.drop_last() =~= padded(n / 10, rest));
        assert((n / 10) * 10 + n % 10 == n) by (nonlinear_arith);
        assert forall|i: int| 0 <= i < s.len() implies is_digit(#[trigger] s[i]) by {
            if i < rest {
                assert(s[i] == padded(n / 10, rest)[i]);
            }
        }
    }
}

/// A run of `width` digits is the padding of the number it spells.
proof fn lemma_padded_canonical(s: Seq<char>)
    requires
        all_digits(s),
    ensures
        digits_value(s) < pow10(s.len()),
        padded(digits_value(s) as nat, s.len()) == s,
    decreases s.len(),
{
    if s.len() > 0 {
        let t = s.drop_last();
        let c = s.last();
        assert(all_digits(t)) by {
            assert forall|i: int| 0 <= i < t.len() implies is_digit(#[trigger] t[i]) by {
                assert(t[i] == s[i]);
            }
        }
        lemma_padded_canonical(t);
        lemma_digit_of_char(c);
        lemma_digits_nonnegative(t);
        let v = digits_value(s);
        let d = digit_value(c);
        assert(v == digits_value(t) * 10 + d);
        assert(v / 10 == digits_value(t) && v % 10 == d) by (nonlinear_arith)
            requires
                v == digits_value(t) * 10 + d,
                0 <= d < 10,
                0 <= digits_value(t),
        ;
        assert(v < 10 * pow10(t.len())) by (nonlinear_arith)
            requires
                v == digits_value(t) * 10 + d,
                d < 10,
                digits_value(t) < pow10(t.len()),
        ;
        assert(padded(v as nat, s.len()) =~= t.push(c));
        assert(t.push(c) =~= s);
    }
}

/// Appends `n` as `width` digits with leading zeros.
fn push_padded(text: &mut String, n: u64, width: usize)
    ensures
        final(text)@ == old(text)@ + padded(n as nat, width as nat),
    decreases width,
{
    if width > 0 {
        push_padded(text, n / 10, width - 1);
        push_char(text, digit_char(n % 10));
        proof {
            assert(padded(n as nat, width as nat) == padded((n / 10) as nat, (width - 1) as nat).push(
                digit((n % 10) as int),
            ));
            assert(final(text)@ =~= old(text)@ + padded(n as nat, width as nat));
        }
    } else {
        assert(old(text)@ + padded(n as nat, 0) =~= old(text)@);
    }
}

/// What the custom IDs of a season's sign-up buttons for a night begin with, so that a post
/// can be found by its buttons.
pub fn signup_tag_prefix(season: i64, night: Night) -> (tag: String)
    ensures
        tag@ == signup_tag_text(season, night),
{
    let (year, month, day) = night.date().numbers();
    let mut tag = String::from_str(SIGNUP_PREFIX);
    proof {
        reveal_strlit("barnacle-signup:");
    }
    push_padded(&mut tag, season as u64, 20);
    push_padded(&mut tag, (year as i32 + 10000) as u64, 5);
    push_padded(&mut tag, month as u64, 2);
    push_padded(&mut tag, day as u64, 2);
    tag
}

/// The custom ID of the sign-up button for this click.
pub fn signup_button_id(click: SignupClick) -> (id: String)
    ensures
        id@ == signup_id_text(click),
{
    let mut id = signup_tag_prefix(click.season, click.night);
    let hours = match click.target {
        Target::All => 'a',
        Target::One(hour) => digit_char(hour.get() as u64),
    };
    push_char(&mut id, hours);
    push_char(&mut id, if click.attending {
        'y'
    } else {
        'n'
    });
    assert(id@ =~= signup_id_text(click));
    id
}

/// The number that `chars[from..from + width]` spells, or `None` when one of them is not a
/// digit.
fn fixed_digits(chars: &Vec<char>, from: usize, width: usize) -> (value: Option<u128>)
    requires
        from + width <= chars.len(),
        width <= 20,
    ensures
        match value {
            Some(value) => all_digits(id_field(chars@, from as int, width as int)) && value
                == digits_value(id_field(chars@, from as int, width as int)),
            None => !all_digits(id_field(chars@, from as int, width as int)),
        },
{
    let ghost field = id_field(chars@, from as int, width as int);
    proof {
        lemma_pow10_values();
        lemma_pow10_grows(width as nat, 20);
    }
    let mut value: u128 = 0;
    let mut count: usize = 0;
    while count < width
        invariant
            field == id_field(chars@, from as int, width as int),
            from + width <= chars.len(),
            width <= 20,
            count <= width,
            pow10(20) == 100000000000000000000,
            forall|i: int| 0 <= i < count ==> is_digit(#[trigger] field[i]),
            value == digits_value(field.take(count as int)),
            value < pow10(count as nat),
        decreases width - count,
    {
        let c = chars[from + count];
        assert(c == field[count as int]);
        if !('0' <= c && c <= '9') {
            return None;
        }
        let d = (c as u32 - '0' as u32) as u128;
        proof {
            lemma_digits_value_step(field, count as int);
            lemma_pow10_grows((count + 1) as nat, 20);
            assert(value * 10 + d < pow10((count + 1) as nat)) by (nonlinear_arith)
                requires
                    value < pow10(count as nat),
                    d < 10,
                    pow10((count + 1) as nat) == 10 * pow10(count as nat),
            ;
        }
        value = value * 10 + d;
        count = count + 1;
    }
    assert(field.take(width as int) =~= field);
    Some(value)
}

/// The click a sign-up button's custom ID carries.
pub fn signup_click(custom_id: &str) -> (click: Option<SignupClick>)
    ensures
        click == parsed_signup(custom_id@),
{
    let chars = chars_of(custom_id);
    if chars.len() != SIGNUP_ID_LENGTH {
        return None;
    }
    let prefix = chars_of(SIGNUP_PREFIX);
    proof {
        reveal_strlit("barnacle-signup:");
        assert(prefix@ == signup_prefix());
    }
    let mut index: usize = 0;
    while index < prefix.len()
        invariant
            prefix@ == signup_prefix(),
            chars@ == custom_id@,
            chars.len() == SIGNUP_ID_LENGTH,
            index <= prefix.len(),
            forall|i: int| 0 <= i < index ==> chars@[i] == prefix@[i],
        decreases prefix.len() - index,
    {
        if chars[index] != prefix[index] {
            assert(custom_id@.take(16)[index as int] != signup_prefix()[index as int]);
            return None;
        }
        index = index + 1;
    }
    assert(custom_id@.take(16) =~= signup_prefix());
    let ghost digits_part = custom_id@.subrange(16, 45);
    let season = fixed_digits(&chars, 16, 20);
    let year = fixed_digits(&chars, 36, 5);
    let month = fixed_digits(&chars, 41, 2);
    let day = fixed_digits(&chars, 43, 2);
    proof {
        lemma_fields_digits(custom_id@);
    }
    let (season, year, month, day) = match (season, year, month, day) {
        (Some(season), Some(year), Some(month), Some(day)) => (season, year, month, day),
        _ => return None,
    };
    proof {
        lemma_pow10_values();
        lemma_padded_canonical(id_field(custom_id@, 36, 5));
        lemma_padded_canonical(id_field(custom_id@, 41, 2));
        lemma_padded_canonical(id_field(custom_id@, 43, 2));
    }
    if season > u64::MAX as u128 {
        return None;
    }
    if year < 1 || year > 19999 || month > 12 || day > 31 {
        return None;
    }
    let found = match Day::from_numbers((year as i32 - 10000) as i16, month as i8, day as i8) {
        Some(found) => found,
        None => return None,
    };
    let night = match Night::on(found) {
        Some(night) => night,
        None => return None,
    };
    let hours = chars[45];
    let target = if hours == 'a' {
        Target::All
    } else if '1' <= hours && hours <= '4' {
        let number = (hours as u32 - '0' as u32) as u8;
        match Hour::new(number) {
            Some(hour) => {
                proof {
                    Hour::lemma_numbered(number as int);
                    hour.lemma_number_identifies(Hour::numbered(number as int));
                }
                Target::One(hour)
            },
            None => return None,
        }
    } else {
        return None;
    };
    let answer = chars[46];
    let attending = if answer == 'y' {
        true
    } else if answer == 'n' {
        false
    } else {
        return None;
    };
    Some(SignupClick { season: (season as u64) as i64, night, target, attending })
}

/// A sign-up button's custom ID reads back as the click it was made for, and begins with the
/// tag of its post.
pub proof fn law_signup_id_round_trip(click: SignupClick)
    requires
        click.night.well_timed(),
        click.night.day().valid_date(),
        click.target matches Target::One(hour) ==> hour.in_night(),
    ensures
        parsed_signup(signup_id_text(click)) == Some(click),
        signup_id_text(click).take(signup_tag_text(click.season, click.night).len() as int)
            == signup_tag_text(click.season, click.night),
{
    let id = signup_id_text(click);
    let (year, month, day) = click.night.day().parts();
    let season_digits = padded((click.season as u64) as nat, 20);
    let year_digits = padded((year + 10000) as nat, 5);
    let month_digits = padded(month as nat, 2);
    let day_digits = padded(day as nat, 2);
    lemma_pow10_values();
    click.night.day().lemma_valid_parts();
    lemma_padded((click.season as u64) as nat, 20);
    lemma_padded((year + 10000) as nat, 5);
    lemma_padded(month as nat, 2);
    lemma_padded(day as nat, 2);
    let tag = signup_tag_text(click.season, click.night);
    assert(id.take(tag.len() as int) =~= tag);
    assert(id.take(16) =~= signup_prefix());
    assert(id_field(id, 16, 20) =~= season_digits);
    assert(id_field(id, 36, 5) =~= year_digits);
    assert(id_field(id, 41, 2) =~= month_digits);
    assert(id_field(id, 43, 2) =~= day_digits);
    lemma_fields_digits(id);
    let season = click.season;
    assert(((season as u64) as i64) == season) by (bit_vector);
    click.night.day().lemma_of_own_parts();
    click.night.lemma_start_bounds();
    match click.target {
        Target::All => {},
        Target::One(hour) => {
            hour.lemma_number();
            lemma_digit(hour.number());
            Hour::lemma_numbered(hour.number());
            hour.lemma_number_identifies(Hour::numbered(hour.number()));
            assert(digit(1) == '1' && digit(2) == '2' && digit(3) == '3' && digit(4) == '4');
        },
    }
}

/// Only the custom IDs that sign-up buttons carry read back as clicks: a click read from an
/// ID is the click whose button carries that very ID.
pub proof fn law_signup_ids_are_canonical(id: Seq<char>)
    ensures
        parsed_signup(id) matches Some(click) ==> signup_id_text(click) == id,
{
    if let Some(click) = parsed_signup(id) {
        lemma_fields_digits(id);
        lemma_pow10_values();
        let season = digits_value(id_field(id, 16, 20));
        let year = digits_value(id_field(id, 36, 5)) - 10000;
        let month = digits_value(id_field(id, 41, 2));
        let day = digits_value(id_field(id, 43, 2));
        lemma_padded_canonical(id_field(id, 16, 20));
        lemma_padded_canonical(id_field(id, 36, 5));
        lemma_padded_canonical(id_field(id, 41, 2));
        lemma_padded_canonical(id_field(id, 43, 2));
        lemma_digits_nonnegative(id_field(id, 16, 20));
        assert(0 <= season <= u64::MAX);
        let v = season as u64;
        assert(((v as i64) as u64) == v) by (bit_vector);
        Night::lemma_on_day(Day::of_parts((year, month, day)));
        Day::lemma_parts_of((year, month, day));
        assert(click.night.day().parts() == (year, month, day));
        assert(click.season == v as i64);
        assert(v as nat == season);
        assert((click.season as u64) == v);
        let tag = signup_tag_text(click.season, click.night);
        assert(padded((click.season as u64) as nat, 20) == id_field(id, 16, 20));
        assert(padded((year + 10000) as nat, 5) == id_field(id, 36, 5));
        assert(tag =~= id.take(45));
        let hours = id[45];
        if hours != 'a' {
            Hour::lemma_numbered(digit_value(hours));
            lemma_digit(digit_value(hours));
            assert(hours == '1' || hours == '2' || hours == '3' || hours == '4');
            assert(digit(1) == '1' && digit(2) == '2' && digit(3) == '3' && digit(4) == '4');
        }
        assert(target_char(click.target) == id[45]);
        assert(choice_char(click.attending) == id[46]);
        assert(id =~= signup_id_text(click));
    }
}

/// The digits part of an ID is all digits exactly when each of its fields is.
proof fn lemma_fields_digits(id: Seq<char>)
    requires
        id.len() == SIGNUP_ID_LENGTH,
    ensures
        all_digits(id.subrange(16, 45)) <==> (all_digits(id_field(id, 16, 20)) && all_digits(
            id_field(id, 36, 5),
        ) && all_digits(id_field(id, 41, 2)) && all_digits(id_field(id, 43, 2))),
{
    let part = id.subrange(16, 45);
    if all_digits(part) {
        assert forall|i: int| 0 <= i < 20 implies is_digit(#[trigger] id_field(id, 16, 20)[i]) by {
            assert(id_field(id, 16, 20)[i] == part[i]);
        }
        assert forall|i: int| 0 <= i < 5 implies is_digit(#[trigger] id_field(id, 36, 5)[i]) by {
            assert(id_field(id, 36, 5)[i] == part[20 + i]);
        }
        assert forall|i: int| 0 <= i < 2 implies is_digit(#[trigger] id_field(id, 41, 2)[i]) by {
            assert(id_field(id, 41, 2)[i] == part[25 + i]);
        }
        assert forall|i: int| 0 <= i < 2 implies is_digit(#[trigger] id_field(id, 43, 2)[i]) by {
            assert(id_field(id, 43, 2)[i] == part[27 + i]);
        }
    }
    if all_digits(id_field(id, 16, 20)) && all_digits(id_field(id, 36, 5)) && all_digits(
        id_field(id, 41, 2),
    ) && all_digits(id_field(id, 43, 2)) {
        assert forall|i: int| 0 <= i < part.len() implies is_digit(#[trigger] part[i]) by {
            if i < 20 {
                assert(part[i] == id_field(id, 16, 20)[i]);
            } else if i < 25 {
                assert(part[i] == id_field(id, 36, 5)[i - 20]);
            } else if i < 27 {
                assert(part[i] == id_field(id, 41, 2)[i - 25]);
            } else {
                assert(part[i] == id_field(id, 43, 2)[i - 27]);
            }
        }
    }
}

// ---------------------------------------------------------------------------
// Whether a sign-up post's pings are heard.

/// Whether a role named to ping will sound: a mentionable role always does; any other role,
/// and @everyone, need Barnacle to hold the mention permission in the channel. `None` when
/// what decides it could not be read.
pub open spec fn verdict_of(ping: Ping, reach: Option<PingReach>) -> PingVerdict {
    match reach {
        None => PingVerdict::Unchecked,
        Some(reach) => if (ping is Role && reach.role_mentionable) || reach.channel_grant {
            PingVerdict::Sounds
        } else if reach.server_grant {
            PingVerdict::BlockedByChannel
        } else {
            PingVerdict::Silent
        },
    }
}

pub fn ping_verdict(ping: Ping, reach: Option<PingReach>) -> (verdict: PingVerdict)
    ensures
        verdict == verdict_of(ping, reach),
{
    match reach {
        None => PingVerdict::Unchecked,
        Some(reach) => {
            let mentionable = match ping {
                Ping::Role(_) => reach.role_mentionable,
                Ping::Everyone => false,
            };
            if mentionable || reach.channel_grant {
                PingVerdict::Sounds
            } else if reach.server_grant {
                PingVerdict::BlockedByChannel
            } else {
                PingVerdict::Silent
            }
        },
    }
}

/// What a command that sets a season's pings does about one of them.
#[derive(Debug, Clone, Copy, PartialEq, Eq, Structural)]
pub enum SetupPing {
    Accept,
    Warn,
    Refuse,
}

/// A ping that will sound is accepted; one blocked by the channel's overrides is refused when
/// a season is being created and warned about otherwise; any other is warned about.
pub open spec fn setup_of(creating: bool, verdict: PingVerdict) -> SetupPing {
    match verdict {
        PingVerdict::Sounds => SetupPing::Accept,
        PingVerdict::BlockedByChannel => if creating {
            SetupPing::Refuse
        } else {
            SetupPing::Warn
        },
        PingVerdict::Silent => SetupPing::Warn,
        PingVerdict::Unchecked => SetupPing::Warn,
    }
}

pub fn setup_ping(creating: bool, verdict: PingVerdict) -> (setup: SetupPing)
    ensures
        setup == setup_of(creating, verdict),
{
    match verdict {
        PingVerdict::Sounds => SetupPing::Accept,
        PingVerdict::BlockedByChannel => if creating {
            SetupPing::Refuse
        } else {
            SetupPing::Warn
        },
        PingVerdict::Silent => SetupPing::Warn,
        PingVerdict::Unchecked => SetupPing::Warn,
    }
}

/// Why the roles picked to ping cannot be used.
#[derive(Debug, Clone, Copy, PartialEq, Eq, Structural)]
pub enum PingChoiceProblem {
    /// @everyone was picked together with named roles.
    MixedEveryone,
}

/// The roles picked, in order, each once.
pub open spec fn distinct_roles(given: Seq<Option<RoleId>>) -> Seq<RoleId>
    decreases given.len(),
{
    if given.len() == 0 {
        Seq::empty()
    } else {
        let earlier = distinct_roles(given.drop_last());
        match given.last() {
            Some(role) => if earlier.contains(role) {
                earlier
            } else {
                earlier.push(role)
            },
            None => earlier,
        }
    }
}

/// The roles a season pings, from the up to five picked: each once, in the order picked, and
/// @everyone only on its own.
pub open spec fn ping_choice_of(guild: GuildId, given: Seq<Option<RoleId>>) -> Result<
    Seq<RoleId>,
    PingChoiceProblem,
> {
    let roles = distinct_roles(given);
    if roles.len() > 1 && exists|i: int| 0 <= i < roles.len() && roles[i]@ == guild@ {
        Err(PingChoiceProblem::MixedEveryone)
    } else {
        Ok(roles)
    }
}

fn holds_role(roles: &Vec<RoleId>, role: RoleId) -> (held: bool)
    ensures
        held == roles@.contains(role),
{
    let mut index: usize = 0;
    while index < roles.len()
        invariant
            index <= roles@.len(),
            forall|i: int| 0 <= i < index ==> roles@[i] != role,
        decreases roles.len() - index,
    {
        if roles[index].get() == role.get() {
            proof {
                roles@[index as int].lemma_view_identifies(role);
            }
            assert(roles@[index as int] == role);
            return true;
        }
        proof {
            roles@[index as int].lemma_view_identifies(role);
        }
        index = index + 1;
    }
    false
}

pub fn ping_choice(guild: GuildId, given: [Option<RoleId>; 5]) -> (choice: Result<
    Vec<RoleId>,
    PingChoiceProblem,
>)
    ensures
        match (choice, ping_choice_of(guild, given@)) {
            (Ok(roles), Ok(expected)) => roles@ == expected,
            (Err(problem), Err(expected)) => problem == expected,
            _ => false,
        },
{
    let mut roles: Vec<RoleId> = Vec::new();
    let mut index: usize = 0;
    while index < 5
        invariant
            index <= 5,
            given@.len() == 5,
            roles@ == distinct_roles(given@.take(index as int)),
        decreases 5 - index,
    {
        assert(given@.take(index + 1).drop_last() == given@.take(index as int));
        match given[index] {
            Some(role) => {
                if !holds_role(&roles, role) {
                    roles.push(role);
                }
            },
            None => {},
        }
        index = index + 1;
    }
    assert(given@.take(5) == given@);
    if roles.len() > 1 {
        let mut position: usize = 0;
        while position < roles.len()
            invariant
                roles@ == distinct_roles(given@),
                roles@.len() > 1,
                position <= roles@.len(),
                forall|i: int| 0 <= i < position ==> roles@[i]@ != guild@,
            decreases roles.len() - position,
        {
            if roles[position].get() == guild.get() {
                assert(roles@[position as int]@ == guild@);
                return Err(PingChoiceProblem::MixedEveryone);
            }
            position = position + 1;
        }
    }
    Ok(roles)
}

// ---------------------------------------------------------------------------
// Laws.

proof fn lemma_digit_reads_back(d: int)
    requires
        0 <= d < 10,
    ensures
        is_digit(digit(d)),
        digit_value(digit(d)) == d,
{
    assert(digit(d) == seq!['0', '1', '2', '3', '4', '5', '6', '7', '8', '9'][d]);
}

proof fn lemma_digits_read_back(n: nat)
    ensures
        digits(n).len() > 0,
        all_digits(digits(n)),
        digits_value(digits(n)) == n,
        digits(n)[0] != '+',
    decreases n,
{
    if n < 10 {
        lemma_digit_reads_back(n as int);
        assert(digits(n).drop_last() =~= Seq::<char>::empty());
        assert(digits_value(Seq::<char>::empty()) == 0);
    } else {
        assert(n == (n / 10) * 10 + n % 10) by (nonlinear_arith);
        lemma_digits_read_back(n / 10);
        lemma_digit_reads_back((n % 10) as int);
        let text = digits(n);
        assert(text.drop_last() == digits(n / 10));
        assert forall|i: int| 0 <= i < text.len() implies is_digit(#[trigger] text[i]) by {
            if i < text.len() - 1 {
                assert(text[i] == digits(n / 10)[i]);
            }
        }
        assert(text[0] == digits(n / 10)[0]);
    }
}

/// A cancel button's custom ID gives back the round number it was made for.
pub proof fn law_cancel_id_round_trip(number: u64)
    ensures
        ({
            let id = cancel_prefix() + digits(number as nat);
            &&& id.len() >= cancel_prefix().len()
            &&& id.take(cancel_prefix().len() as int) == cancel_prefix()
            &&& parsed_u64(id.skip(cancel_prefix().len() as int)) == Some(number)
        }),
{
    let id = cancel_prefix() + digits(number as nat);
    lemma_digits_read_back(number as nat);
    assert(id.take(cancel_prefix().len() as int) =~= cancel_prefix());
    assert(id.skip(cancel_prefix().len() as int) =~= digits(number as nat));
    assert(unsigned_body(digits(number as nat)) == digits(number as nat));
}

/// The roles a season pings hold no role twice, and @everyone, when among them, is alone.
pub proof fn law_ping_roles_distinct(guild: GuildId, given: Seq<Option<RoleId>>)
    ensures
        ping_choice_of(guild, given) matches Ok(roles) ==> {
            &&& forall|i: int, j: int| 0 <= i < j < roles.len() ==> roles[i] != roles[j]
            &&& (exists|i: int| 0 <= i < roles.len() && roles[i]@ == guild@) ==> roles.len() == 1
        },
{
    lemma_distinct_roles(given);
}

proof fn lemma_distinct_roles(given: Seq<Option<RoleId>>)
    ensures
        forall|i: int, j: int|
            0 <= i < j < distinct_roles(given).len() ==> distinct_roles(given)[i]
                != distinct_roles(given)[j],
    decreases given.len(),
{
    if given.len() > 0 {
        lemma_distinct_roles(given.drop_last());
        let earlier = distinct_roles(given.drop_last());
        let roles = distinct_roles(given);
        if let Some(role) = given.last() {
            if !earlier.contains(role) {
                assert forall|i: int, j: int| 0 <= i < j < roles.len() implies roles[i]
                    != roles[j] by {
                    if j == roles.len() - 1 {
                        assert(roles[i] == earlier[i]);
                        if roles[i] == role {
                            assert(earlier.contains(role));
                        }
                    } else {
                        assert(roles[i] == earlier[i] && roles[j] == earlier[j]);
                    }
                }
            }
        }
    }
}

/// Every role picked is pinged, and no role that was not picked.
pub proof fn law_ping_roles_are_the_picked_ones(given: Seq<Option<RoleId>>, role: RoleId)
    ensures
        distinct_roles(given).contains(role) <==> given.contains(Some(role)),
    decreases given.len(),
{
    if given.len() > 0 {
        let earlier = given.drop_last();
        law_ping_roles_are_the_picked_ones(earlier, role);
        let before = distinct_roles(earlier);
        let after = distinct_roles(given);
        assert(given == earlier.push(given.last()));
        if given.contains(Some(role)) {
            let k = choose|k: int| 0 <= k < given.len() && given[k] == Some(role);
            if k < given.len() - 1 {
                assert(earlier[k] == Some(role));
                assert(before.contains(role));
                let m = choose|m: int| 0 <= m < before.len() && before[m] == role;
                match given.last() {
                    Some(last) => if !before.contains(last) {
                        assert(after[m] == role);
                    },
                    None => {},
                }
            } else {
                if !before.contains(role) {
                    assert(after.last() == role);
                }
            }
        }
        if after.contains(role) {
            let m = choose|m: int| 0 <= m < after.len() && after[m] == role;
            if m < before.len() {
                assert(before[m] == role);
                assert(before.contains(role));
                let k = choose|k: int| 0 <= k < earlier.len() && earlier[k] == Some(role);
                assert(given[k] == Some(role));
            } else {
                assert(given.last() == Some(role));
                assert(given[given.len() - 1] == Some(role));
            }
        }
    }
}

// ---------------------------------------------------------------------------
// What a command needs in the channel it runs in.

/// What Barnacle holds in the channel a command runs in; all true when Discord did not say.
#[derive(Debug, Clone, Copy, PartialEq, Eq, Structural)]
pub struct ChannelAccess {
    pub view_channel: bool,
    pub send_messages: bool,
    pub embed_links: bool,
    pub attach_files: bool,
    pub read_message_history: bool,
    pub in_thread: bool,
}

pub open spec fn named_if(lacking: bool, name: Seq<char>) -> Seq<Seq<char>> {
    if lacking {
        seq![name]
    } else {
        Seq::empty()
    }
}

/// What a round of /guess needs and Barnacle lacks here, in Discord's order.
pub open spec fn round_blockers(access: ChannelAccess) -> Seq<Seq<char>> {
    named_if(!access.view_channel, "View Channel"@) + named_if(
        !access.send_messages,
        if access.in_thread {
            "Send Messages in Threads"@
        } else {
            "Send Messages"@
        },
    ) + named_if(!access.embed_links, "Embed Links"@) + named_if(
        !access.attach_files,
        "Attach Files"@,
    ) + named_if(!access.read_message_history, "Read Message History"@)
}

/// What sign-up posts need and Barnacle lacks here, in Discord's order.
pub open spec fn signup_blockers(access: ChannelAccess) -> Seq<Seq<char>> {
    named_if(!access.view_channel, "View Channel"@) + named_if(
        !access.send_messages,
        "Send Messages"@,
    ) + named_if(!access.embed_links, "Embed Links"@) + named_if(
        !access.read_message_history,
        "Read Message History"@,
    )
}

fn push_if(names: &mut Vec<&'static str>, lacking: bool, name: &'static str)
    ensures
        str_texts(final(names)@) == str_texts(old(names)@) + named_if(lacking, name@),
{
    let ghost before = str_texts(names@);
    if lacking {
        names.push(name);
        assert(str_texts(names@) =~= before + named_if(lacking, name@));
    } else {
        assert(before + named_if(lacking, name@) =~= before);
    }
}

/// The permissions a round of /guess needs here that Barnacle lacks.
pub fn missing_permissions(access: ChannelAccess) -> (names: Vec<&'static str>)
    ensures
        str_texts(names@) == round_blockers(access),
{
    let mut names: Vec<&'static str> = Vec::new();
    assert(str_texts(names@) =~= Seq::<Seq<char>>::empty());
    push_if(&mut names, !access.view_channel, "View Channel");
    let send = if access.in_thread {
        "Send Messages in Threads"
    } else {
        "Send Messages"
    };
    push_if(&mut names, !access.send_messages, send);
    push_if(&mut names, !access.embed_links, "Embed Links");
    push_if(&mut names, !access.attach_files, "Attach Files");
    push_if(&mut names, !access.read_message_history, "Read Message History");
    assert(str_texts(names@) =~= round_blockers(access));
    names
}

/// The permissions sign-up posts need here that Barnacle lacks.
pub fn missing_signup_permissions(access: ChannelAccess) -> (names: Vec<&'static str>)
    ensures
        str_texts(names@) == signup_blockers(access),
{
    let mut names: Vec<&'static str> = Vec::new();
    assert(str_texts(names@) =~= Seq::<Seq<char>>::empty());
    push_if(&mut names, !access.view_channel, "View Channel");
    push_if(&mut names, !access.send_messages, "Send Messages");
    push_if(&mut names, !access.embed_links, "Embed Links");
    push_if(&mut names, !access.read_message_history, "Read Message History");
    assert(str_texts(names@) =~= signup_blockers(access));
    names
}

// ---------------------------------------------------------------------------
// Command options.

pub const DEFAULT_MIN_TIER: u32 = 6;
pub const DEFAULT_MAX_TIER: u32 = 11;
pub const DEFAULT_LEADERBOARD_SIZE: u32 = 10;

/// A tier option, or `fallback` when it is left out or outside I to XI.
pub open spec fn tier_option(given: Option<i64>, fallback: u32) -> int {
    match given {
        Some(value) => if 1 <= value <= HIGHEST_TIER {
            value as int
        } else {
            fallback as int
        },
        None => fallback as int,
    }
}

/// A tier option keeps a value from 1 to 11 as it was given; the default stands in only for
/// a value that is absent or out of range.
pub proof fn law_given_tier_kept(value: i64, fallback: u32)
    ensures
        1 <= value <= 11 ==> tier_option(Some(value), fallback) == value,
        (value < 1 || value > 11) ==> tier_option(Some(value), fallback) == fallback,
        tier_option(None, fallback) == fallback,
{
}

fn tier_or(given: Option<i64>, fallback: u32) -> (tier: Tier)
    requires
        1 <= fallback <= HIGHEST_TIER,
    ensures
        tier.value() == tier_option(given, fallback),
{
    let value = match given {
        Some(value) => if 1 <= value && value <= HIGHEST_TIER as i64 {
            value as u32
        } else {
            fallback
        },
        None => fallback,
    };
    match Tier::new(value) {
        Some(tier) => tier,
        None => {
            assert(false);
            Tier::new(1).unwrap()
        },
    }
}

/// What a round of /guess draws from: tiers VI to XI unless given, paper ships only when
/// `historical` is not set, and the two tiers in order whichever way they were given.
pub fn round_options(min_tier: Option<i64>, max_tier: Option<i64>, historical: Option<bool>) -> (options: RoundOptions)
    ensures
        options.low().value() == if tier_option(min_tier, DEFAULT_MIN_TIER) <= tier_option(
            max_tier,
            DEFAULT_MAX_TIER,
        ) {
            tier_option(min_tier, DEFAULT_MIN_TIER)
        } else {
            tier_option(max_tier, DEFAULT_MAX_TIER)
        },
        options.high().value() == if tier_option(min_tier, DEFAULT_MIN_TIER) <= tier_option(
            max_tier,
            DEFAULT_MAX_TIER,
        ) {
            tier_option(max_tier, DEFAULT_MAX_TIER)
        } else {
            tier_option(min_tier, DEFAULT_MIN_TIER)
        },
        options.paper_excluded() == (historical == Some(true)),
        match (min_tier, max_tier) {
            (Some(lo), Some(hi)) => 1 <= lo <= hi <= 11 ==> options.low().value() == lo
                && options.high().value() == hi,
            (Some(lo), None) => 1 <= lo <= 11 ==> options.low().value() == lo
                && options.high().value() == 11,
            (None, Some(hi)) => 6 <= hi <= 11 ==> options.low().value() == 6
                && options.high().value() == hi,
            (None, None) => options.low().value() == 6 && options.high().value() == 11,
        },
{
    let low = tier_or(min_tier, DEFAULT_MIN_TIER);
    let high = tier_or(max_tier, DEFAULT_MAX_TIER);
    let excluded = match historical {
        Some(true) => true,
        _ => false,
    };
    if low.get() <= high.get() {
        RoundOptions::new(low, high, excluded)
    } else {
        RoundOptions::new(high, low, excluded)
    }
}

/// The leaderboard order a player picks.
#[derive(Debug, Clone, Copy, PartialEq, Eq, Structural)]
pub enum SortChoice {
    Wins,
    Time,
}

/// What a /leaderboard call asks for.
#[derive(Debug, Clone, Copy, PartialEq, Eq, Structural)]
pub struct LeaderboardRequest {
    pub ranking: Ranking,
    pub size: u32,
}

/// Most wins unless fastest time is picked, and ten players unless another size is.
pub fn leaderboard_request(sort: Option<SortChoice>, limit: Option<u32>) -> (request: LeaderboardRequest)
    ensures
        request.ranking == match sort {
            Some(SortChoice::Time) => Ranking::FastestTime,
            _ => Ranking::MostWins,
        },
        request.size == match limit {
            Some(size) => size,
            None => DEFAULT_LEADERBOARD_SIZE,
        },
{
    let ranking = match sort {
        Some(SortChoice::Time) => Ranking::FastestTime,
        _ => Ranking::MostWins,
    };
    let size = match limit {
        Some(size) => size,
        None => DEFAULT_LEADERBOARD_SIZE,
    };
    LeaderboardRequest { ranking, size }
}

/// Whether a person may have a repost ping a season's roles again: they hold the mention
/// permission in the season's channel, or every role is mentionable, which @everyone never is.
pub open spec fn may_ping_again_of(pings: Seq<Ping>, person: Option<bool>, mentionable: Seq<bool>) -> bool {
    person == Some(true) || (mentionable.len() == pings.len() && forall|i: int|
        0 <= i < pings.len() ==> #[trigger] role_mentionable(pings[i], mentionable[i]))
}

/// Whether a ping is a role that is marked mentionable.
pub open spec fn role_mentionable(ping: Ping, mentionable: bool) -> bool {
    ping is Role && mentionable
}

pub fn may_ping_again(pings: &[Ping], person: Option<bool>, mentionable: &[bool]) -> (allowed: bool)
    ensures
        allowed == may_ping_again_of(pings@, person, mentionable@),
{
    let granted = match person {
        Some(true) => true,
        _ => false,
    };
    if granted {
        return true;
    }
    if mentionable.len() != pings.len() {
        return false;
    }
    let mut all = true;
    let mut index: usize = 0;
    while index < pings.len()
        invariant
            mentionable@.len() == pings@.len(),
            index <= pings@.len(),
            all == forall|i: int| 0 <= i < index ==> role_mentionable(pings@[i], mentionable@[i]),
        decreases pings.len() - index,
    {
        let here = match pings[index] {
            Ping::Role(_) => mentionable[index],
            Ping::Everyone => false,
        };
        assert(here == role_mentionable(pings@[index as int], mentionable@[index as int]));
        all = all && here;
        index = index + 1;
    }
    all
}

/// Why a repost may not ping season `number`'s roles again: it has none, or the person may
/// not ping them; `None` when it may.
pub open spec fn repost_ping_refusal_of(
    number: u32,
    pings: Seq<Ping>,
    person: Option<bool>,
    mentionable: Seq<bool>,
) -> Option<Refusal> {
    if pings.len() == 0 {
        Some(Refusal::RepostNothingToPing(number))
    } else if !may_ping_again_of(pings, person, mentionable) {
        Some(Refusal::RepostPingNotAllowed)
    } else {
        None
    }
}

pub fn repost_ping_refusal(
    number: u32,
    pings: &[Ping],
    person: Option<bool>,
    mentionable: &[bool],
) -> (refusal: Option<Refusal>)
    ensures
        refusal == repost_ping_refusal_of(number, pings@, person, mentionable@),
{
    if pings.len() == 0 {
        Some(Refusal::RepostNothingToPing(number))
    } else if !may_ping_again(pings, person, mentionable) {
        Some(Refusal::RepostPingNotAllowed)
    } else {
        None
    }
}

// ---------------------------------------------------------------------------
// Which of a post's mentions may sound.

/// The mentions a message lets Discord sound.
#[derive(Debug, Clone, PartialEq, Eq)]
pub struct PingAllowance {
    pub everyone: bool,
    pub roles: Vec<RoleId>,
}

/// The roles among the pings, in order.
pub open spec fn ping_roles(pings: Seq<Ping>) -> Seq<RoleId>
    decreases pings.len(),
{
    if pings.len() == 0 {
        Seq::empty()
    } else {
        let earlier = ping_roles(pings.drop_last());
        match pings.last() {
            Ping::Role(role) => earlier.push(role),
            Ping::Everyone => earlier,
        }
    }
}

/// A new post lets its pings sound; a redrawn or edited one lets none sound, so that a night
/// is pinged once.
pub fn ping_allowance(delivery: Delivery, pings: &[Ping]) -> (allowance: PingAllowance)
    ensures
        match delivery {
            Delivery::New => allowance.everyone == pings@.contains(Ping::Everyone)
                && allowance.roles@ == ping_roles(pings@),
            Delivery::Redraw => !allowance.everyone && allowance.roles@.len() == 0,
        },
{
    match delivery {
        Delivery::Redraw => PingAllowance { everyone: false, roles: Vec::new() },
        Delivery::New => {
            let mut everyone = false;
            let mut roles: Vec<RoleId> = Vec::new();
            let mut index: usize = 0;
            while index < pings.len()
                invariant
                    index <= pings.len(),
                    everyone == pings@.take(index as int).contains(Ping::Everyone),
                    roles@ == ping_roles(pings@.take(index as int)),
                decreases pings.len() - index,
            {
                let ghost seen = pings@.take(index as int);
                assert(pings@.take(index + 1) == seen.push(pings@[index as int]));
                assert(pings@.take(index + 1).drop_last() == seen);
                match pings[index] {
                    Ping::Everyone => {
                        everyone = true;
                    },
                    Ping::Role(role) => {
                        roles.push(role);
                    },
                }
                proof {
                    assert(pings@.take(index + 1).contains(Ping::Everyone) == (seen.contains(
                        Ping::Everyone,
                    ) || pings@[index as int] == Ping::Everyone)) by {
                        if pings@[index as int] == Ping::Everyone {
                            assert(pings@.take(index + 1)[index as int] == Ping::Everyone);
                        }
                        if seen.contains(Ping::Everyone) {
                            let i = choose|i: int|
                                0 <= i < seen.len() && seen[i] == Ping::Everyone;
                            assert(pings@.take(index + 1)[i] == Ping::Everyone);
                        }
                    }
                }
                index = index + 1;
            }
            assert(pings@.take(pings.len() as int) == pings@);
            PingAllowance { everyone, roles }
        },
    }
}

/// Whether Discord registered a ping in a sent message.
pub open spec fn ping_registered(ping: Ping, mentioned: Seq<RoleId>, everyone: bool) -> bool {
    match ping {
        Ping::Everyone => everyone,
        Ping::Role(role) => mentioned.contains(role),
    }
}

/// The pings that Discord did not register, in order.
pub open spec fn unheard_of(pings: Seq<Ping>, mentioned: Seq<RoleId>, everyone: bool) -> Seq<Ping>
    decreases pings.len(),
{
    if pings.len() == 0 {
        Seq::empty()
    } else {
        let earlier = unheard_of(pings.drop_last(), mentioned, everyone);
        if ping_registered(pings.last(), mentioned, everyone) {
            earlier
        } else {
            earlier.push(pings.last())
        }
    }
}

/// The pings that a sent message did not sound: a role it does not list as mentioned, or
/// @everyone when it did not mention everyone.
pub fn unheard_pings(pings: &[Ping], mentioned: &[RoleId], everyone: bool) -> (unheard: Vec<Ping>)
    ensures
        unheard@ == unheard_of(pings@, mentioned@, everyone),
{
    let mut unheard: Vec<Ping> = Vec::new();
    let mut index: usize = 0;
    while index < pings.len()
        invariant
            index <= pings.len(),
            unheard@ == unheard_of(pings@.take(index as int), mentioned@, everyone),
        decreases pings.len() - index,
    {
        assert(pings@.take(index + 1).drop_last() == pings@.take(index as int));
        let ping = pings[index];
        let heard = match ping {
            Ping::Everyone => everyone,
            Ping::Role(role) => lists_role(mentioned, role),
        };
        if !heard {
            unheard.push(ping);
        }
        index = index + 1;
    }
    assert(pings@.take(pings.len() as int) == pings@);
    unheard
}

fn lists_role(roles: &[RoleId], role: RoleId) -> (listed: bool)
    ensures
        listed == roles@.contains(role),
{
    let mut index: usize = 0;
    while index < roles.len()
        invariant
            index <= roles.len(),
            forall|i: int| 0 <= i < index ==> roles@[i] != role,
        decreases roles.len() - index,
    {
        if roles[index].get() == role.get() {
            proof {
                roles@[index as int].lemma_view_identifies(role);
            }
            return true;
        }
        index = index + 1;
    }
    false
}

/// Every role a post pings is among the roles a new post lets sound.
pub proof fn law_new_posts_let_every_role_sound(pings: Seq<Ping>)
    ensures
        forall|ping: Ping|
            pings.contains(ping) ==> match ping {
                Ping::Everyone => true,
                Ping::Role(role) => ping_roles(pings).contains(role),
            },
    decreases pings.len(),
{
    if pings.len() > 0 {
        let earlier = pings.drop_last();
        law_new_posts_let_every_role_sound(earlier);
        let kept = ping_roles(earlier);
        let all = ping_roles(pings);
        assert(all == match pings.last() {
            Ping::Role(last) => kept.push(last),
            Ping::Everyone => kept,
        });
        assert forall|ping: Ping| pings.contains(ping) implies match ping {
            Ping::Everyone => true,
            Ping::Role(role) => all.contains(role),
        } by {
            let i = choose|i: int| 0 <= i < pings.len() && pings[i] == ping;
            if let Ping::Role(role) = ping {
                if i < pings.len() - 1 {
                    assert(earlier[i] == ping);
                    assert(earlier.contains(ping));
                    let j = choose|j: int| 0 <= j < kept.len() && kept[j] == role;
                    assert(all[j] == role);
                } else {
                    assert(all[all.len() - 1] == role);
                }
            }
        }
    }
}

} // verus!
