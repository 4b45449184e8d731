//! Flat JSON objects: how they are written, and what a reader makes of a text.
use vstd::prelude::*;

use crate::report;
use crate::text;

verus! {

/// A value of a flat object. A number stands as its text.
pub enum JsonValue {
    Text(Seq<char>),
    Number(Seq<char>),
    Bool(bool),
    Null,
}

/// A name with its value.
pub struct Member {
    pub name: Seq<char>,
    pub value: JsonValue,
}

/// How many digits a text begins with.
pub open spec fn leading_digits(text: Seq<char>) -> nat
    decreases text.len(),
{
    if text.len() > 0 && text::is_digit(text[0]) {
        1 + leading_digits(text.skip(1))
    } else {
        0
    }
}

/// Whether a text is a number from its exponent on: nothing, or `e` or `E`, a
/// sign or none, and digits.
pub open spec fn is_exponent(text: Seq<char>) -> bool {
    text.len() == 0 || {
        &&& text[0] == 'e' || text[0] == 'E'
        &&& {
            let digits = if text.len() > 1 && (text[1] == '+' || text[1] == '-') {
                text.skip(2)
            } else {
                text.skip(1)
            };
            digits.len() > 0 && leading_digits(digits) == digits.len()
        }
    }
}

/// Whether a text is a number from its fraction on: a point and digits or
/// nothing, and then an exponent.
pub open spec fn is_fraction(text: Seq<char>) -> bool {
    if text.len() > 0 && text[0] == '.' {
        let digits = leading_digits(text.skip(1));
        digits > 0 && is_exponent(text.skip(1).skip(digits as int))
    } else {
        is_exponent(text)
    }
}

/// Whether a text is a number without a sign: digits, of which the first is
/// zero only where it is alone, and then a fraction.
pub open spec fn is_unsigned(text: Seq<char>) -> bool {
    let digits = leading_digits(text);
    &&& digits > 0
    &&& digits == 1 || text[0] != '0'
    &&& is_fraction(text.skip(digits as int))
}

/// Whether a text is a number as JSON writes them.
pub open spec fn is_number(text: Seq<char>) -> bool {
    if text.len() > 0 && text[0] == '-' {
        is_unsigned(text.skip(1))
    } else {
        is_unsigned(text)
    }
}

/// Whether a character occurs in numbers.
pub open spec fn is_number_char(c: char) -> bool {
    text::is_digit(c) || c == '-' || c == '+' || c == '.' || c == 'e' || c == 'E'
}

/// How many characters of numbers a text begins with.
pub open spec fn number_len(text: Seq<char>) -> nat
    decreases text.len(),
{
    if text.len() > 0 && is_number_char(text[0]) {
        1 + number_len(text.skip(1))
    } else {
        0
    }
}

/// The value of a hexadecimal digit.
pub open spec fn hex_digit_value(c: char) -> Option<nat> {
    if text::is_digit(c) {
        Some((c as nat - '0' as nat) as nat)
    } else if 'a' <= c <= 'f' {
        Some((c as nat - 'a' as nat + 10) as nat)
    } else if 'A' <= c <= 'F' {
        Some((c as nat - 'A' as nat + 10) as nat)
    } else {
        None
    }
}

/// The character that an escape sequence behind its backslash stands for, and
/// the length of the sequence. Halves of surrogate pairs are not read.
pub open spec fn escape_of(text: Seq<char>) -> Option<(char, nat)> {
    if text.len() == 0 {
        None
    } else if text[0] == '"' || text[0] == '\\' || text[0] == '/' {
        Some((text[0], 1))
    } else if text[0] == 'b' {
        Some((8u32 as char, 1))
    } else if text[0] == 'f' {
        Some((12u32 as char, 1))
    } else if text[0] == 'n' {
        Some(('\n', 1))
    } else if text[0] == 'r' {
        Some(('\r', 1))
    } else if text[0] == 't' {
        Some(('\t', 1))
    } else if text[0] == 'u' && text.len() >= 5 {
        match (
            hex_digit_value(text[1]),
            hex_digit_value(text[2]),
            hex_digit_value(text[3]),
            hex_digit_value(text[4]),
        ) {
            (Some(a), Some(b), Some(c), Some(d)) => {
                let code = a * 4096 + b * 256 + c * 16 + d;
                if 0xd800 <= code < 0xe000 {
                    None
                } else {
                    Some((code as char, 5))
                }
            },
            _ => None,
        }
    } else {
        None
    }
}

/// The text that a string behind its opening quotation mark stands for, and
/// what follows its closing one.
pub open spec fn read_text(text: Seq<char>) -> Option<(Seq<char>, Seq<char>)>
    decreases text.len(),
{
    if text.len() == 0 {
        None
    } else if text[0] == '"' {
        Some((Seq::empty(), text.skip(1)))
    } else if text[0] == '\\' {
        match escape_of(text.skip(1)) {
            None => None,
            Some((c, length)) => if length == 0 || 1 + length > text.len() {
                None
            } else {
                match read_text(text.skip(1 + length as int)) {
                    None => None,
                    Some((more, rest)) => Some((seq![c] + more, rest)),
                }
            },
        }
    } else if (text[0] as u32) < 0x20 {
        None
    } else {
        match read_text(text.skip(1)) {
            None => None,
            Some((more, rest)) => Some((seq![text[0]] + more, rest)),
        }
    }
}

/// Whether a text begins with another.
pub open spec fn begins_with(text: Seq<char>, word: Seq<char>) -> bool {
    text.len() >= word.len() && text.take(word.len() as int) == word
}

/// The value that a text begins with, and what follows it.
pub open spec fn read_value(text: Seq<char>) -> Option<(JsonValue, Seq<char>)> {
    if text.len() == 0 {
        None
    } else if text[0] == '"' {
        match read_text(text.skip(1)) {
            None => None,
            Some((content, rest)) => Some((JsonValue::Text(content), rest)),
        }
    } else if begins_with(text, seq!['t', 'r', 'u', 'e']) {
        Some((JsonValue::Bool(true), text.skip(4)))
    } else if begins_with(text, seq!['f', 'a', 'l', 's', 'e']) {
        Some((JsonValue::Bool(false), text.skip(5)))
    } else if begins_with(text, seq!['n', 'u', 'l', 'l']) {
        Some((JsonValue::Null, text.skip(4)))
    } else {
        let length = number_len(text) as int;
        if is_number(text.take(length)) {
            Some((JsonValue::Number(text.take(length)), text.skip(length)))
        } else {
            None
        }
    }
}

/// The member that a text begins with, and what follows it.
pub open spec fn read_member(text: Seq<char>) -> Option<(Member, Seq<char>)> {
    if text.len() == 0 || text[0] != '"' {
        None
    } else {
        match read_text(text.skip(1)) {
            None => None,
            Some((name, rest)) => if rest.len() == 0 || rest[0] != ':' {
                None
            } else {
                match read_value(rest.skip(1)) {
                    None => None,
                    Some((value, rest)) => Some((Member { name, value }, rest)),
                }
            },
        }
    }
}

/// The members of an object whose text ends with the object. `fuel` bounds
/// their number.
pub open spec fn read_members(text: Seq<char>, fuel: nat) -> Option<Seq<Member>>
    decreases fuel,
{
    if fuel == 0 {
        None
    } else {
        match read_member(text) {
            None => None,
            Some((member, rest)) => if rest.len() == 0 {
                None
            } else if rest[0] == '}' {
                if rest.len() == 1 {
                    Some(seq![member])
                } else {
                    None
                }
            } else if rest[0] != ',' {
                None
            } else {
                match read_members(rest.skip(1), (fuel - 1) as nat) {
                    None => None,
                    Some(more) => Some(seq![member] + more),
                }
            },
        }
    }
}

/// The members of a text that is one flat JSON object without white space
/// between its parts, in order. Every text that is read is JSON.
pub open spec fn read_object(text: Seq<char>) -> Option<Seq<Member>> {
    if text.len() == 0 || text[0] != '{' {
        None
    } else if text.len() == 2 && text[1] == '}' {
        Some(Seq::empty())
    } else {
        read_members(text.skip(1), text.len())
    }
}

/// How a value is written.
pub open spec fn value_text(value: JsonValue) -> Seq<char> {
    match value {
        JsonValue::Text(content) => seq!['"'] + report::escaped(content) + seq!['"'],
        JsonValue::Number(number) => number,
        JsonValue::Bool(true) => seq!['t', 'r', 'u', 'e'],
        JsonValue::Bool(false) => seq!['f', 'a', 'l', 's', 'e'],
        JsonValue::Null => seq!['n', 'u', 'l', 'l'],
    }
}

/// How a member is written.
pub open spec fn member_text(member: Member) -> Seq<char> {
    seq!['"'] + report::escaped(member.name) + seq!['"', ':'] + value_text(member.value)
}

/// How the members of an object and its closing brace are written.
pub open spec fn members_text(members: Seq<Member>) -> Seq<char>
    decreases members.len(),
{
    if members.len() == 0 {
        seq!['}']
    } else if members.len() == 1 {
        member_text(members[0]) + seq!['}']
    } else {
        member_text(members[0]) + seq![','] + members_text(members.skip(1))
    }
}

/// How an object is written.
pub open spec fn object_text(members: Seq<Member>) -> Seq<char> {
    seq!['{'] + members_text(members)
}

/// Whether the numbers among the values are numbers.
pub open spec fn numbers_are_numbers(members: Seq<Member>) -> bool {
    forall|i: int|
        0 <= i < members.len() ==> ((#[trigger] members[i]).value matches JsonValue::Number(number)
            ==> is_number(number))
}

proof fn lemma_leading_digits(text: Seq<char>)
    ensures
        leading_digits(text) <= text.len(),
        forall|i: int| 0 <= i < leading_digits(text) ==> text::is_digit(#[trigger] text[i]),
    decreases text.len(),
{
    if text.len() > 0 && text::is_digit(text[0]) {
        let rest = text.skip(1);
        lemma_leading_digits(rest);
        assert forall|i: int| 0 <= i < leading_digits(text) implies text::is_digit(
            #[trigger] text[i],
        ) by {
            if i > 0 {
                assert(rest[i - 1] == text[i]);
            }
        }
    }
}

/// Digits and nothing else are leading digits.
pub proof fn lemma_all_digits(text: Seq<char>)
    requires
        forall|i: int| 0 <= i < text.len() ==> text::is_digit(#[trigger] text[i]),
    ensures
        leading_digits(text) == text.len(),
    decreases text.len(),
{
    if text.len() > 0 {
        lemma_all_digits(text.skip(1));
    }
}

proof fn lemma_exponent_chars(text: Seq<char>)
    requires
        is_exponent(text),
    ensures
        forall|i: int| 0 <= i < text.len() ==> is_number_char(#[trigger] text[i]),
{
    if text.len() > 0 {
        let signed = text.len() > 1 && (text[1] == '+' || text[1] == '-');
        let start: int = if signed {
            2
        } else {
            1
        };
        lemma_leading_digits(text.skip(start));
        assert forall|i: int| 0 <= i < text.len() implies is_number_char(#[trigger] text[i]) by {
            if i >= start {
                assert(text.skip(start)[i - start] == text[i]);
            }
        }
    }
}

proof fn lemma_fraction_chars(text: Seq<char>)
    requires
        is_fraction(text),
    ensures
        forall|i: int| 0 <= i < text.len() ==> is_number_char(#[trigger] text[i]),
{
    if text.len() > 0 && text[0] == '.' {
        let rest = text.skip(1);
        let digits = leading_digits(rest) as int;
        lemma_leading_digits(rest);
        lemma_exponent_chars(rest.skip(digits));
        assert forall|i: int| 0 <= i < text.len() implies is_number_char(#[trigger] text[i]) by {
            if i >= 1 + digits {
                assert(rest.skip(digits)[i - 1 - digits] == text[i]);
            } else if i >= 1 {
                assert(rest[i - 1] == text[i]);
            }
        }
    } else {
        lemma_exponent_chars(text);
    }
}

proof fn lemma_unsigned_chars(text: Seq<char>)
    requires
        is_unsigned(text),
    ensures
        forall|i: int| 0 <= i < text.len() ==> is_number_char(#[trigger] text[i]),
        text.len() > 0,
{
    let digits = leading_digits(text) as int;
    lemma_leading_digits(text);
    lemma_fraction_chars(text.skip(digits));
    assert forall|i: int| 0 <= i < text.len() implies is_number_char(#[trigger] text[i]) by {
        if i >= digits {
            assert(text.skip(digits)[i - digits] == text[i]);
        }
    }
}

/// A number consists of the characters of numbers.
pub proof fn lemma_number_chars(text: Seq<char>)
    requires
        is_number(text),
    ensures
        forall|i: int| 0 <= i < text.len() ==> is_number_char(#[trigger] text[i]),
        text.len() > 0,
{
    if text.len() > 0 && text[0] == '-' {
        lemma_unsigned_chars(text.skip(1));
        assert forall|i: int| 0 <= i < text.len() implies is_number_char(#[trigger] text[i]) by {
            if i > 0 {
                assert(text.skip(1)[i - 1] == text[i]);
            }
        }
    } else {
        lemma_unsigned_chars(text);
    }
}

/// Whether a number that a text follows ends before it.
pub open spec fn ends_number(rest: Seq<char>) -> bool {
    rest.len() == 0 || !is_number_char(rest[0])
}

proof fn lemma_number_len(number: Seq<char>, rest: Seq<char>)
    requires
        forall|i: int| 0 <= i < number.len() ==> is_number_char(#[trigger] number[i]),
        ends_number(rest),
    ensures
        number_len(number + rest) == number.len(),
    decreases number.len(),
{
    let whole = number + rest;
    if number.len() > 0 {
        lemma_number_len(number.skip(1), rest);
        assert(whole.skip(1) =~= number.skip(1) + rest);
        assert(whole[0] == number[0]);
    } else {
        assert(whole =~= rest);
    }
}

/// A decimal text is a number.
pub proof fn lemma_decimal_is_number(n: nat)
    ensures
        is_number(text::decimal(n)),
{
    lemma_decimal_digits(n);
    let decimal = text::decimal(n);
    lemma_all_digits(decimal);
    assert(decimal.skip(decimal.len() as int) =~= Seq::empty());
}

proof fn lemma_decimal_digits(n: nat)
    ensures
        text::decimal(n).len() > 0,
        forall|i: int|
            0 <= i < text::decimal(n).len() ==> text::is_digit(#[trigger] text::decimal(n)[i]),
        text::decimal(n).len() == 1 || text::decimal(n)[0] != '0',
        n > 0 ==> text::decimal(n)[0] != '0',
    decreases n,
{
    if n >= 10 {
        lemma_decimal_digits(n / 10);
    }
}

/// The inside of a written string is read back.
proof fn lemma_text_reads_back(content: Seq<char>, rest: Seq<char>)
    ensures
        read_text(report::escaped(content) + seq!['"'] + rest) == Some((content, rest)),
    decreases content.len(),
{
    let whole = report::escaped(content) + seq!['"'] + rest;
    if content.len() == 0 {
        assert(whole =~= seq!['"'] + rest);
        assert(whole.skip(1) =~= rest);
    } else {
        let c = content[0];
        let head = report::escaped_char(c);
        let tail = report::escaped(content.skip(1)) + seq!['"'] + rest;
        lemma_text_reads_back(content.skip(1), rest);
        assert(whole =~= head + tail);
        assert(seq![c] + content.skip(1) =~= content);
        assert(whole[0] == head[0]);
        assert(whole.skip(head.len() as int) =~= tail);
        if head.len() > 1 {
            let escape = whole.skip(1);
            assert(escape[0] == head[1]);
            if head.len() == 6 {
                let code = c as u32 as nat;
                assert(code < 0xa0);
                assert(escape[1] == '0' && escape[2] == '0');
                assert(escape[3] == report::hex_digit(code / 16));
                assert(escape[4] == report::hex_digit(code % 16));
                assert(hex_digit_value('0') == Some(0nat));
                lemma_hex_digit(code / 16);
                lemma_hex_digit(code % 16);
                assert(0 * 4096 + 0 * 256 + (code / 16) * 16 + code % 16 == code);
                report::lemma_char_code(c);
                assert(escape_of(escape) == Some((c, 5nat)));
            } else {
                assert(escape_of(escape) == Some((c, 1nat)));
            }
        }
    }
}

proof fn lemma_hex_digit(value: nat)
    requires
        value < 16,
    ensures
        hex_digit_value(report::hex_digit(value)) == Some(value),
{
}

proof fn lemma_value_reads_back(value: JsonValue, rest: Seq<char>)
    requires
        value matches JsonValue::Number(number) ==> is_number(number),
        ends_number(rest),
    ensures
        read_value(value_text(value) + rest) == Some((value, rest)),
{
    let written = value_text(value);
    let whole = written + rest;
    match value {
        JsonValue::Text(content) => {
            lemma_text_reads_back(content, rest);
            assert(whole[0] == '"');
            assert(whole.skip(1) =~= report::escaped(content) + seq!['"'] + rest);
        },
        JsonValue::Number(number) => {
            lemma_number_chars(number);
            lemma_number_len(number, rest);
            assert(whole[0] == number[0]);
            assert(whole.take(number.len() as int) =~= number);
            assert(whole.skip(number.len() as int) =~= rest);
            lemma_begins_with_first(whole, seq!['t', 'r', 'u', 'e']);
            lemma_begins_with_first(whole, seq!['f', 'a', 'l', 's', 'e']);
            lemma_begins_with_first(whole, seq!['n', 'u', 'l', 'l']);
        },
        _ => {
            assert(whole[0] == written[0]);
            assert(whole.take(written.len() as int) =~= written);
            assert(whole.skip(written.len() as int) =~= rest);
            if value != JsonValue::Bool(true) {
                lemma_begins_with_first(whole, seq!['t', 'r', 'u', 'e']);
                if value != JsonValue::Bool(false) {
                    lemma_begins_with_first(whole, seq!['f', 'a', 'l', 's', 'e']);
                }
            }
        },
    }
}

proof fn lemma_begins_with_first(text: Seq<char>, word: Seq<char>)
    requires
        word.len() > 0,
        text.len() > 0,
        text[0] != word[0],
    ensures
        !begins_with(text, word),
{
    if begins_with(text, word) {
        assert(text.take(word.len() as int)[0] == word[0]);
    }
}

proof fn lemma_member_reads_back(member: Member, rest: Seq<char>)
    requires
        member.value matches JsonValue::Number(number) ==> is_number(number),
        ends_number(rest),
    ensures
        read_member(member_text(member) + rest) == Some((member, rest)),
{
    let whole = member_text(member) + rest;
    let after = seq![':'] + value_text(member.value) + rest;
    assert(whole[0] == '"');
    assert(whole.skip(1) =~= report::escaped(member.name) + seq!['"'] + after);
    lemma_text_reads_back(member.name, after);
    assert(after.skip(1) =~= value_text(member.value) + rest);
    lemma_value_reads_back(member.value, rest);
}

proof fn lemma_members_read_back(members: Seq<Member>, fuel: nat)
    requires
        members.len() > 0,
        numbers_are_numbers(members),
        fuel >= members.len(),
    ensures
        read_members(members_text(members), fuel) == Some(members),
    decreases members.len(),
{
    assert(members[0].value matches JsonValue::Number(number) ==> is_number(number));
    if members.len() == 1 {
        lemma_member_reads_back(members[0], seq!['}']);
        assert(seq![members[0]] =~= members);
    } else {
        let others = members.skip(1);
        let rest = seq![','] + members_text(others);
        assert(members_text(members) =~= member_text(members[0]) + rest);
        lemma_member_reads_back(members[0], rest);
        assert(numbers_are_numbers(others)) by {
            assert forall|i: int| 0 <= i < others.len() implies ((#[trigger] others[i]).value
                matches JsonValue::Number(number) ==> is_number(number)) by {
                assert(others[i] == members[i + 1]);
            }
        }
        lemma_members_read_back(others, (fuel - 1) as nat);
        assert(rest.skip(1) =~= members_text(others));
        assert(seq![members[0]] + others =~= members);
    }
}

proof fn lemma_members_length(members: Seq<Member>)
    ensures
        members_text(members).len() > members.len(),
    decreases members.len(),
{
    if members.len() > 1 {
        lemma_members_length(members.skip(1));
    }
}

/// A written object is read back, member by member.
pub proof fn law_objects_read_back(members: Seq<Member>)
    requires
        numbers_are_numbers(members),
    ensures
        read_object(object_text(members)) == Some(members),
{
    let whole = object_text(members);
    if members.len() == 0 {
        assert(whole =~= seq!['{', '}']);
        assert(members =~= Seq::empty());
    } else {
        assert(whole.skip(1) =~= members_text(members));
        assert(whole[1] == '"');
        lemma_members_length(members);
        lemma_members_read_back(members, whole.len());
    }
}

/// How an object is written up to one of its members.
pub open spec fn text_before(members: Seq<Member>, index: int) -> Seq<char>
    decreases index,
{
    if index <= 0 {
        seq!['{']
    } else {
        text_before(members, index - 1) + member_text(members[index - 1]) + seq![',']
    }
}

/// How an object is written up to the value of one of its members.
pub open spec fn text_before_value(members: Seq<Member>, index: int) -> Seq<char> {
    text_before(members, index) + seq!['"'] + report::escaped(members[index].name) + seq!['"', ':']
}

/// How a name is written behind a value.
pub open spec fn next_name(name: Seq<char>) -> Seq<char> {
    seq![',', '"'] + report::escaped(name) + seq!['"', ':']
}

proof fn lemma_text_before(members: Seq<Member>, index: int)
    requires
        0 <= index < members.len(),
    ensures
        text_before(members, index) + members_text(members.skip(index)) == object_text(members),
    decreases index,
{
    if index == 0 {
        assert(members.skip(0) =~= members);
    } else {
        lemma_text_before(members, index - 1);
        let others = members.skip(index - 1);
        assert(others.skip(1) =~= members.skip(index));
        assert(others[0] == members[index - 1]);
        assert(text_before(members, index) + members_text(members.skip(index)) =~= text_before(
            members,
            index - 1,
        ) + members_text(others));
    }
}

/// Behind the value of a member comes the name of the next.
pub proof fn lemma_next_name(members: Seq<Member>, index: int)
    requires
        0 <= index,
        index + 1 < members.len(),
    ensures
        text_before_value(members, index + 1) == text_before_value(members, index) + value_text(
            members[index].value,
        ) + next_name(members[index + 1].name),
{
    assert(text_before_value(members, index + 1) =~= text_before_value(members, index) + value_text(
        members[index].value,
    ) + next_name(members[index + 1].name));
}

/// Behind the value of the last member comes the closing brace.
pub proof fn lemma_last_value(members: Seq<Member>)
    requires
        members.len() > 0,
    ensures
        object_text(members) == text_before_value(members, members.len() - 1) + value_text(
            members.last().value,
        ) + seq!['}'],
{
    let last = members.len() - 1;
    lemma_text_before(members, last);
    let rest = members.skip(last);
    assert(rest[0] == members.last());
    assert(object_text(members) =~= text_before_value(members, last) + value_text(
        members.last().value,
    ) + seq!['}']);
}

/// Whether a character stands for itself inside a string.
pub open spec fn is_plain(c: char) -> bool {
    !report::is_control(c) && c != '"' && c != '\\'
}

/// A text of plain characters is written as it stands.
pub proof fn lemma_plain_text(text: Seq<char>)
    requires
        forall|i: int| 0 <= i < text.len() ==> is_plain(#[trigger] text[i]),
    ensures
        report::escaped(text) == text,
    decreases text.len(),
{
    if text.len() > 0 {
        let rest = text.skip(1);
        assert forall|i: int| 0 <= i < rest.len() implies is_plain(#[trigger] rest[i]) by {
            assert(rest[i] == text[i + 1]);
        }
        lemma_plain_text(rest);
        assert(is_plain(text[0]));
        assert(report::escaped(text) =~= text);
    } else {
        assert(report::escaped(text) =~= text);
    }
}

} // verus!
