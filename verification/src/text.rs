//! Text building blocks: decimal numbers, concatenation and comparison.
use vstd::prelude::*;
use vstd::string::*;

verus! {

/// `String::push`: the documentation says that the character is appended to
/// the end of the string. The contract claims exactly that.
pub assume_specification[ std::string::String::push ](s: &mut std::string::String, ch: char)
    ensures
        final(s)@ == old(s)@.push(ch),
;

/// The outcome of a fallible call with its error message as a character sequence.
pub open spec fn outcome<T>(result: Result<T, String>) -> Result<T, Seq<char>> {
    match result {
        Ok(value) => Ok(value),
        Err(message) => Err(message@),
    }
}

/// The outcome of a fallible call, value and error message both taken by their views.
pub open spec fn outcome_view<T: View>(result: Result<T, String>) -> Result<T::V, Seq<char>> {
    match result {
        Ok(value) => Ok(value@),
        Err(message) => Err(message@),
    }
}

/// All values of a sequence of outcomes, or the first error in it.
pub open spec fn collected<T>(outcomes: Seq<Result<T, Seq<char>>>) -> Result<Seq<T>, Seq<char>>
    decreases outcomes.len(),
{
    if outcomes.len() == 0 {
        Ok(Seq::empty())
    } else {
        match collected(outcomes.drop_last()) {
            Err(message) => Err(message),
            Ok(values) => match outcomes.last() {
                Err(message) => Err(message),
                Ok(value) => Ok(values.push(value)),
            },
        }
    }
}

/// An error among the first outcomes is the error of all of them.
pub proof fn lemma_collected_error<T>(outcomes: Seq<Result<T, Seq<char>>>, count: int)
    requires
        0 <= count <= outcomes.len(),
        collected(outcomes.take(count)) is Err,
    ensures
        collected(outcomes) == collected(outcomes.take(count)),
    decreases outcomes.len() - count,
{
    if count == outcomes.len() {
        assert(outcomes.take(count) =~= outcomes);
    } else {
        assert(outcomes.take(count + 1).drop_last() =~= outcomes.take(count));
        lemma_collected_error(outcomes, count + 1);
    }
}

/// One more outcome extends the collected values or ends them with its error.
pub proof fn lemma_collected_step<T>(outcomes: Seq<Result<T, Seq<char>>>, count: int)
    requires
        0 <= count < outcomes.len(),
        collected(outcomes.take(count)) is Ok,
    ensures
        match outcomes[count] {
            Ok(value) => collected(outcomes.take(count + 1)) == Ok::<Seq<T>, Seq<char>>(
                collected(outcomes.take(count))->Ok_0.push(value),
            ),
            Err(message) => collected(outcomes) == Err::<Seq<T>, Seq<char>>(message),
        },
{
    assert(outcomes.take(count + 1).drop_last() =~= outcomes.take(count));
    match outcomes[count] {
        Ok(_) => {},
        Err(_) => {
            lemma_collected_error(outcomes, count + 1);
        },
    }
}

/// Collected values are those of the outcomes.
pub proof fn lemma_collected_values<T>(outcomes: Seq<Result<T, Seq<char>>>)
    requires
        collected(outcomes) is Ok,
    ensures
        collected(outcomes)->Ok_0.len() == outcomes.len(),
        forall|i: int|
            0 <= i < outcomes.len() ==> (#[trigger] outcomes[i]) == Ok::<T, Seq<char>>(
                collected(outcomes)->Ok_0[i],
            ),
    decreases outcomes.len(),
{
    if outcomes.len() > 0 {
        let shorter = outcomes.drop_last();
        lemma_collected_values(shorter);
        assert forall|i: int| 0 <= i < outcomes.len() implies (#[trigger] outcomes[i]) == Ok::<
            T,
            Seq<char>,
        >(collected(outcomes)->Ok_0[i]) by {
            if i < outcomes.len() - 1 {
                assert(shorter[i] == outcomes[i]);
            }
        }
    }
}

/// Outcomes without a failure are collected.
pub proof fn lemma_all_collected<T>(outcomes: Seq<Result<T, Seq<char>>>)
    requires
        forall|i: int| 0 <= i < outcomes.len() ==> (#[trigger] outcomes[i]) is Ok,
    ensures
        collected(outcomes) is Ok,
    decreases outcomes.len(),
{
    if outcomes.len() > 0 {
        lemma_all_collected(outcomes.drop_last());
    }
}

/// As many values as outcomes are collected.
pub proof fn lemma_collected_length<T>(outcomes: Seq<Result<T, Seq<char>>>)
    ensures
        collected(outcomes) is Ok ==> collected(outcomes)->Ok_0.len() == outcomes.len(),
    decreases outcomes.len(),
{
    if outcomes.len() > 0 {
        lemma_collected_length(outcomes.drop_last());
    }
}

/// The views of the texts in a sequence of strings.
pub open spec fn texts(strings: Seq<String>) -> Seq<Seq<char>> {
    strings.map_values(|s: String| s@)
}

/// The optional text behind an optional string.
pub open spec fn optional_text(value: Option<String>) -> Option<Seq<char>> {
    match value {
        Some(text) => Some(text@),
        None => None,
    }
}

/// The decimal digit with the value `d`.
pub open spec fn digit(d: nat) -> char {
    ('0' as nat + d) as char
}

/// `n` written in decimal without leading zeros.
pub open spec fn decimal(n: nat) -> Seq<char>
    decreases n,
{
    if n < 10 {
        seq![digit(n)]
    } else {
        decimal(n / 10).push(digit(n % 10))
    }
}

pub open spec fn is_digit(c: char) -> bool {
    '0' <= c && c <= '9'
}

pub open spec fn all_digits(text: Seq<char>) -> bool {
    forall|i: int| 0 <= i < text.len() ==> is_digit(#[trigger] text[i])
}

/// The number that a sequence of decimal digits stands for.
pub open spec fn digits_value(text: Seq<char>) -> nat
    decreases text.len(),
{
    if text.len() == 0 {
        0
    } else {
        digits_value(text.drop_last()) * 10 + (text.last() as nat - '0' as nat) as nat
    }
}

/// The digits of an unsigned number, which one plus sign may precede.
pub open spec fn unsigned_digits(text: Seq<char>) -> Seq<char> {
    if text.len() > 0 && text[0] == '+' {
        text.skip(1)
    } else {
        text
    }
}

/// The unsigned number no greater than `limit` that `text` spells, if it spells one.
pub open spec fn unsigned(text: Seq<char>, limit: nat) -> Option<nat> {
    let digits = unsigned_digits(text);
    if digits.len() > 0 && all_digits(digits) && digits_value(digits) <= limit {
        Some(digits_value(digits))
    } else {
        None
    }
}

/// The pieces of a text between the separators; there is always at least one.
pub open spec fn split(text: Seq<char>, separator: char) -> Seq<Seq<char>>
    decreases text.len(),
{
    if text.len() == 0 {
        seq![Seq::empty()]
    } else {
        let before = split(text.drop_last(), separator);
        if text.last() == separator {
            before.push(Seq::empty())
        } else {
            before.drop_last().push(before.last().push(text.last()))
        }
    }
}

proof fn lemma_split_not_empty(text: Seq<char>, separator: char)
    ensures
        split(text, separator).len() > 0,
    decreases text.len(),
{
    if text.len() > 0 {
        lemma_split_not_empty(text.drop_last(), separator);
    }
}

/// A text without the separator is one piece.
pub proof fn lemma_split_plain(text: Seq<char>, separator: char)
    requires
        !text.contains(separator),
    ensures
        split(text, separator) == seq![text],
    decreases text.len(),
{
    if text.len() > 0 {
        let shorter = text.drop_last();
        assert forall|i: int| 0 <= i < shorter.len() implies (#[trigger] shorter[i]) != separator by {
            assert(text[i] != separator);
        }
        lemma_split_plain(shorter, separator);
        assert(text[text.len() - 1] != separator);
        assert(shorter.push(text.last()) =~= text);
        assert(split(text, separator) =~= seq![text]);
    } else {
        assert(text =~= Seq::empty());
    }
}

/// The pieces of two texts with a separator between them are those of the one
/// and those of the other.
pub proof fn law_split_parts(first: Seq<char>, second: Seq<char>, separator: char)
    ensures
        split(first + seq![separator] + second, separator) == split(first, separator) + split(
            second,
            separator,
        ),
    decreases second.len(),
{
    let whole = first + seq![separator] + second;
    lemma_split_not_empty(second, separator);
    if second.len() == 0 {
        assert(whole.drop_last() =~= first);
        assert(whole.last() == separator);
        assert(split(whole, separator) =~= split(first, separator) + split(second, separator));
    } else {
        let shorter = second.drop_last();
        law_split_parts(first, shorter, separator);
        lemma_split_not_empty(shorter, separator);
        assert(whole.drop_last() =~= first + seq![separator] + shorter);
        assert(whole.last() == second.last());
        assert(split(whole, separator) =~= split(first, separator) + split(second, separator));
    }
}

/// Pieces with a separator between each two of them.
pub open spec fn joined(pieces: Seq<Seq<char>>, separator: char) -> Seq<char>
    decreases pieces.len(),
{
    if pieces.len() == 0 {
        Seq::empty()
    } else if pieces.len() == 1 {
        pieces[0]
    } else {
        joined(pieces.drop_last(), separator) + seq![separator] + pieces.last()
    }
}

/// No piece of a text holds the separator, and the pieces with a separator
/// between each two of them are the text.
pub proof fn law_split_pieces(text: Seq<char>, separator: char)
    ensures
        joined(split(text, separator), separator) == text,
        split(text, separator).len() > 0,
        forall|i: int|
            0 <= i < split(text, separator).len() ==> !(#[trigger] split(text, separator)[i]).contains(
                separator,
            ),
    decreases text.len(),
{
    let pieces = split(text, separator);
    lemma_split_not_empty(text, separator);
    if text.len() == 0 {
        assert(text =~= Seq::empty());
    } else {
        let shorter = text.drop_last();
        let before = split(shorter, separator);
        law_split_pieces(shorter, separator);
        assert(shorter.push(text.last()) =~= text);
        if text.last() == separator {
            assert(pieces.drop_last() =~= before);
            assert(joined(pieces, separator) =~= text);
        } else {
            let longer = before.last().push(text.last());
            assert(!before[before.len() - 1].contains(separator));
            assert(!longer.contains(separator)) by {
                if longer.contains(separator) {
                    let at = choose|i: int| 0 <= i < longer.len() && longer[i] == separator;
                    assert(before.last()[at] == separator);
                }
            }
            assert(pieces.drop_last() =~= before.drop_last());
            assert(joined(pieces, separator) =~= text);
        }
        assert forall|i: int| 0 <= i < pieces.len() implies !(#[trigger] pieces[i]).contains(
            separator,
        ) by {
            if i < before.len() {
                assert(!before[i].contains(separator));
            }
        }
    }
}

/// One more piece is joined behind a separator.
pub proof fn lemma_joined_step(pieces: Seq<Seq<char>>, separator: char, count: int)
    requires
        1 <= count < pieces.len(),
    ensures
        joined(pieces.take(count + 1), separator) == joined(pieces.take(count), separator)
            + seq![separator] + pieces[count],
{
    assert(pieces.take(count + 1).drop_last() =~= pieces.take(count));
}

/// Pieces without the separator that were joined are split again.
pub proof fn law_joined_is_split(pieces: Seq<Seq<char>>, separator: char)
    requires
        pieces.len() > 0,
        forall|i: int| 0 <= i < pieces.len() ==> !(#[trigger] pieces[i]).contains(separator),
    ensures
        split(joined(pieces, separator), separator) == pieces,
    decreases pieces.len(),
{
    lemma_split_plain(pieces.last(), separator);
    if pieces.len() == 1 {
        assert(pieces =~= seq![pieces[0]]);
    } else {
        let before = pieces.drop_last();
        assert forall|i: int| 0 <= i < before.len() implies !(#[trigger] before[i]).contains(
            separator,
        ) by {
            assert(before[i] == pieces[i]);
        }
        law_joined_is_split(before, separator);
        law_split_parts(joined(before, separator), pieces.last(), separator);
        assert(before + seq![pieces.last()] =~= pieces);
    }
}

/// Different numbers are written differently.
pub proof fn law_decimals_differ(first: nat, second: nat)
    requires
        decimal(first) == decimal(second),
    ensures
        first == second,
{
    lemma_decimal(first);
    lemma_decimal(second);
}

/// A number is written in digits, and none of them is another character.
pub proof fn lemma_decimal_digits(n: nat)
    ensures
        decimal(n).len() > 0,
        all_digits(decimal(n)),
{
    lemma_decimal(n);
}

/// Writing a number down and reading it gives the number.
pub proof fn law_decimal_round_trip(n: nat, limit: nat)
    requires
        n <= limit,
    ensures
        unsigned(decimal(n), limit) == Some(n),
{
    lemma_decimal(n);
}

proof fn lemma_decimal(n: nat)
    ensures
        decimal(n).len() > 0,
        all_digits(decimal(n)),
        digits_value(decimal(n)) == n,
        decimal(n)[0] != '+',
    decreases n,
{
    let text = decimal(n);
    assert(forall|d: nat| d < 10 ==> is_digit(#[trigger] digit(d)) && digit(d) as nat - '0' as nat == d);
    if n < 10 {
        assert(text.drop_last() =~= Seq::empty());
        assert(digits_value(text.drop_last()) == 0);
        assert(is_digit(digit(n)));
    } else {
        lemma_decimal(n / 10);
        assert(text.drop_last() =~= decimal(n / 10));
        assert(is_digit(digit(n % 10)));
        assert forall|i: int| 0 <= i < text.len() implies is_digit(#[trigger] text[i]) by {
            if i < text.len() - 1 {
                assert(text[i] == decimal(n / 10)[i]);
            }
        }
    }
}

/// Splits a text at a separator.
pub fn split_text(text: &str, separator: char) -> (pieces: Vec<String>)
    ensures
        texts(pieces@) == split(text@, separator),
{
    let chars = characters(text);
    let mut pieces: Vec<String> = Vec::new();
    let mut current = String::new();
    let mut index: usize = 0;
    proof {
        assert(chars@.take(0) =~= Seq::empty());
        assert(texts(pieces@).push(current@) =~= split(chars@.take(0), separator));
    }
    while index < chars.len()
        invariant
            index <= chars.len(),
            texts(pieces@).push(current@) == split(chars@.take(index as int), separator),
        decreases chars.len() - index,
    {
        let c = chars[index];
        let ghost before = split(chars@.take(index as int), separator);
        proof {
            assert(chars@.take(index + 1).drop_last() =~= chars@.take(index as int));
            assert(before.drop_last() =~= texts(pieces@));
        }
        if c == separator {
            let ghost old_pieces = pieces@;
            let ghost piece = current;
            pieces.push(current);
            current = String::new();
            proof {
                assert(texts(old_pieces.push(piece)) =~= texts(old_pieces).push(piece@));
            }
        } else {
            current.push(c);
        }
        index += 1;
    }
    let ghost old_pieces = pieces@;
    let ghost piece = current;
    pieces.push(current);
    proof {
        assert(texts(old_pieces.push(piece)) =~= texts(old_pieces).push(piece@));
        assert(chars@.take(index as int) =~= text@);
    }
    pieces
}

/// Whether two texts hold the same characters.
pub fn same_text(left: &str, right: &str) -> (same: bool)
    ensures
        same == (left@ == right@),
{
    left.to_owned() == right.to_owned()
}

/// The characters of a text.
pub fn characters(text: &str) -> (chars: Vec<char>)
    ensures
        chars@ == text@,
{
    let mut chars: Vec<char> = Vec::new();
    for c in it: text.chars()
        invariant
            it.seq() == text@,
            chars@ == it.seq().take(it.index() as int),
    {
        chars.push(c);
    }
    chars
}
pub fn concat2(a: &str, b: &str) -> (text: String)
    ensures
        text@ == a@ + b@,
{
    let mut text = a.to_owned();
    text.append(b);
    text
}

pub fn concat3(a: &str, b: &str, c: &str) -> (text: String)
    ensures
        text@ == a@ + b@ + c@,
{
    let mut text = concat2(a, b);
    text.append(c);
    text
}

pub fn concat4(a: &str, b: &str, c: &str, d: &str) -> (text: String)
    ensures
        text@ == a@ + b@ + c@ + d@,
{
    let mut text = concat3(a, b, c);
    text.append(d);
    text
}

pub fn concat5(a: &str, b: &str, c: &str, d: &str, e: &str) -> (text: String)
    ensures
        text@ == a@ + b@ + c@ + d@ + e@,
{
    let mut text = concat4(a, b, c, d);
    text.append(e);
    text
}

/// Writes `n` in decimal.
pub fn decimal_text(n: u64) -> (text: String)
    ensures
        text@ == decimal(n as nat),
{
    let mut reversed: Vec<char> = Vec::new();
    let mut rest: u64 = n;
    while rest >= 10
        invariant
            decimal(n as nat) == decimal(rest as nat) + reversed@.reverse(),
        decreases rest,
    {
        let ghost before = reversed@;
        let c = (48u8 + (rest % 10) as u8) as char;
        proof {
            assert(before.push(c).reverse() =~= seq![c] + before.reverse());
            assert(decimal(rest as nat) == decimal(rest as nat / 10).push(c));
        }
        reversed.push(c);
        rest = rest / 10;
        proof {
            assert(decimal(n as nat) =~= decimal(rest as nat) + reversed@.reverse());
        }
    }
    let mut text = String::new();
    text.push((48u8 + rest as u8) as char);
    let mut index: usize = reversed.len();
    proof {
        assert(reversed@.skip(index as int).reverse() =~= Seq::<char>::empty());
        assert(text@ =~= decimal(rest as nat));
    }
    while index > 0
        invariant
            index <= reversed.len(),
            text@ == decimal(rest as nat) + reversed@.skip(index as int).reverse(),
        decreases index,
    {
        index -= 1;
        proof {
            let tail = reversed@.skip(index as int + 1);
            assert(reversed@.skip(index as int) =~= seq![reversed@[index as int]] + tail);
            assert(reversed@.skip(index as int).reverse() =~= tail.reverse().push(
                reversed@[index as int],
            ));
        }
        text.push(reversed[index]);
    }
    proof {
        assert(reversed@.skip(0) =~= reversed@);
    }
    text
}

/// A longer digit sequence never stands for a smaller number.
proof fn lemma_digits_value_grows(text: Seq<char>, prefix: int)
    requires
        0 <= prefix <= text.len(),
    ensures
        digits_value(text.take(prefix)) <= digits_value(text),
    decreases text.len() - prefix,
{
    if prefix == text.len() {
        assert(text.take(prefix) =~= text);
    } else {
        lemma_digits_value_grows(text, prefix + 1);
        assert(text.take(prefix + 1).drop_last() =~= text.take(prefix));
    }
}

/// Parses an unsigned decimal number no greater than `limit`.
pub fn parse_unsigned(text: &str, limit: u64) -> (number: Option<u64>)
    ensures
        match number {
            Some(value) => unsigned(text@, limit as nat) == Some(value as nat),
            None => unsigned(text@, limit as nat) is None,
        },
{
    let chars = characters(text);
    let start: usize = if chars.len() > 0 && chars[0] == '+' { 1 } else { 0 };
    let ghost digits = unsigned_digits(text@);
    if start == chars.len() {
        return None;
    }
    let mut value: u64 = 0;
    let mut index: usize = start;
    proof {
        assert(digits =~= chars@.skip(start as int));
    }
    while index < chars.len()
        invariant
            start <= index <= chars.len(),
            start < chars.len(),
            digits == chars@.skip(start as int),
            digits == unsigned_digits(text@),
            all_digits(digits.take(index - start)),
            value == digits_value(digits.take(index - start)),
            value <= limit,
        decreases chars.len() - index,
    {
        let c = chars[index];
        let ghost at = index - start;
        proof {
            assert(digits[at] == c);
        }
        if c < '0' || c > '9' {
            return None;
        }
        let step: u64 = (c as u32 - 48) as u64;
        let ghost longer = digits.take(at + 1);
        proof {
            assert(longer.drop_last() =~= digits.take(at));
            lemma_digits_value_grows(digits, at + 1);
        }
        let next: u64 = match value.checked_mul(10) {
            Some(shifted) => match shifted.checked_add(step) {
                Some(next) => next,
                None => {
                    return None;
                },
            },
            None => {
                return None;
            },
        };
        if next > limit {
            return None;
        }
        proof {
            assert forall|i: int| 0 <= i < longer.len() implies is_digit(#[trigger] longer[i]) by {
                if i < at {
                    assert(is_digit(digits.take(at)[i]));
                }
            }
        }
        value = next;
        index += 1;
    }
    proof {
        assert(digits.take(index - start) =~= digits);
    }
    Some(value)
}

/// Characters with the Unicode property `White_Space`.
pub open spec fn is_whitespace(c: char) -> bool {
    let code = c as u32;
    ||| 0x09 <= code <= 0x0d
    ||| code == 0x20
    ||| code == 0x85
    ||| code == 0xa0
    ||| code == 0x1680
    ||| 0x2000 <= code <= 0x200a
    ||| code == 0x2028
    ||| code == 0x2029
    ||| code == 0x202f
    ||| code == 0x205f
    ||| code == 0x3000
}

/// Whether a character is white space.
pub fn is_whitespace_char(c: char) -> (whitespace: bool)
    ensures
        whitespace == is_whitespace(c),
{
    let code: u32 = c as u32;
    (0x09 <= code && code <= 0x0d) || code == 0x20 || code == 0x85 || code == 0xa0 || code == 0x1680
        || (0x2000 <= code && code <= 0x200a) || code == 0x2028 || code == 0x2029 || code == 0x202f
        || code == 0x205f || code == 0x3000
}

/// Numbers in decimal with a separator between them.
pub open spec fn number_list(numbers: Seq<usize>, separator: Seq<char>) -> Seq<char>
    decreases numbers.len(),
{
    if numbers.len() == 0 {
        Seq::empty()
    } else if numbers.len() == 1 {
        decimal(numbers[0] as nat)
    } else {
        number_list(numbers.drop_last(), separator) + separator + decimal(numbers.last() as nat)
    }
}

/// Writes numbers in decimal with a separator between them.
pub fn number_list_text(numbers: &Vec<usize>, separator: &str) -> (list: String)
    ensures
        list@ == number_list(numbers@, separator@),
{
    let mut list = String::new();
    let mut index: usize = 0;
    while index < numbers.len()
        invariant
            index <= numbers@.len(),
            list@ == number_list(numbers@.take(index as int), separator@),
        decreases numbers@.len() - index,
    {
        proof {
            assert(numbers@.take(index + 1).drop_last() =~= numbers@.take(index as int));
        }
        let number = decimal_text(numbers[index] as u64);
        if index == 0 {
            list = number;
        } else {
            list = concat3(list.as_str(), separator, number.as_str());
        }
        index += 1;
    }
    proof {
        assert(numbers@.take(index as int) =~= numbers@);
    }
    list
}

/// A list of numbers in square brackets.
pub open spec fn shape_form(shape: Seq<usize>) -> Seq<char> {
    "["@ + number_list(shape, ", "@) + "]"@
}

/// Writes a list of numbers in square brackets.
pub fn shape_text(shape: &Vec<usize>) -> (shown: String)
    ensures
        shown@ == shape_form(shape@),
{
    let numbers = number_list_text(shape, ", ");
    concat3("[", numbers.as_str(), "]")
}

/// A line of text without the carriage return that ends it.
pub open spec fn without_carriage_return(line: Seq<char>) -> Seq<char> {
    if line.len() > 0 && line.last() == '\r' {
        line.drop_last()
    } else {
        line
    }
}

/// The lines of a text. A line feed ends a line, together with a carriage
/// return right before it; a last line need not be ended.
pub open spec fn lines(text: Seq<char>) -> Seq<Seq<char>> {
    let pieces = split(text, '\n');
    let ended = pieces.drop_last().map_values(|piece: Seq<char>| without_carriage_return(piece));
    if pieces.last().len() == 0 {
        ended
    } else {
        ended.push(pieces.last())
    }
}

/// Whether a line holds nothing but white space.
pub open spec fn is_blank(line: Seq<char>) -> bool {
    forall|i: int| 0 <= i < line.len() ==> is_whitespace(#[trigger] line[i])
}

fn strip_carriage_return(line: &str) -> (stripped: String)
    ensures
        stripped@ == without_carriage_return(line@),
{
    let chars = characters(line);
    if chars.len() == 0 || chars[chars.len() - 1] != '\r' {
        return line.to_owned();
    }
    let mut stripped = String::new();
    let mut index: usize = 0;
    while index < chars.len() - 1
        invariant
            index <= chars@.len() - 1,
            stripped@ =~= chars@.take(index as int),
        decreases chars@.len() - index,
    {
        stripped.push(chars[index]);
        index += 1;
    }
    proof {
        assert(chars@.take(index as int) =~= chars@.drop_last());
    }
    stripped
}

/// Whether a line holds nothing but white space.
pub fn blank_line(line: &str) -> (blank: bool)
    ensures
        blank == is_blank(line@),
{
    let chars = characters(line);
    let mut index: usize = 0;
    while index < chars.len()
        invariant
            index <= chars@.len(),
            chars@ == line@,
            forall|i: int| 0 <= i < index ==> is_whitespace(#[trigger] chars@[i]),
        decreases chars@.len() - index,
    {
        if !is_whitespace_char(chars[index]) {
            return false;
        }
        index += 1;
    }
    true
}

/// The lines of a text.
pub fn text_lines(text: &str) -> (result: Vec<String>)
    ensures
        texts(result@) == lines(text@),
{
    let pieces = split_text(text, '\n');
    let ghost all = split(text@, '\n');
    let ghost ended = all.drop_last().map_values(|piece: Seq<char>| without_carriage_return(piece));
    proof {
        lemma_split_not_empty(text@, '\n');
        assert(texts(pieces@).len() == pieces@.len());
    }
    let mut result: Vec<String> = Vec::new();
    let mut index: usize = 0;
    while index < pieces.len() - 1
        invariant
            pieces@.len() > 0,
            index <= pieces@.len() - 1,
            texts(pieces@) == all,
            ended == all.drop_last().map_values(
                |piece: Seq<char>| without_carriage_return(piece),
            ),
            texts(result@) =~= ended.take(index as int),
        decreases pieces@.len() - index,
    {
        let ghost before = result@;
        let stripped = strip_carriage_return(pieces[index].as_str());
        proof {
            assert(pieces@[index as int]@ == texts(pieces@)[index as int]);
        }
        result.push(stripped);
        proof {
            assert(texts(result@) =~= texts(before).push(stripped@));
        }
        index += 1;
    }
    proof {
        assert(ended.take(index as int) =~= ended);
        assert(pieces@[index as int]@ == texts(pieces@)[index as int]);
    }
    if !pieces[index].as_str().is_empty() {
        let ghost before = result@;
        result.push(pieces[index].clone());
        proof {
            assert(texts(result@) =~= texts(before).push(all.last()));
        }
    }
    result
}

/// A zero before the digits of a number changes nothing.
proof fn lemma_leading_zero(digits: Seq<char>)
    ensures
        digits_value(seq!['0'] + digits) == digits_value(digits),
    decreases digits.len(),
{
    let longer = seq!['0'] + digits;
    if digits.len() == 0 {
        assert(longer =~= seq!['0']);
        assert(longer.drop_last() =~= Seq::empty());
        assert(digits_value(longer.drop_last()) == 0);
    } else {
        lemma_leading_zero(digits.drop_last());
        assert(longer.drop_last() =~= seq!['0'] + digits.drop_last());
        assert(longer.last() == digits.last());
    }
}

/// A number may have a plus sign or zeros before its digits. Each further
/// digit counts ten times what stands before it, and a text with anything but
/// digits behind the sign, or with none, is no number.
pub proof fn law_numbers_are_read(digits: Seq<char>, limit: nat, next: char)
    requires
        digits.len() > 0,
        all_digits(digits),
    ensures
        unsigned(seq!['+'] + digits, limit) == unsigned(digits, limit),
        unsigned(seq!['0'] + digits, limit) == unsigned(digits, limit),
        is_digit(next) ==> unsigned(digits.push(next), limit) == (match unsigned(digits, limit) {
            None => None,
            Some(number) => if number * 10 + (next as nat - '0' as nat) <= limit {
                Some((number * 10 + (next as nat - '0' as nat)) as nat)
            } else {
                None
            },
        }),
        !is_digit(next) ==> unsigned(digits.push(next), limit) is None,
        unsigned(seq!['+'], limit) is None,
        unsigned(Seq::<char>::empty(), limit) is None,
        unsigned(seq!['-'] + digits, limit) is None,
{
    assert(digits[0] != '+') by {
        assert(is_digit(digits[0]));
    }
    let signed = seq!['+'] + digits;
    assert(signed.skip(1) =~= digits);
    let longer = seq!['0'] + digits;
    lemma_leading_zero(digits);
    assert(longer[0] == '0');
    assert forall|i: int| 0 <= i < longer.len() implies is_digit(#[trigger] longer[i]) by {
        if i > 0 {
            assert(longer[i] == digits[i - 1]);
        }
    }
    let pushed = digits.push(next);
    assert(pushed.drop_last() =~= digits);
    assert(pushed[0] == digits[0]);
    assert(pushed[pushed.len() - 1] == next);
    if is_digit(next) {
        assert forall|i: int| 0 <= i < pushed.len() implies is_digit(#[trigger] pushed[i]) by {
            if i < digits.len() {
                assert(pushed[i] == digits[i]);
            }
        }
    }
    assert(seq!['+'].skip(1).len() == 0);
    let negative = seq!['-'] + digits;
    assert(negative[0] == '-');
    assert(!is_digit(negative[0]));
}

} // verus!
