//! Command-line options: what each option takes, and a scan over arguments.
use vstd::prelude::*;

use crate::text;

verus! {

/// What a number given to an option must satisfy.
pub struct NumberRule {
    pub limit: u64,
    pub scale: u64,
    pub least: u64,
    pub invalid: &'static str,
    pub overflow: &'static str,
    pub low: &'static str,
}

/// What an option takes.
pub enum Rule {
    /// Nothing: the option is on or off.
    Switch,
    /// A text; the last one counts.
    Text,
    /// Texts; all of them count, in order.
    Texts,
    /// A number; the last one counts.
    Number(NumberRule),
    /// Numbers with commas between them; the last list counts.
    Numbers(NumberRule),
    /// One of two words, recorded as zero or one.
    Choice { first: &'static str, second: &'static str, invalid: &'static str },
    /// The option ends the scan with a message.
    Refuse(&'static str),
    /// The option ends the scan with a request for help.
    Help,
}

pub struct OptionRule {
    pub name: &'static str,
    pub rule: Rule,
    pub missing: &'static str,
}

/// How a program reads its arguments: whether a value must stand behind a
/// name before the name is looked up, and how an unknown name is reported.
pub struct Style {
    pub value_first: bool,
    pub unknown: &'static str,
}

/// What the scan recorded for an option.
pub enum Value {
    Absent,
    On,
    Text(String),
    Texts(Vec<String>),
    Number(u64),
    Numbers(Vec<u64>),
}

pub enum Scan {
    Help,
    Values(Vec<Value>),
}

pub enum ValueView {
    Absent,
    On,
    Text(Seq<char>),
    Texts(Seq<Seq<char>>),
    Number(nat),
    Numbers(Seq<nat>),
}

pub enum ScanView {
    Help,
    Values(Seq<ValueView>),
}

impl View for Value {
    type V = ValueView;

    open spec fn view(&self) -> ValueView {
        match self {
            Value::Absent => ValueView::Absent,
            Value::On => ValueView::On,
            Value::Text(value) => ValueView::Text(value@),
            Value::Texts(values) => ValueView::Texts(text::texts(values@)),
            Value::Number(value) => ValueView::Number(*value as nat),
            Value::Numbers(values) => ValueView::Numbers(values@.map_values(|n: u64| n as nat)),
        }
    }
}

pub open spec fn value_views(values: Seq<Value>) -> Seq<ValueView> {
    values.map_values(|value: Value| value@)
}

impl View for Scan {
    type V = ScanView;

    open spec fn view(&self) -> ScanView {
        match self {
            Scan::Help => ScanView::Help,
            Scan::Values(values) => ScanView::Values(value_views(values@)),
        }
    }
}

/// An option that takes a text.
#[verifier::allow_in_spec]
pub fn text_option(name: &'static str) -> OptionRule
    returns
        (OptionRule { name, rule: Rule::Text, missing: "" }),
{
    OptionRule { name, rule: Rule::Text, missing: "" }
}

/// An option that is on or off.
#[verifier::allow_in_spec]
pub fn switch_option(name: &'static str) -> OptionRule
    returns
        (OptionRule { name, rule: Rule::Switch, missing: "" }),
{
    OptionRule { name, rule: Rule::Switch, missing: "" }
}

/// The rule for a machine-sized number no less than `least`.
#[verifier::allow_in_spec]
pub fn size_rule(least: u64, invalid: &'static str, low: &'static str) -> NumberRule
    returns
        (NumberRule { limit: usize::MAX as u64, scale: 1, least, invalid, overflow: invalid, low }),
{
    NumberRule { limit: usize::MAX as u64, scale: 1, least, invalid, overflow: invalid, low }
}

/// The rule for a 32-bit number no less than `least`.
#[verifier::allow_in_spec]
pub fn word_rule(least: u64, invalid: &'static str, low: &'static str) -> NumberRule
    returns
        (NumberRule { limit: 0xffff_ffff, scale: 1, least, invalid, overflow: invalid, low }),
{
    NumberRule { limit: 0xffff_ffff, scale: 1, least, invalid, overflow: invalid, low }
}

/// An option that takes a machine-sized number of any value.
#[verifier::allow_in_spec]
pub fn size_option(name: &'static str, invalid: &'static str) -> OptionRule
    returns
        (OptionRule { name, rule: Rule::Number(size_rule(0, invalid, invalid)), missing: "" }),
{
    OptionRule { name, rule: Rule::Number(size_rule(0, invalid, invalid)), missing: "" }
}

/// An option that takes a positive machine-sized number.
#[verifier::allow_in_spec]
pub fn positive_size_option(name: &'static str, invalid: &'static str) -> OptionRule
    returns
        (OptionRule { name, rule: Rule::Number(size_rule(1, invalid, invalid)), missing: "" }),
{
    OptionRule { name, rule: Rule::Number(size_rule(1, invalid, invalid)), missing: "" }
}

/// An option that takes a 32-bit number of any value.
#[verifier::allow_in_spec]
pub fn word_option(name: &'static str, invalid: &'static str) -> OptionRule
    returns
        (OptionRule { name, rule: Rule::Number(word_rule(0, invalid, invalid)), missing: "" }),
{
    OptionRule { name, rule: Rule::Number(word_rule(0, invalid, invalid)), missing: "" }
}

/// An option that takes a positive 32-bit number.
#[verifier::allow_in_spec]
pub fn positive_word_option(name: &'static str, invalid: &'static str) -> OptionRule
    returns
        (OptionRule { name, rule: Rule::Number(word_rule(1, invalid, invalid)), missing: "" }),
{
    OptionRule { name, rule: Rule::Number(word_rule(1, invalid, invalid)), missing: "" }
}

/// The option with the message for a missing value.
#[verifier::allow_in_spec]
pub fn with_missing(option: OptionRule, missing: &'static str) -> OptionRule
    returns
        (OptionRule { missing, ..option }),
{
    OptionRule { missing, ..option }
}

/// The style in which every name is followed by a value, looked at before the name.
#[verifier::allow_in_spec]
pub fn paired_style() -> Style
    returns
        (Style { value_first: true, unknown: "unknown option: " }),
{
    Style { value_first: true, unknown: "unknown option: " }
}

/// The style in which the name is looked up before its value.
#[verifier::allow_in_spec]
pub fn named_style(unknown: &'static str) -> Style
    returns
        (Style { value_first: false, unknown }),
{
    Style { value_first: false, unknown }
}

/// The number that a text gives under a rule, or the message that refuses it.
pub open spec fn number_under(rule: NumberRule, value: Seq<char>) -> Result<nat, Seq<char>> {
    match text::unsigned(value, rule.limit as nat) {
        None => Err(rule.invalid@),
        Some(number) => if number * rule.scale > rule.limit {
            Err(rule.overflow@)
        } else if number * rule.scale < rule.least {
            Err(rule.low@)
        } else {
            Ok((number * rule.scale) as nat)
        },
    }
}

/// The numbers of a comma-separated list, or the message that refuses it.
pub open spec fn numbers_under(rule: NumberRule, value: Seq<char>) -> Result<Seq<nat>, Seq<char>> {
    let pieces = text::split(value, ',');
    if forall|i: int|
        0 <= i < pieces.len() ==> text::unsigned(#[trigger] pieces[i], rule.limit as nat) is Some {
        Ok(pieces.map_values(|piece: Seq<char>| text::unsigned(piece, rule.limit as nat)->Some_0))
    } else {
        Err(rule.invalid@)
    }
}

/// What an option records when it is given a value after it recorded `current`.
pub open spec fn accepted(rule: Rule, value: Seq<char>, current: ValueView) -> Result<
    ValueView,
    Seq<char>,
> {
    match rule {
        Rule::Switch => Ok(ValueView::On),
        Rule::Text => Ok(ValueView::Text(value)),
        Rule::Texts => match current {
            ValueView::Texts(values) => Ok(ValueView::Texts(values.push(value))),
            _ => Ok(ValueView::Texts(seq![value])),
        },
        Rule::Number(number) => match number_under(number, value) {
            Ok(n) => Ok(ValueView::Number(n)),
            Err(message) => Err(message),
        },
        Rule::Numbers(number) => match numbers_under(number, value) {
            Ok(numbers) => Ok(ValueView::Numbers(numbers)),
            Err(message) => Err(message),
        },
        Rule::Choice { first, second, invalid } => if value == first@ {
            Ok(ValueView::Number(0))
        } else if value == second@ {
            Ok(ValueView::Number(1))
        } else {
            Err(invalid@)
        },
        Rule::Refuse(message) => Err(message@),
        Rule::Help => Ok(current),
    }
}

/// The first option of that name among those from `from` on, or the number of options.
pub open spec fn found(rules: Seq<OptionRule>, name: Seq<char>, from: int) -> int
    decreases rules.len() - from,
{
    if from >= rules.len() || from < 0 {
        rules.len() as int
    } else if rules[from].name@ == name {
        from
    } else {
        found(rules, name, from + 1)
    }
}

/// Whether an option stands alone, without a value behind it.
pub open spec fn stands_alone(style: Style, rule: Rule) -> bool {
    rule is Switch || (!style.value_first && (rule is Refuse || rule is Help))
}

/// What scanning the arguments gives when the options have recorded `values` so far.
pub open spec fn scanned(
    rules: Seq<OptionRule>,
    style: Style,
    arguments: Seq<Seq<char>>,
    values: Seq<ValueView>,
) -> Result<ScanView, Seq<char>>
    decreases arguments.len(),
{
    if arguments.len() == 0 {
        Ok(ScanView::Values(values))
    } else {
        let name = arguments[0];
        let at = found(rules, name, 0);
        let known = at < rules.len();
        let rule = rules[at].rule;
        if known && stands_alone(style, rule) {
            match rule {
                Rule::Help => Ok(ScanView::Help),
                Rule::Refuse(message) => Err(message@),
                _ => scanned(rules, style, arguments.skip(1), values.update(at, ValueView::On)),
            }
        } else if style.value_first && arguments.len() < 2 {
            Err("missing value for "@ + name)
        } else if !known {
            Err(style.unknown@ + name)
        } else if arguments.len() < 2 {
            Err(rules[at].missing@)
        } else if rule is Help {
            Ok(ScanView::Help)
        } else {
            match accepted(rule, arguments[1], values[at]) {
                Ok(value) => scanned(
                    rules,
                    style,
                    arguments.skip(2),
                    values.update(at, value),
                ),
                Err(message) => Err(message),
            }
        }
    }
}

/// The records of options that have not been given.
pub open spec fn none_given(options: nat) -> Seq<ValueView> {
    Seq::new(options, |i: int| ValueView::Absent)
}

/// What scanning all the arguments gives.
pub open spec fn scan_result(
    rules: Seq<OptionRule>,
    style: Style,
    arguments: Seq<Seq<char>>,
) -> Result<ScanView, Seq<char>> {
    scanned(rules, style, arguments, none_given(rules.len()))
}

/// Whether a record is one that its option can have made.
pub open spec fn fits(rule: Rule, value: ValueView) -> bool {
    match value {
        ValueView::Number(n) => match rule {
            Rule::Number(number) => number.least <= n <= number.limit,
            _ => n <= 1,
        },
        ValueView::Numbers(numbers) => match rule {
            Rule::Numbers(number) => forall|i: int|
                0 <= i < numbers.len() ==> #[trigger] numbers[i] <= number.limit,
            _ => false,
        },
        _ => true,
    }
}

/// Whether every record is one that its option can have made.
pub open spec fn all_fit(rules: Seq<OptionRule>, values: Seq<ValueView>) -> bool {
    &&& values.len() == rules.len()
    &&& forall|i: int| 0 <= i < rules.len() ==> fits(#[trigger] rules[i].rule, values[i])
}

/// The number that an option recorded, or the default.
pub open spec fn number_or(value: ValueView, default: nat) -> nat {
    match value {
        ValueView::Number(n) => n,
        _ => default,
    }
}

/// The text that an option recorded.
pub open spec fn text_given(value: ValueView) -> Option<Seq<char>> {
    match value {
        ValueView::Text(text) => Some(text),
        _ => None,
    }
}

/// The text that an option recorded, or the default.
pub open spec fn text_or(value: ValueView, default: Seq<char>) -> Seq<char> {
    match value {
        ValueView::Text(text) => text,
        _ => default,
    }
}

/// The number that an option recorded, if it recorded one.
pub open spec fn number_given(value: ValueView) -> Option<nat> {
    match value {
        ValueView::Number(n) => Some(n),
        _ => None,
    }
}

/// The texts that an option recorded.
pub open spec fn texts_given(value: ValueView) -> Seq<Seq<char>> {
    match value {
        ValueView::Texts(texts) => texts,
        _ => Seq::empty(),
    }
}

/// The optional number behind an optional machine-sized number.
pub open spec fn optional_size(value: Option<usize>) -> Option<nat> {
    match value {
        Some(n) => Some(n as nat),
        None => None,
    }
}

fn find(rules: &Vec<OptionRule>, name: &str) -> (at: usize)
    ensures
        at == found(rules@, name@, 0),
        at <= rules@.len(),
{
    let mut at: usize = 0;
    while at < rules.len()
        invariant
            at <= rules@.len(),
            found(rules@, name@, 0) == found(rules@, name@, at as int),
        decreases rules@.len() - at,
    {
        if text::same_text(rules[at].name, name) {
            return at;
        }
        at += 1;
    }
    at
}

fn accept_number(rule: &NumberRule, value: &str) -> (result: Result<u64, String>)
    ensures
        match number_under(*rule, value@) {
            Ok(n) => result is Ok && result->Ok_0 == n && rule.least <= n <= rule.limit,
            Err(message) => result is Err && result->Err_0@ == message,
        },
{
    match text::parse_unsigned(value, rule.limit) {
        None => Err(rule.invalid.to_owned()),
        Some(number) => match number.checked_mul(rule.scale) {
            None => Err(rule.overflow.to_owned()),
            Some(scaled) => if scaled > rule.limit {
                Err(rule.overflow.to_owned())
            } else if scaled < rule.least {
                Err(rule.low.to_owned())
            } else {
                Ok(scaled)
            },
        },
    }
}

fn accept_numbers(rule: &NumberRule, value: &str) -> (result: Result<Vec<u64>, String>)
    ensures
        match numbers_under(*rule, value@) {
            Ok(numbers) => result is Ok && result->Ok_0@.map_values(|n: u64| n as nat) == numbers
                && forall|i: int|
                0 <= i < numbers.len() ==> #[trigger] numbers[i] <= rule.limit,
            Err(message) => result is Err && result->Err_0@ == message,
        },
{
    let pieces = text::split_text(value, ',');
    let ghost views = text::split(value@, ',');
    let mut numbers: Vec<u64> = Vec::new();
    let mut index: usize = 0;
    while index < pieces.len()
        invariant
            views == text::split(value@, ','),
            views == text::texts(pieces@),
            index <= pieces@.len(),
            numbers@.len() == index,
            forall|i: int|
                0 <= i < index ==> text::unsigned(#[trigger] views[i], rule.limit as nat) == Some(
                    numbers@[i] as nat,
                ),
        decreases pieces@.len() - index,
    {
        assert(views[index as int] == pieces@[index as int]@);
        match text::parse_unsigned(pieces[index].as_str(), rule.limit) {
            Some(number) => numbers.push(number),
            None => {
                return Err(rule.invalid.to_owned());
            },
        }
        index += 1;
    }
    proof {
        let expected = views.map_values(
            |piece: Seq<char>| text::unsigned(piece, rule.limit as nat)->Some_0,
        );
        let got = numbers@.map_values(|n: u64| n as nat);
        assert forall|i: int| 0 <= i < views.len() implies got[i] == expected[i] by {
            assert(text::unsigned(views[i], rule.limit as nat) is Some);
        }
        assert(got =~= expected);
        assert forall|i: int| 0 <= i < expected.len() implies #[trigger] expected[i]
            <= rule.limit by {
            assert(text::unsigned(views[i], rule.limit as nat) is Some);
        }
    }
    Ok(numbers)
}

fn accept(rule: &Rule, value: &String, current: &Value) -> (result: Result<Value, String>)
    requires
        fits(*rule, current@),
    ensures
        text::outcome_view(result) == accepted(*rule, value@, current@),
        result matches Ok(next) ==> fits(*rule, next@),
{
    match rule {
        Rule::Switch => Ok(Value::On),
        Rule::Text => Ok(Value::Text(value.clone())),
        Rule::Texts => {
            let mut values: Vec<String> = Vec::new();
            match current {
                Value::Texts(earlier) => {
                    let mut index: usize = 0;
                    while index < earlier.len()
                        invariant
                            index <= earlier@.len(),
                            text::texts(values@) == text::texts(earlier@).take(index as int),
                        decreases earlier@.len() - index,
                    {
                        let ghost before = values@;
                        let entry = earlier[index].clone();
                        values.push(entry);
                        proof {
                            assert(text::texts(before.push(entry)) =~= text::texts(before).push(
                                entry@,
                            ));
                            assert(text::texts(earlier@).take(index + 1) =~= text::texts(
                                earlier@,
                            ).take(index as int).push(earlier@[index as int]@));
                        }
                        index += 1;
                    }
                    proof {
                        assert(text::texts(earlier@).take(index as int) =~= text::texts(earlier@));
                    }
                },
                _ => {},
            }
            let ghost before = values@;
            let entry = value.clone();
            values.push(entry);
            proof {
                assert(text::texts(before.push(entry)) =~= text::texts(before).push(entry@));
                if !(current@ is Texts) {
                    assert(text::texts(values@) =~= seq![value@]);
                }
            }
            Ok(Value::Texts(values))
        },
        Rule::Number(number) => match accept_number(number, value.as_str()) {
            Ok(n) => Ok(Value::Number(n)),
            Err(message) => Err(message),
        },
        Rule::Numbers(number) => match accept_numbers(number, value.as_str()) {
            Ok(numbers) => Ok(Value::Numbers(numbers)),
            Err(message) => Err(message),
        },
        Rule::Choice { first, second, invalid } => if text::same_text(value.as_str(), first) {
            Ok(Value::Number(0))
        } else if text::same_text(value.as_str(), second) {
            Ok(Value::Number(1))
        } else {
            Err((*invalid).to_owned())
        },
        Rule::Refuse(message) => Err((*message).to_owned()),
        Rule::Help => Ok(copied(current)),
    }
}

/// A copy of a record.
fn copied(value: &Value) -> (copy: Value)
    ensures
        copy@ == value@,
{
    match value {
        Value::Absent => Value::Absent,
        Value::On => Value::On,
        Value::Text(entry) => Value::Text(entry.clone()),
        Value::Texts(entries) => {
            let mut copies: Vec<String> = Vec::new();
            let mut index: usize = 0;
            while index < entries.len()
                invariant
                    index <= entries@.len(),
                    copies@.len() == index,
                    forall|i: int| 0 <= i < index ==> #[trigger] copies@[i]@ == entries@[i]@,
                decreases entries@.len() - index,
            {
                copies.push(entries[index].clone());
                index += 1;
            }
            proof {
                assert(text::texts(copies@) =~= text::texts(entries@));
            }
            Value::Texts(copies)
        },
        Value::Number(n) => Value::Number(*n),
        Value::Numbers(numbers) => {
            let mut copies: Vec<u64> = Vec::new();
            let mut index: usize = 0;
            while index < numbers.len()
                invariant
                    index <= numbers@.len(),
                    copies@ == numbers@.take(index as int),
                decreases numbers@.len() - index,
            {
                copies.push(numbers[index]);
                index += 1;
            }
            proof {
                assert(numbers@.take(index as int) =~= numbers@);
            }
            Value::Numbers(copies)
        },
    }
}

/// Scans the arguments under the rules of the options.
pub fn scan(rules: &Vec<OptionRule>, style: &Style, arguments: &Vec<String>) -> (result: Result<
    Scan,
    String,
>)
    ensures
        text::outcome_view(result) == scan_result(rules@, *style, text::texts(arguments@)),
        result matches Ok(Scan::Values(values)) ==> all_fit(rules@, value_views(values@)),
{
    let ghost views = text::texts(arguments@);
    let mut values: Vec<Value> = Vec::new();
    let mut count: usize = 0;
    while count < rules.len()
        invariant
            count <= rules@.len(),
            value_views(values@) == none_given(count as nat),
        decreases rules@.len() - count,
    {
        let ghost before = values@;
        values.push(Value::Absent);
        proof {
            assert(value_views(before.push(Value::Absent)) =~= value_views(before).push(
                ValueView::Absent,
            ));
            assert(none_given((count + 1) as nat) =~= none_given(count as nat).push(
                ValueView::Absent,
            ));
        }
        count += 1;
    }
    let mut index: usize = 0;
    proof {
        assert(views.skip(0) =~= views);
    }
    while index < arguments.len()
        invariant
            index <= arguments@.len(),
            views == text::texts(arguments@),
            all_fit(rules@, value_views(values@)),
            scanned(rules@, *style, views.skip(index as int), value_views(values@)) == scan_result(
                rules@,
                *style,
                views,
            ),
        decreases arguments@.len() - index,
    {
        let ghost rest = views.skip(index as int);
        let ghost before = values@;
        let name = arguments[index].as_str();
        let at: usize = find(rules, name);
        proof {
            assert(rest[0] == name@);
            assert(rest.len() == arguments@.len() - index);
        }
        if at < rules.len() {
            let alone = match &rules[at].rule {
                Rule::Switch => true,
                Rule::Refuse(_) => !style.value_first,
                Rule::Help => !style.value_first,
                _ => false,
            };
            if alone {
                match &rules[at].rule {
                    Rule::Help => {
                        return Ok(Scan::Help);
                    },
                    Rule::Refuse(message) => {
                        return Err((*message).to_owned());
                    },
                    _ => {},
                }
                values.set(at, Value::On);
                proof {
                    assert(value_views(values@) =~= value_views(before).update(
                        at as int,
                        ValueView::On,
                    ));
                    assert(rest.skip(1) =~= views.skip(index + 1));
                }
                index += 1;
                continue ;
            }
        }
        if style.value_first && arguments.len() - index < 2 {
            return Err(text::concat2("missing value for ", name));
        }
        if at == rules.len() {
            return Err(text::concat2(style.unknown, name));
        }
        if arguments.len() - index < 2 {
            return Err(rules[at].missing.to_owned());
        }
        proof {
            assert(rest[1] == arguments@[index + 1]@);
        }
        match &rules[at].rule {
            Rule::Help => {
                return Ok(Scan::Help);
            },
            _ => {},
        }
        match accept(&rules[at].rule, &arguments[index + 1], &values[at]) {
            Ok(value) => {
                values.set(at, value);
                proof {
                    assert(value_views(values@) =~= value_views(before).update(at as int, value@));
                    assert(rest.skip(2) =~= views.skip(index + 2));
                }
            },
            Err(message) => {
                return Err(message);
            },
        }
        index += 2;
    }
    Ok(Scan::Values(values))
}

/// Whether none of the options asks for help.
pub open spec fn without_help(rules: Seq<OptionRule>) -> bool {
    forall|i: int| 0 <= i < rules.len() ==> !(#[trigger] rules[i].rule is Help)
}

proof fn lemma_found(rules: Seq<OptionRule>, name: Seq<char>, from: int)
    requires
        0 <= from <= rules.len(),
    ensures
        from <= found(rules, name, from) <= rules.len(),
    decreases rules.len() - from,
{
    if from < rules.len() && rules[from].name@ != name {
        lemma_found(rules, name, from + 1);
    }
}

/// Without an option that asks for help, no arguments ask for it.
pub proof fn lemma_without_help(
    rules: Seq<OptionRule>,
    style: Style,
    arguments: Seq<Seq<char>>,
    values: Seq<ValueView>,
)
    requires
        without_help(rules),
    ensures
        scanned(rules, style, arguments, values) != Ok::<ScanView, Seq<char>>(ScanView::Help),
    decreases arguments.len(),
{
    if arguments.len() > 0 {
        let at = found(rules, arguments[0], 0);
        lemma_found(rules, arguments[0], 0);
        if at < rules.len() {
            let rule = rules[at].rule;
            lemma_without_help(rules, style, arguments.skip(1), values.update(at, ValueView::On));
            if arguments.len() >= 2 {
                match accepted(rule, arguments[1], values[at]) {
                    Ok(value) => {
                        lemma_without_help(
                            rules,
                            style,
                            arguments.skip(2),
                            values.update(at, value),
                        );
                    },
                    Err(_) => {},
                }
            }
        }
    }
}

/// What the options record, or the message that refuses the arguments. No
/// arguments ask for help where no option does.
pub open spec fn values_result(
    rules: Seq<OptionRule>,
    style: Style,
    arguments: Seq<Seq<char>>,
) -> Result<Seq<ValueView>, Seq<char>>
    recommends
        without_help(rules),
{
    match scan_result(rules, style, arguments) {
        Ok(ScanView::Values(values)) => Ok(values),
        Ok(ScanView::Help) => Err(Seq::empty()),
        Err(message) => Err(message),
    }
}

/// Scans the arguments of a program that has no option for help.
pub fn scan_values(rules: &Vec<OptionRule>, style: &Style, arguments: &Vec<String>) -> (result: Result<
    Vec<Value>,
    String,
>)
    requires
        without_help(rules@),
    ensures
        match values_result(rules@, *style, text::texts(arguments@)) {
            Ok(values) => result is Ok && value_views(result->Ok_0@) == values && all_fit(
                rules@,
                values,
            ),
            Err(message) => result is Err && result->Err_0@ == message,
        },
{
    proof {
        lemma_without_help(
            rules@,
            *style,
            text::texts(arguments@),
            none_given(rules@.len()),
        );
    }
    match scan(rules, style, arguments) {
        Ok(Scan::Values(values)) => Ok(values),
        Ok(Scan::Help) => Err(String::new()),
        Err(message) => Err(message),
    }
}

/// The machine-sized number that an option recorded, or the default.
pub fn size_or(rules: &Vec<OptionRule>, values: &Vec<Value>, index: usize, default: usize) -> (number: usize)
    requires
        index < rules@.len(),
        all_fit(rules@, value_views(values@)),
        rules@[index as int].rule matches Rule::Number(rule) && rule.limit <= usize::MAX,
    ensures
        number == number_or(value_views(values@)[index as int], default as nat),
        rules@[index as int].rule->Number_0.least <= default ==>
            rules@[index as int].rule->Number_0.least <= number,
{
    proof {
        assert(fits(rules@[index as int].rule, value_views(values@)[index as int]));
    }
    match &values[index] {
        Value::Number(n) => *n as usize,
        _ => default,
    }
}

/// The 32-bit number that an option recorded, or the default.
pub fn word_or(rules: &Vec<OptionRule>, values: &Vec<Value>, index: usize, default: u32) -> (number: u32)
    requires
        index < rules@.len(),
        all_fit(rules@, value_views(values@)),
        rules@[index as int].rule matches Rule::Number(rule) && rule.limit <= u32::MAX,
    ensures
        number == number_or(value_views(values@)[index as int], default as nat),
        rules@[index as int].rule->Number_0.least <= default ==>
            rules@[index as int].rule->Number_0.least <= number,
{
    proof {
        assert(fits(rules@[index as int].rule, value_views(values@)[index as int]));
    }
    match &values[index] {
        Value::Number(n) => *n as u32,
        _ => default,
    }
}

/// Whether a switch is on.
pub fn is_on(values: &Vec<Value>, index: usize) -> (on: bool)
    requires
        index < values@.len(),
    ensures
        on == (value_views(values@)[index as int] is On),
{
    match &values[index] {
        Value::On => true,
        _ => false,
    }
}

/// The text that an option recorded.
pub fn text_of(values: &Vec<Value>, index: usize) -> (given: Option<String>)
    requires
        index < values@.len(),
    ensures
        text::optional_text(given) == text_given(value_views(values@)[index as int]),
{
    match &values[index] {
        Value::Text(entry) => Some(entry.clone()),
        _ => None,
    }
}

/// The text that an option recorded, or the default.
pub fn text_of_or(values: &Vec<Value>, index: usize, default: &str) -> (given: String)
    requires
        index < values@.len(),
    ensures
        given@ == text_or(value_views(values@)[index as int], default@),
{
    match &values[index] {
        Value::Text(entry) => entry.clone(),
        _ => default.to_owned(),
    }
}

/// The texts that an option recorded.
pub fn texts_of(values: &Vec<Value>, index: usize) -> (given: Vec<String>)
    requires
        index < values@.len(),
    ensures
        text::texts(given@) == texts_given(value_views(values@)[index as int]),
{
    let copy = copied(&values[index]);
    match copy {
        Value::Texts(entries) => entries,
        _ => {
            let none: Vec<String> = Vec::new();
            proof {
                assert(text::texts(none@) =~= Seq::empty());
            }
            none
        },
    }
}

/// The machine-sized number that an option recorded, if it recorded one.
pub fn size_of_option(rules: &Vec<OptionRule>, values: &Vec<Value>, index: usize) -> (given: Option<
    usize,
>)
    requires
        index < rules@.len(),
        all_fit(rules@, value_views(values@)),
        rules@[index as int].rule matches Rule::Number(rule) && rule.limit <= usize::MAX,
    ensures
        optional_size(given) == number_given(value_views(values@)[index as int]),
{
    proof {
        assert(fits(rules@[index as int].rule, value_views(values@)[index as int]));
    }
    match &values[index] {
        Value::Number(n) => Some(*n as usize),
        _ => None,
    }
}

/// The 32-bit number that an option recorded, if it recorded one.
pub fn word_of_option(rules: &Vec<OptionRule>, values: &Vec<Value>, index: usize) -> (given: Option<
    u32,
>)
    requires
        index < rules@.len(),
        all_fit(rules@, value_views(values@)),
        rules@[index as int].rule matches Rule::Number(rule) && rule.limit <= u32::MAX,
    ensures
        match given {
            Some(n) => number_given(value_views(values@)[index as int]) == Some(n as nat),
            None => number_given(value_views(values@)[index as int]) is None,
        },
{
    proof {
        assert(fits(rules@[index as int].rule, value_views(values@)[index as int]));
    }
    match &values[index] {
        Value::Number(n) => Some(*n as u32),
        _ => None,
    }
}

/// Whether one of the arguments is a request for help.
pub open spec fn asks_for_help(arguments: Seq<Seq<char>>) -> bool {
    exists|i: int|
        0 <= i < arguments.len() && (#[trigger] arguments[i] == "--help"@ || arguments[i] == "-h"@)
}

/// Whether one of the arguments is a request for help.
pub fn help_requested(arguments: &Vec<String>) -> (requested: bool)
    ensures
        requested == asks_for_help(text::texts(arguments@)),
{
    let ghost views = text::texts(arguments@);
    let mut index: usize = 0;
    while index < arguments.len()
        invariant
            index <= arguments@.len(),
            views == text::texts(arguments@),
            forall|i: int|
                0 <= i < index ==> #[trigger] views[i] != "--help"@ && views[i] != "-h"@,
        decreases arguments@.len() - index,
    {
        let argument = arguments[index].as_str();
        proof {
            assert(views[index as int] == argument@);
        }
        if text::same_text(argument, "--help") || text::same_text(argument, "-h") {
            return true;
        }
        index += 1;
    }
    false
}

/// The first option of a name is found where it stands, and what is found has the name.
pub proof fn lemma_found_name(rules: Seq<OptionRule>, name: Seq<char>, from: int)
    requires
        0 <= from <= rules.len(),
    ensures
        from <= found(rules, name, from) <= rules.len(),
        found(rules, name, from) < rules.len() ==> rules[found(rules, name, from)].name@ == name,
    decreases rules.len() - from,
{
    if from < rules.len() && rules[from].name@ != name {
        lemma_found_name(rules, name, from + 1);
    }
}

/// A number that is taken as it stands is refused only if it is too small.
pub proof fn lemma_number_under(rule: NumberRule, value: Seq<char>)
    requires
        rule.scale == 1,
    ensures
        number_under(rule, value) == (match text::unsigned(value, rule.limit as nat) {
            None => Err::<nat, Seq<char>>(rule.invalid@),
            Some(number) => if number < rule.least {
                Err(rule.low@)
            } else {
                Ok(number)
            },
        }),
{
    if let Some(number) = text::unsigned(value, rule.limit as nat) {
        assert(number * rule.scale == number) by (nonlinear_arith)
            requires
                rule.scale == 1,
        ;
    }
}

/// An option is found where it stands, if none before it has its name.
pub proof fn lemma_found_at(rules: Seq<OptionRule>, name: Seq<char>, from: int, at: int)
    requires
        0 <= from <= at < rules.len(),
        rules[at].name@ == name,
        forall|i: int| from <= i < at ==> (#[trigger] rules[i]).name@ != name,
    ensures
        found(rules, name, from) == at,
    decreases at - from,
{
    if from < at {
        assert(rules[from].name@ != name);
        lemma_found_at(rules, name, from + 1, at);
    }
}

/// Arguments that were scanned to their end can be followed by others, which
/// are then scanned with what was recorded.
pub proof fn law_scan_goes_on(
    rules: Seq<OptionRule>,
    style: Style,
    first: Seq<Seq<char>>,
    rest: Seq<Seq<char>>,
    values: Seq<ValueView>,
)
    requires
        scanned(rules, style, first, values) matches Ok(ScanView::Values(_)),
    ensures
        scanned(rules, style, first + rest, values) == scanned(
            rules,
            style,
            rest,
            scanned(rules, style, first, values)->Ok_0->Values_0,
        ),
    decreases first.len(),
{
    let all = first + rest;
    if first.len() == 0 {
        assert(all =~= rest);
    } else {
        let at = found(rules, first[0], 0);
        lemma_found_name(rules, first[0], 0);
        assert(all[0] == first[0]);
        if at < rules.len() && stands_alone(style, rules[at].rule) {
            assert(all.skip(1) =~= first.skip(1) + rest);
            law_scan_goes_on(
                rules,
                style,
                first.skip(1),
                rest,
                values.update(at, ValueView::On),
            );
        } else {
            assert(first.len() >= 2);
            assert(all[1] == first[1]);
            assert(all.skip(2) =~= first.skip(2) + rest);
            let value = accepted(rules[at].rule, first[1], values[at])->Ok_0;
            law_scan_goes_on(rules, style, first.skip(2), rest, values.update(at, value));
        }
    }
}

/// As many records as options come back.
proof fn lemma_record_count(
    rules: Seq<OptionRule>,
    style: Style,
    arguments: Seq<Seq<char>>,
    values: Seq<ValueView>,
)
    requires
        scanned(rules, style, arguments, values) matches Ok(ScanView::Values(_)),
        values.len() == rules.len(),
    ensures
        scanned(rules, style, arguments, values)->Ok_0->Values_0.len() == rules.len(),
    decreases arguments.len(),
{
    if arguments.len() > 0 {
        let at = found(rules, arguments[0], 0);
        lemma_found_name(rules, arguments[0], 0);
        if at < rules.len() && stands_alone(style, rules[at].rule) {
            lemma_record_count(
                rules,
                style,
                arguments.skip(1),
                values.update(at, ValueView::On),
            );
        } else {
            let value = accepted(rules[at].rule, arguments[1], values[at])->Ok_0;
            lemma_record_count(rules, style, arguments.skip(2), values.update(at, value));
        }
    }
}

/// An option with a value behind other arguments is recorded, in its own
/// place and nowhere else, or refused.
pub proof fn law_option_is_recorded(
    rules: Seq<OptionRule>,
    style: Style,
    arguments: Seq<Seq<char>>,
    at: int,
    name: Seq<char>,
    value: Seq<char>,
)
    requires
        scan_result(rules, style, arguments) matches Ok(ScanView::Values(_)),
        found(rules, name, 0) == at,
        0 <= at < rules.len(),
        !(rules[at].rule is Switch),
        !(rules[at].rule is Help),
        !(rules[at].rule is Refuse),
    ensures
        ({
            let before = scan_result(rules, style, arguments)->Ok_0->Values_0;
            &&& before.len() == rules.len()
            &&& scan_result(rules, style, arguments + seq![name, value]) == (match accepted(
                rules[at].rule,
                value,
                before[at],
            ) {
                Ok(record) => Ok::<ScanView, Seq<char>>(
                    ScanView::Values(before.update(at, record)),
                ),
                Err(message) => Err(message),
            })
        }),
{
    let initial = none_given(rules.len());
    let rest = seq![name, value];
    lemma_record_count(rules, style, arguments, initial);
    law_scan_goes_on(rules, style, arguments, rest, initial);
    assert(rest.skip(2) =~= Seq::empty());
    reveal_with_fuel(scanned, 2);
}

/// A switch behind other arguments is recorded, in its own place and nowhere else.
pub proof fn law_switch_is_recorded(
    rules: Seq<OptionRule>,
    style: Style,
    arguments: Seq<Seq<char>>,
    at: int,
    name: Seq<char>,
)
    requires
        scan_result(rules, style, arguments) matches Ok(ScanView::Values(_)),
        found(rules, name, 0) == at,
        0 <= at < rules.len(),
        rules[at].rule is Switch,
    ensures
        ({
            let before = scan_result(rules, style, arguments)->Ok_0->Values_0;
            &&& before.len() == rules.len()
            &&& scan_result(rules, style, arguments + seq![name]) == Ok::<ScanView, Seq<char>>(
                ScanView::Values(before.update(at, ValueView::On)),
            )
        }),
{
    let initial = none_given(rules.len());
    let rest = seq![name];
    lemma_record_count(rules, style, arguments, initial);
    law_scan_goes_on(rules, style, arguments, rest, initial);
    assert(rest.skip(1) =~= Seq::empty());
    reveal_with_fuel(scanned, 2);
}

/// A name that no option has is refused, behind whatever arguments, and so is
/// an option whose value is missing.
pub proof fn law_unknown_option_is_refused(
    rules: Seq<OptionRule>,
    style: Style,
    arguments: Seq<Seq<char>>,
    name: Seq<char>,
    value: Seq<char>,
)
    requires
        scan_result(rules, style, arguments) matches Ok(ScanView::Values(_)),
    ensures
        (forall|i: int| 0 <= i < rules.len() ==> (#[trigger] rules[i]).name@ != name)
            ==> scan_result(rules, style, arguments + seq![name, value]) == Err::<
            ScanView,
            Seq<char>,
        >(style.unknown@ + name),
        (forall|i: int|
            0 <= i < rules.len() ==> ((#[trigger] rules[i]).name@ != name || rules[i].rule is Text
                || rules[i].rule is Number)) ==> scan_result(rules, style, arguments + seq![name])
            is Err,
{
    let initial = none_given(rules.len());
    law_scan_goes_on(rules, style, arguments, seq![name, value], initial);
    law_scan_goes_on(rules, style, arguments, seq![name], initial);
    lemma_found_name(rules, name, 0);
}

/// An option that stands alone ends the scan: with a request for help, or with
/// its message.
pub proof fn law_lone_option_ends_scan(
    rules: Seq<OptionRule>,
    style: Style,
    arguments: Seq<Seq<char>>,
    at: int,
    name: Seq<char>,
    rest: Seq<Seq<char>>,
)
    requires
        scan_result(rules, style, arguments) matches Ok(ScanView::Values(_)),
        found(rules, name, 0) == at,
        0 <= at < rules.len(),
        !style.value_first,
    ensures
        rules[at].rule is Help ==> scan_result(rules, style, arguments + (seq![name] + rest))
            == Ok::<ScanView, Seq<char>>(ScanView::Help),
        rules[at].rule matches Rule::Refuse(message) ==> scan_result(
            rules,
            style,
            arguments + (seq![name] + rest),
        ) == Err::<ScanView, Seq<char>>(message@),
{
    let initial = none_given(rules.len());
    law_scan_goes_on(rules, style, arguments, seq![name] + rest, initial);
    assert((seq![name] + rest)[0] == name);
}

proof fn lemma_unnamed_option(
    rules: Seq<OptionRule>,
    style: Style,
    arguments: Seq<Seq<char>>,
    values: Seq<ValueView>,
    at: int,
)
    requires
        scanned(rules, style, arguments, values) matches Ok(ScanView::Values(_)),
        !arguments.contains(rules[at].name@),
        0 <= at < rules.len(),
        values.len() == rules.len(),
    ensures
        scanned(rules, style, arguments, values)->Ok_0->Values_0[at] == values[at],
    decreases arguments.len(),
{
    if arguments.len() > 0 {
        let name = arguments[0];
        let first = found(rules, name, 0);
        lemma_found_name(rules, name, 0);
        assert(arguments[0] != rules[at].name@);
        if first < rules.len() && stands_alone(style, rules[first].rule) {
            let rest = arguments.skip(1);
            assert forall|i: int| 0 <= i < rest.len() implies (#[trigger] rest[i])
                != rules[at].name@ by {
                assert(arguments[i + 1] != rules[at].name@);
            }
            lemma_unnamed_option(rules, style, rest, values.update(first, ValueView::On), at);
        } else {
            let value = accepted(rules[first].rule, arguments[1], values[first])->Ok_0;
            let rest = arguments.skip(2);
            assert forall|i: int| 0 <= i < rest.len() implies (#[trigger] rest[i])
                != rules[at].name@ by {
                assert(arguments[i + 2] != rules[at].name@);
            }
            lemma_unnamed_option(rules, style, rest, values.update(first, value), at);
        }
    }
}

/// Nothing is recorded for an option that no argument names.
pub proof fn law_unnamed_option_is_absent(
    rules: Seq<OptionRule>,
    style: Style,
    arguments: Seq<Seq<char>>,
    at: int,
)
    requires
        scan_result(rules, style, arguments) matches Ok(ScanView::Values(_)),
        0 <= at < rules.len(),
    ensures
        !arguments.contains(rules[at].name@) ==> scan_result(
            rules,
            style,
            arguments,
        )->Ok_0->Values_0[at] == ValueView::Absent,
{
    if !arguments.contains(rules[at].name@) {
        lemma_unnamed_option(rules, style, arguments, none_given(rules.len()), at);
    }
}

/// Arguments behind others ask for help only if the one or the others do.
pub proof fn lemma_no_help(arguments: Seq<Seq<char>>, rest: Seq<Seq<char>>)
    requires
        !asks_for_help(arguments),
        !asks_for_help(rest),
    ensures
        !asks_for_help(arguments + rest),
{
    let all = arguments + rest;
    if asks_for_help(all) {
        let i = choose|i: int|
            0 <= i < all.len() && (#[trigger] all[i] == "--help"@ || all[i] == "-h"@);
        if i < arguments.len() {
            assert(arguments[i] == all[i]);
        } else {
            assert(rest[i - arguments.len()] == all[i]);
        }
    }
}

} // verus!
