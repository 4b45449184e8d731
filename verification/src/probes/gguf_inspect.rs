//! Listing the tensors and the metadata of a GGUF file.
use vstd::prelude::*;

use crate::quant;
use crate::text;

verus! {

pub const USAGE: &'static str = "Usage: si-gguf-inspect --model PATH";

/// How many Q4_K tensors are listed.
pub const Q4_K_LISTED: usize = 12;

/// How many other tensors are listed.
pub const OTHERS_LISTED: usize = 24;

/// The longest text that is shown whole, in bytes, and the number of
/// characters that are shown of a longer one.
pub const SHOWN_CHARACTERS: usize = 160;

/// What the arguments name: every other one must be `--model`, and the last
/// value wins. A last `--model` without a value takes the model back.
pub open spec fn model_of(arguments: Seq<Seq<char>>) -> Option<Seq<char>>
    decreases arguments.len(),
{
    if arguments.len() == 0 {
        None
    } else if arguments[0] != "--model"@ {
        None
    } else if arguments.len() == 1 {
        None
    } else if arguments.len() == 2 {
        Some(arguments[1])
    } else {
        model_of(arguments.skip(2))
    }
}

/// The model that the arguments name.
pub fn parse_model(arguments: Vec<String>) -> (model: Option<String>)
    ensures
        text::optional_text(model) == model_of(text::texts(arguments@)),
{
    let ghost all = text::texts(arguments@);
    let length: usize = arguments.len();
    if length == 0 {
        return None;
    }
    let mut index: usize = 0;
    proof {
        assert(all.skip(0) =~= all);
    }
    while index < length
        invariant
            length == arguments@.len(),
            all == text::texts(arguments@),
            index < length,
            model_of(all.skip(index as int)) == model_of(all),
        decreases length - index,
    {
        proof {
            assert(all.skip(index as int)[0] == arguments@[index as int]@);
            assert(all.skip(index as int).len() == length - index);
        }
        if !text::same_text(arguments[index].as_str(), "--model") {
            return None;
        }
        if length - index == 1 {
            return None;
        }
        if length - index == 2 {
            proof {
                assert(all.skip(index as int)[1] == arguments@[index + 1]@);
            }
            return Some(arguments[index + 1].clone());
        }
        proof {
            assert(all.skip(index as int).skip(2) =~= all.skip(index + 2));
        }
        index += 2;
    }
    None
}

/// A metadata value. What is neither an array nor a text stands as it is shown.
#[derive(Debug)]
pub enum GgufValue {
    Array(Vec<GgufValue>),
    String(String),
    Other(String),
}

/// The form in which `std` shows a text to a programmer: in quotes, with escapes.
pub uninterp spec fn debug_form(text: Seq<char>) -> Seq<char>;

/// `std::fmt::Debug` of `str`. The result is named as a function of the text;
/// which characters it escapes is left unsaid.
#[verifier::external_body]
fn debug_text(text: &str) -> (shown: String)
    ensures
        shown@ == debug_form(text@),
{
    format!("{text:?}")
}

/// The number of bytes of a text.
pub open spec fn byte_length(text: Seq<char>) -> nat {
    vstd::utf8::encode_utf8(text).len()
}

/// The part of a text that is shown.
pub open spec fn shown_part(value: Seq<char>) -> Seq<char> {
    if byte_length(value) > SHOWN_CHARACTERS {
        if value.len() < SHOWN_CHARACTERS {
            value
        } else {
            value.take(SHOWN_CHARACTERS as int)
        }
    } else {
        value
    }
}

/// What a text comes to, given the form in which its part is shown.
pub open spec fn text_summary(value: Seq<char>, shown: Seq<char>) -> Seq<char> {
    if byte_length(value) > SHOWN_CHARACTERS {
        "string(len="@ + text::decimal(byte_length(value)) + ", prefix="@ + shown + ")"@
    } else {
        "string("@ + shown + ")"@
    }
}

/// What a value comes to: an array by its length and its first three values.
pub open spec fn summary(value: GgufValue) -> Seq<char>
    decreases value,
{
    match value {
        GgufValue::Array(values) => "array(len="@ + text::decimal(values@.len()) + ", first=["@ + (
        if values@.len() == 0 {
            ""@
        } else if values@.len() == 1 {
            summary(values@[0])
        } else if values@.len() == 2 {
            summary(values@[0]) + ", "@ + summary(values@[1])
        } else {
            summary(values@[0]) + ", "@ + summary(values@[1]) + ", "@ + summary(values@[2])
        }) + "])"@,
        GgufValue::String(value) => text_summary(value@, debug_form(shown_part(value@))),
        GgufValue::Other(shown) => shown@,
    }
}

/// The part of a text that is shown.
pub fn part_shown(value: &str) -> (part: String)
    ensures
        part@ == shown_part(value@),
{
    if value.as_bytes().len() <= SHOWN_CHARACTERS {
        return value.to_owned();
    }
    let chars = text::characters(value);
    let mut part = String::new();
    let mut index: usize = 0;
    while index < chars.len() && index < SHOWN_CHARACTERS
        invariant
            index <= chars@.len(),
            index <= SHOWN_CHARACTERS,
            part@ =~= chars@.take(index as int),
        decreases chars@.len() - index,
    {
        part.push(chars[index]);
        index += 1;
    }
    proof {
        if chars@.len() < SHOWN_CHARACTERS {
            assert(chars@.take(index as int) =~= chars@);
        }
    }
    part
}

/// What a text comes to, given the form in which its part is shown.
pub fn summarize_text(value: &str, shown: &str) -> (summary: String)
    ensures
        summary@ == text_summary(value@, shown@),
{
    let bytes: usize = value.as_bytes().len();
    if bytes > SHOWN_CHARACTERS {
        text::concat5(
            "string(len=",
            text::decimal_text(bytes as u64).as_str(),
            ", prefix=",
            shown,
            ")",
        )
    } else {
        text::concat3("string(", shown, ")")
    }
}

/// What a value comes to.
pub fn summarize(value: &GgufValue) -> (shown: String)
    ensures
        shown@ == summary(*value),
    decreases value,
{
    match value {
        GgufValue::Array(values) => {
            let mut preview = "".to_owned();
            if values.len() >= 1 {
                preview = summarize(&values[0]);
            }
            if values.len() >= 2 {
                let second = summarize(&values[1]);
                preview = text::concat3(preview.as_str(), ", ", second.as_str());
            }
            if values.len() >= 3 {
                let third = summarize(&values[2]);
                preview = text::concat3(preview.as_str(), ", ", third.as_str());
            }
            text::concat5(
                "array(len=",
                text::decimal_text(values.len() as u64).as_str(),
                ", first=[",
                preview.as_str(),
                "])",
            )
        },
        GgufValue::String(value) => {
            let part = part_shown(value.as_str());
            let shown = debug_text(part.as_str());
            summarize_text(value.as_str(), shown.as_str())
        },
        GgufValue::Other(shown) => shown.clone(),
    }
}

/// A tensor as it is listed.
#[derive(Debug, Clone, PartialEq, Eq)]
pub struct ListedTensor {
    pub name: String,
    pub ggml_type: u32,
    pub shape: Vec<usize>,
    pub bytes: u64,
    /// The number of values, where it does not overflow.
    pub elements: Option<u64>,
}

pub open spec fn is_q4_k(tensor: ListedTensor) -> bool {
    tensor.ggml_type == quant::GGML_TYPE_Q4_K
}

/// The first tensors that are of the Q4_K format, or that are not.
pub open spec fn first_tensors(tensors: Seq<ListedTensor>, q4_k: bool, limit: int) -> Seq<
    ListedTensor,
>
    decreases tensors.len(),
{
    if tensors.len() == 0 {
        Seq::empty()
    } else {
        let before = first_tensors(tensors.drop_last(), q4_k, limit);
        if is_q4_k(tensors.last()) == q4_k && before.len() < limit {
            before.push(tensors.last())
        } else {
            before
        }
    }
}

pub open spec fn q4_k_line(tensor: ListedTensor) -> Seq<char> {
    "q4_k_tensor="@ + tensor.name@ + " shape="@ + text::shape_form(tensor.shape@) + " bytes="@
        + text::decimal(tensor.bytes as nat) + " elements="@ + text::decimal(
        match tensor.elements {
            Some(elements) => elements as nat,
            None => 0,
        },
    )
}

pub open spec fn other_line(tensor: ListedTensor) -> Seq<char> {
    "non_q4_tensor="@ + tensor.name@ + " type="@ + text::decimal(tensor.ggml_type as nat)
        + " shape="@ + text::shape_form(tensor.shape@) + " bytes="@ + text::decimal(
        tensor.bytes as nat,
    )
}

pub open spec fn special_line(tensor: ListedTensor) -> Seq<char> {
    "special_tensor="@ + tensor.name@ + " type="@ + text::decimal(tensor.ggml_type as nat)
        + " shape="@ + text::shape_form(tensor.shape@) + " bytes="@ + text::decimal(
        tensor.bytes as nat,
    )
}

fn write_q4_k_line(tensor: &ListedTensor) -> (line: String)
    ensures
        line@ == q4_k_line(*tensor),
{
    let shape = text::shape_text(&tensor.shape);
    let elements: u64 = match tensor.elements {
        Some(elements) => elements,
        None => 0,
    };
    let mut line = text::concat4("q4_k_tensor=", tensor.name.as_str(), " shape=", shape.as_str());
    line.append(" bytes=");
    line.append(text::decimal_text(tensor.bytes).as_str());
    line.append(" elements=");
    line.append(text::decimal_text(elements).as_str());
    line
}

fn write_typed_line(label: &str, tensor: &ListedTensor) -> (line: String)
    ensures
        line@ == label@ + tensor.name@ + " type="@ + text::decimal(tensor.ggml_type as nat)
            + " shape="@ + text::shape_form(tensor.shape@) + " bytes="@ + text::decimal(
            tensor.bytes as nat,
        ),
{
    let shape = text::shape_text(&tensor.shape);
    let kind = text::decimal_text(tensor.ggml_type as u64);
    let mut line = text::concat4(label, tensor.name.as_str(), " type=", kind.as_str());
    line.append(" shape=");
    line.append(shape.as_str());
    line.append(" bytes=");
    line.append(text::decimal_text(tensor.bytes).as_str());
    line
}

/// One more tensor of a type in counts that are ordered by type.
pub open spec fn counted(counts: Seq<(u32, usize)>, ggml_type: u32) -> Seq<(u32, usize)>
    decreases counts.len(),
{
    if counts.len() == 0 {
        seq![(ggml_type, 1usize)]
    } else {
        let (last_type, count) = counts.last();
        if last_type == ggml_type {
            counts.drop_last().push((ggml_type, (count + 1) as usize))
        } else if last_type < ggml_type {
            counts.push((ggml_type, 1usize))
        } else {
            counted(counts.drop_last(), ggml_type).push(counts.last())
        }
    }
}

/// How many tensors there are of each type, ordered by type.
pub open spec fn counts_of(types: Seq<u32>) -> Seq<(u32, usize)>
    decreases types.len(),
{
    if types.len() == 0 {
        Seq::empty()
    } else {
        counted(counts_of(types.drop_last()), types.last())
    }
}

/// Whether types rise from entry to entry.
pub open spec fn types_rise(counts: Seq<(u32, usize)>) -> bool {
    forall|i: int, j: int|
        0 <= i < j < counts.len() ==> (#[trigger] counts[i]).0 < (#[trigger] counts[j]).0
}

/// The count of a type, which is zero without an entry.
pub open spec fn count_in(counts: Seq<(u32, usize)>, ggml_type: u32) -> nat
    decreases counts.len(),
{
    if counts.len() == 0 {
        0
    } else if counts.last().0 == ggml_type {
        counts.last().1 as nat
    } else {
        count_in(counts.drop_last(), ggml_type)
    }
}

/// How often a type occurs.
pub open spec fn occurrences(types: Seq<u32>, ggml_type: u32) -> nat
    decreases types.len(),
{
    if types.len() == 0 {
        0
    } else {
        occurrences(types.drop_last(), ggml_type) + (if types.last() == ggml_type {
            1nat
        } else {
            0nat
        })
    }
}

proof fn lemma_occurrences_bound(types: Seq<u32>, ggml_type: u32)
    ensures
        occurrences(types, ggml_type) <= types.len(),
    decreases types.len(),
{
    if types.len() > 0 {
        lemma_occurrences_bound(types.drop_last(), ggml_type);
    }
}

proof fn lemma_counted(counts: Seq<(u32, usize)>, ggml_type: u32, other: u32)
    requires
        types_rise(counts),
        count_in(counts, ggml_type) < usize::MAX,
    ensures
        types_rise(counted(counts, ggml_type)),
        count_in(counted(counts, ggml_type), other) == count_in(counts, other) + (if other
            == ggml_type {
            1nat
        } else {
            0nat
        }),
        counted(counts, ggml_type).len() > 0,
        counts.len() > 0 ==> counted(counts, ggml_type).last().0 == if counts.last().0
            < ggml_type {
            ggml_type
        } else {
            counts.last().0
        },
        counts.len() == 0 ==> counted(counts, ggml_type).last().0 == ggml_type,
    decreases counts.len(),
{
    let result = counted(counts, ggml_type);
    if counts.len() == 0 {
        assert(result.drop_last() =~= counts);
    } else {
        let (last_type, count) = counts.last();
        let shorter = counts.drop_last();
        assert(types_rise(shorter));
        if last_type == ggml_type {
            assert(result.drop_last() =~= shorter);
            assert forall|i: int, j: int| 0 <= i < j < result.len() implies (#[trigger] result[i]).0
                < (#[trigger] result[j]).0 by {
                assert(counts[i].0 < counts[j].0);
            }
            if other == ggml_type {
            } else {
                assert(count_in(result, other) == count_in(shorter, other));
            }
        } else if last_type < ggml_type {
            assert(result.drop_last() =~= counts);
            assert forall|i: int, j: int| 0 <= i < j < result.len() implies (#[trigger] result[i]).0
                < (#[trigger] result[j]).0 by {
                if j < counts.len() {
                    assert(counts[i].0 < counts[j].0);
                } else {
                    assert(counts[i].0 <= counts.last().0) by {
                        if i < counts.len() - 1 {
                            assert(counts[i].0 < counts[counts.len() - 1].0);
                        }
                    }
                }
            }
            lemma_absent(counts, ggml_type);
        } else {
            lemma_counted(shorter, ggml_type, other);
            assert(result.drop_last() =~= counted(shorter, ggml_type));
            let before = counted(shorter, ggml_type);
            assert forall|i: int, j: int| 0 <= i < j < result.len() implies (#[trigger] result[i]).0
                < (#[trigger] result[j]).0 by {
                if j < before.len() {
                    assert(before[i].0 < before[j].0);
                } else {
                    assert(before[i].0 <= before.last().0) by {
                        if i < before.len() - 1 {
                            assert(before[i].0 < before[before.len() - 1].0);
                        }
                    }
                    if shorter.len() > 0 {
                        assert(counts[counts.len() - 2].0 < counts[counts.len() - 1].0);
                    }
                }
            }
        }
    }
}

/// A type above all types of the counts has no entry.
proof fn lemma_absent(counts: Seq<(u32, usize)>, ggml_type: u32)
    requires
        types_rise(counts),
        counts.len() > 0 ==> counts.last().0 < ggml_type,
    ensures
        count_in(counts, ggml_type) == 0,
    decreases counts.len(),
{
    if counts.len() > 0 {
        let shorter = counts.drop_last();
        assert(types_rise(shorter));
        if shorter.len() > 0 {
            assert(counts[counts.len() - 2].0 < counts[counts.len() - 1].0);
        }
        lemma_absent(shorter, ggml_type);
    }
}

/// The counts are ordered by type without repetition, and each is the number
/// of tensors of its type; a type without an entry does not occur.
pub proof fn law_types_are_counted(types: Seq<u32>, ggml_type: u32)
    requires
        types.len() <= usize::MAX,
    ensures
        types_rise(counts_of(types)),
        count_in(counts_of(types), ggml_type) == occurrences(types, ggml_type),
    decreases types.len(),
{
    if types.len() > 0 {
        let shorter = types.drop_last();
        law_types_are_counted(shorter, ggml_type);
        law_types_are_counted(shorter, types.last());
        lemma_occurrences_bound(shorter, types.last());
        lemma_counted(counts_of(shorter), types.last(), ggml_type);
    }
}

pub open spec fn types_of(tensors: Seq<ListedTensor>) -> Seq<u32> {
    tensors.map_values(|tensor: ListedTensor| tensor.ggml_type)
}

/// Where an entry for a type stands or belongs: behind the entries of smaller types.
proof fn lemma_counted_at(counts: Seq<(u32, usize)>, ggml_type: u32, place: int)
    requires
        0 <= place <= counts.len(),
        forall|i: int| place <= i < counts.len() ==> (#[trigger] counts[i]).0 > ggml_type,
        place > 0 ==> counts[place - 1].0 <= ggml_type,
    ensures
        counted(counts, ggml_type) == if place > 0 && counts[place - 1].0 == ggml_type {
            counts.update(place - 1, (ggml_type, (counts[place - 1].1 + 1) as usize))
        } else {
            counts.insert(place, (ggml_type, 1usize))
        },
    decreases counts.len(),
{
    let result = counted(counts, ggml_type);
    if counts.len() == 0 {
        assert(result =~= counts.insert(place, (ggml_type, 1usize)));
    } else if place == counts.len() {
        if counts.last().0 == ggml_type {
            assert(result =~= counts.update(
                place - 1,
                (ggml_type, (counts[place - 1].1 + 1) as usize),
            ));
        } else {
            assert(result =~= counts.insert(place, (ggml_type, 1usize)));
        }
    } else {
        let shorter = counts.drop_last();
        lemma_counted_at(shorter, ggml_type, place);
        if place > 0 && counts[place - 1].0 == ggml_type {
            assert(result =~= counts.update(
                place - 1,
                (ggml_type, (counts[place - 1].1 + 1) as usize),
            ));
        } else {
            assert(result =~= counts.insert(place, (ggml_type, 1usize)));
        }
    }
}

/// Counts one more tensor of a type.
fn count_type(counts: &mut Vec<(u32, usize)>, ggml_type: u32)
    requires
        forall|i: int| 0 <= i < old(counts)@.len() ==> (#[trigger] old(counts)@[i]).1 < usize::MAX,
    ensures
        final(counts)@ == counted(old(counts)@, ggml_type),
{
    let mut place: usize = counts.len();
    while place > 0 && counts[place - 1].0 > ggml_type
        invariant
            place <= counts@.len(),
            counts@ == old(counts)@,
            forall|i: int| place <= i < counts@.len() ==> (#[trigger] counts@[i]).0 > ggml_type,
        decreases place,
    {
        place -= 1;
    }
    proof {
        lemma_counted_at(counts@, ggml_type, place as int);
    }
    if place > 0 && counts[place - 1].0 == ggml_type {
        let count: usize = counts[place - 1].1;
        counts.set(place - 1, (ggml_type, count + 1));
    } else {
        counts.insert(place, (ggml_type, 1));
    }
}

/// How many tensors there are of each type.
pub fn type_counts(tensors: &Vec<ListedTensor>) -> (counts: Vec<(u32, usize)>)
    ensures
        counts@ == counts_of(types_of(tensors@)),
{
    let ghost types = types_of(tensors@);
    let length: usize = tensors.len();
    let mut counts: Vec<(u32, usize)> = Vec::new();
    let mut index: usize = 0;
    proof {
        assert(types.take(0) =~= Seq::empty());
    }
    while index < length
        invariant
            index <= length,
            length == tensors@.len(),
            types == types_of(tensors@),
            counts@ == counts_of(types.take(index as int)),
            forall|i: int| 0 <= i < counts@.len() ==> (#[trigger] counts@[i]).1 <= index,
        decreases length - index,
    {
        let ghost before = counts@;
        proof {
            assert(types.take(index + 1).drop_last() =~= types.take(index as int));
        }
        count_type(&mut counts, tensors[index].ggml_type);
        proof {
            lemma_counts_bound(before, tensors@[index as int].ggml_type, index as int);
        }
        index += 1;
    }
    proof {
        assert(types.take(index as int) =~= types);
    }
    counts
}

proof fn lemma_counts_bound(counts: Seq<(u32, usize)>, ggml_type: u32, bound: int)
    requires
        0 <= bound < usize::MAX,
        forall|i: int| 0 <= i < counts.len() ==> (#[trigger] counts[i]).1 <= bound,
    ensures
        forall|i: int|
            0 <= i < counted(counts, ggml_type).len() ==> (#[trigger] counted(
                counts,
                ggml_type,
            )[i]).1 <= bound + 1,
    decreases counts.len(),
{
    if counts.len() > 0 {
        let shorter = counts.drop_last();
        let result = counted(counts, ggml_type);
        lemma_counts_bound(shorter, ggml_type, bound);
        assert(counts[counts.len() - 1].1 <= bound);
        assert forall|i: int| 0 <= i < result.len() implies (#[trigger] result[i]).1 <= bound
            + 1 by {
            if counts.last().0 > ggml_type {
                if i < result.len() - 1 {
                    assert(result[i] == counted(shorter, ggml_type)[i]);
                }
            } else if i < counts.len() - 1 {
                assert(result[i] == counts[i]);
            } else if counts.last().0 < ggml_type && i < counts.len() {
                assert(result[i] == counts[i]);
            }
        }
    }
}

/// Counts by type, without the braces around them.
pub open spec fn counts_list(counts: Seq<(u32, usize)>) -> Seq<char>
    decreases counts.len(),
{
    if counts.len() == 0 {
        Seq::empty()
    } else {
        let entry = text::decimal(counts.last().0 as nat) + ": "@ + text::decimal(
            counts.last().1 as nat,
        );
        if counts.len() == 1 {
            entry
        } else {
            counts_list(counts.drop_last()) + ", "@ + entry
        }
    }
}

fn write_counts(counts: &Vec<(u32, usize)>) -> (list: String)
    ensures
        list@ == counts_list(counts@),
{
    let mut list = String::new();
    let mut index: usize = 0;
    while index < counts.len()
        invariant
            index <= counts@.len(),
            list@ == counts_list(counts@.take(index as int)),
        decreases counts@.len() - index,
    {
        let (ggml_type, count) = counts[index];
        let entry = text::concat3(
            text::decimal_text(ggml_type as u64).as_str(),
            ": ",
            text::decimal_text(count as u64).as_str(),
        );
        proof {
            assert(counts@.take(index + 1).drop_last() =~= counts@.take(index as int));
        }
        if index == 0 {
            list = entry;
        } else {
            list = text::concat3(list.as_str(), ", ", entry.as_str());
        }
        index += 1;
    }
    proof {
        assert(counts@.take(index as int) =~= counts@);
    }
    list
}

/// The first tensor of a name.
pub open spec fn named(tensors: Seq<ListedTensor>, name: Seq<char>) -> Option<ListedTensor>
    decreases tensors.len(),
{
    if tensors.len() == 0 {
        None
    } else if tensors[0].name@ == name {
        Some(tensors[0])
    } else {
        named(tensors.skip(1), name)
    }
}

/// The line of a tensor that is listed whatever its type.
pub open spec fn special_lines(tensors: Seq<ListedTensor>, name: Seq<char>) -> Seq<Seq<char>> {
    match named(tensors, name) {
        Some(tensor) => seq![special_line(tensor)],
        None => Seq::empty(),
    }
}

pub open spec fn metadata_line(entry: (String, GgufValue)) -> Seq<char> {
    "metadata."@ + entry.0@ + "="@ + summary(entry.1)
}

/// What is printed of a file: its name, the number of its tensors, the first
/// Q4_K tensors, the counts by type, three tensors by name, the first other
/// tensors and all metadata.
pub open spec fn listing(
    model: Seq<char>,
    tensors: Seq<ListedTensor>,
    metadata: Seq<(String, GgufValue)>,
) -> Seq<Seq<char>> {
    seq!["model="@ + model, "tensors="@ + text::decimal(tensors.len())] + first_tensors(
        tensors,
        true,
        Q4_K_LISTED as int,
    ).map_values(|tensor: ListedTensor| q4_k_line(tensor)) + seq![
        "tensor_type_counts={"@ + counts_list(counts_of(types_of(tensors))) + "}"@,
    ] + special_lines(tensors, "token_embd.weight"@) + special_lines(tensors, "output.weight"@)
        + special_lines(tensors, "output_norm.weight"@) + first_tensors(
        tensors,
        false,
        OTHERS_LISTED as int,
    ).map_values(|tensor: ListedTensor| other_line(tensor)) + metadata.map_values(
        |entry: (String, GgufValue)| metadata_line(entry),
    )
}

fn push_line(lines: &mut Vec<String>, line: String)
    ensures
        text::texts(final(lines)@) == text::texts(old(lines)@).push(line@),
{
    let ghost before = lines@;
    lines.push(line);
    proof {
        assert(text::texts(lines@) =~= text::texts(before).push(line@));
    }
}

fn push_tensors(lines: &mut Vec<String>, tensors: &Vec<ListedTensor>, q4_k: bool, limit: usize)
    ensures
        text::texts(final(lines)@) == text::texts(old(lines)@) + first_tensors(
            tensors@,
            q4_k,
            limit as int,
        ).map_values(
            |tensor: ListedTensor|
                if q4_k {
                    q4_k_line(tensor)
                } else {
                    other_line(tensor)
                },
        ),
{
    let ghost before = text::texts(lines@);
    let ghost shown = |tensor: ListedTensor|
        if q4_k {
            q4_k_line(tensor)
        } else {
            other_line(tensor)
        };
    let mut listed: usize = 0;
    let mut index: usize = 0;
    proof {
        assert(tensors@.take(0) =~= Seq::empty());
        assert(before + Seq::<Seq<char>>::empty() =~= before);
        assert(Seq::<ListedTensor>::empty().map_values(shown) =~= Seq::empty());
    }
    while index < tensors.len()
        invariant
            index <= tensors@.len(),
            listed <= limit,
            listed == first_tensors(tensors@.take(index as int), q4_k, limit as int).len(),
            text::texts(lines@) == before + first_tensors(
                tensors@.take(index as int),
                q4_k,
                limit as int,
            ).map_values(shown),
            shown == (|tensor: ListedTensor|
                if q4_k {
                    q4_k_line(tensor)
                } else {
                    other_line(tensor)
                }),
        decreases tensors@.len() - index,
    {
        let ghost earlier = first_tensors(tensors@.take(index as int), q4_k, limit as int);
        proof {
            assert(tensors@.take(index + 1).drop_last() =~= tensors@.take(index as int));
        }
        let tensor = &tensors[index];
        if (tensor.ggml_type == quant::GGML_TYPE_Q4_K) == q4_k && listed < limit {
            if q4_k {
                push_line(lines, write_q4_k_line(tensor));
            } else {
                push_line(lines, write_typed_line("non_q4_tensor=", tensor));
            }
            proof {
                assert(earlier.push(*tensor).map_values(shown) =~= earlier.map_values(shown).push(
                    shown(*tensor),
                ));
                assert(before + earlier.push(*tensor).map_values(shown) =~= (before
                    + earlier.map_values(shown)).push(shown(*tensor)));
            }
            listed += 1;
        }
        index += 1;
    }
    proof {
        assert(tensors@.take(index as int) =~= tensors@);
    }
}

fn push_special(lines: &mut Vec<String>, tensors: &Vec<ListedTensor>, name: &str)
    ensures
        text::texts(final(lines)@) == text::texts(old(lines)@) + special_lines(tensors@, name@),
{
    let ghost before = text::texts(lines@);
    let mut index: usize = 0;
    proof {
        assert(tensors@.skip(0) =~= tensors@);
    }
    while index < tensors.len()
        invariant
            index <= tensors@.len(),
            text::texts(lines@) == before,
            text::texts(old(lines)@) == before,
            named(tensors@.skip(index as int), name@) == named(tensors@, name@),
        decreases tensors@.len() - index,
    {
        proof {
            assert(tensors@.skip(index as int)[0] == tensors@[index as int]);
            assert(tensors@.skip(index as int).skip(1) =~= tensors@.skip(index + 1));
        }
        if text::same_text(tensors[index].name.as_str(), name) {
            push_line(lines, write_typed_line("special_tensor=", &tensors[index]));
            proof {
                assert(text::texts(lines@) =~= before + special_lines(tensors@, name@));
            }
            return;
        }
        index += 1;
    }
    proof {
        assert(before + Seq::<Seq<char>>::empty() =~= before);
    }
}

fn push_metadata(lines: &mut Vec<String>, metadata: &Vec<(String, GgufValue)>)
    ensures
        text::texts(final(lines)@) == text::texts(old(lines)@) + metadata@.map_values(
            |entry: (String, GgufValue)| metadata_line(entry),
        ),
{
    let ghost before = text::texts(lines@);
    let ghost all = metadata@.map_values(|entry: (String, GgufValue)| metadata_line(entry));
    let mut index: usize = 0;
    proof {
        assert(before + all.take(0) =~= before);
    }
    while index < metadata.len()
        invariant
            index <= metadata@.len(),
            all == metadata@.map_values(|entry: (String, GgufValue)| metadata_line(entry)),
            text::texts(lines@) == before + all.take(index as int),
        decreases metadata@.len() - index,
    {
        let entry = &metadata[index];
        let value = summarize(&entry.1);
        push_line(
            lines,
            text::concat4("metadata.", entry.0.as_str(), "=", value.as_str()),
        );
        proof {
            assert(before + all.take(index + 1) =~= (before + all.take(index as int)).push(
                all[index as int],
            ));
        }
        index += 1;
    }
    proof {
        assert(all.take(index as int) =~= all);
    }
}

/// What is printed of a file, given its tensors in the order of their names.
pub fn list_file(model: &str, tensors: &Vec<ListedTensor>, metadata: &Vec<(String, GgufValue)>) -> (lines: Vec<
    String,
>)
    ensures
        text::texts(lines@) == listing(model@, tensors@, metadata@),
{
    let mut lines: Vec<String> = Vec::new();
    push_line(&mut lines, text::concat2("model=", model));
    push_line(
        &mut lines,
        text::concat2("tensors=", text::decimal_text(tensors.len() as u64).as_str()),
    );
    proof {
        assert(text::texts(lines@) =~= seq![
            "model="@ + model@,
            "tensors="@ + text::decimal(tensors@.len()),
        ]);
    }
    push_tensors(&mut lines, tensors, true, Q4_K_LISTED);
    proof {
        assert(first_tensors(tensors@, true, Q4_K_LISTED as int).map_values(
            |tensor: ListedTensor|
                if true {
                    q4_k_line(tensor)
                } else {
                    other_line(tensor)
                },
        ) =~= first_tensors(tensors@, true, Q4_K_LISTED as int).map_values(
            |tensor: ListedTensor| q4_k_line(tensor),
        ));
    }
    let counts = type_counts(tensors);
    let ghost before = text::texts(lines@);
    push_line(
        &mut lines,
        text::concat3("tensor_type_counts={", write_counts(&counts).as_str(), "}"),
    );
    proof {
        assert(text::texts(lines@) =~= before + seq![
            "tensor_type_counts={"@ + counts_list(counts_of(types_of(tensors@))) + "}"@,
        ]);
    }
    push_special(&mut lines, tensors, "token_embd.weight");
    push_special(&mut lines, tensors, "output.weight");
    push_special(&mut lines, tensors, "output_norm.weight");
    push_tensors(&mut lines, tensors, false, OTHERS_LISTED);
    proof {
        assert(first_tensors(tensors@, false, OTHERS_LISTED as int).map_values(
            |tensor: ListedTensor|
                if false {
                    q4_k_line(tensor)
                } else {
                    other_line(tensor)
                },
        ) =~= first_tensors(tensors@, false, OTHERS_LISTED as int).map_values(
            |tensor: ListedTensor| other_line(tensor),
        ));
    }
    push_metadata(&mut lines, metadata);
    lines
}

/// The tensors that are listed are those of their kind in their order, up to
/// the limit.
pub proof fn law_first_tensors_are_listed(tensors: Seq<ListedTensor>, q4_k: bool, limit: int)
    requires
        0 <= limit,
    ensures
        ({
            let kind = tensors.filter(|tensor: ListedTensor| is_q4_k(tensor) == q4_k);
            let listed = first_tensors(tensors, q4_k, limit);
            &&& listed.len() == (if kind.len() < limit {
                kind.len() as int
            } else {
                limit
            })
            &&& forall|i: int| 0 <= i < listed.len() ==> (#[trigger] listed[i]) == kind[i]
        }),
    decreases tensors.len(),
{
    reveal(Seq::filter);
    if tensors.len() > 0 {
        law_first_tensors_are_listed(tensors.drop_last(), q4_k, limit);
    }
}

/// A tensor that is listed by its name is the first that has it.
pub proof fn law_named_tensor_is_first(tensors: Seq<ListedTensor>, name: Seq<char>, index: int)
    requires
        0 <= index < tensors.len(),
        tensors[index].name@ == name,
        forall|i: int| 0 <= i < index ==> (#[trigger] tensors[i]).name@ != name,
    ensures
        named(tensors, name) == Some(tensors[index]),
    decreases index,
{
    if index > 0 {
        assert(tensors[0].name@ != name);
        let rest = tensors.skip(1);
        assert forall|i: int| 0 <= i < index - 1 implies (#[trigger] rest[i]).name@ != name by {
            assert(rest[i] == tensors[i + 1]);
        }
        law_named_tensor_is_first(rest, name, index - 1);
    }
}

} // verus!
