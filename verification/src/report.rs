//! Run configuration, measurement reports and the deterministic mock backend.
use vstd::prelude::*;
use vstd::string::*;

use crate::json;
use crate::json::{JsonValue, Member};
use crate::text;
use crate::timing;

verus! {

#[derive(Debug, Clone, PartialEq, Eq)]
pub enum OutputFormat {
    Text,
    Json,
}

#[derive(Debug, Clone, PartialEq, Eq)]
pub struct Config {
    pub model_path: String,
    pub backend: String,
    pub prompt: String,
    pub max_tokens: u32,
    pub max_context: usize,
    pub chunk_rows: Option<usize>,
    pub retain_output_head: bool,
    pub retain_layers: usize,
    pub quality_fixture: Option<String>,
    pub warmup: u32,
    pub repetitions: u32,
    pub verify_manifest: bool,
    pub output_format: OutputFormat,
    pub expected_output: Option<String>,
}

#[derive(Debug, PartialEq)]
pub struct RunReport {
    pub model_path: String,
    pub backend: String,
    pub prompt_tokens: u32,
    pub generated_tokens: u32,
    pub warmup_runs: u32,
    pub prefill: std::time::Duration,
    pub decode: std::time::Duration,
    pub peak_vram_mib: u64,
    pub peak_ram_mib: u64,
    pub output_match: Option<bool>,
    pub generated_output: String,
}

impl Clone for RunReport {
    fn clone(&self) -> (copy: RunReport)
        ensures
            copy == *self,
    {
        RunReport {
            model_path: self.model_path.clone(),
            backend: self.backend.clone(),
            prompt_tokens: self.prompt_tokens,
            generated_tokens: self.generated_tokens,
            warmup_runs: self.warmup_runs,
            prefill: self.prefill,
            decode: self.decode,
            peak_vram_mib: self.peak_vram_mib,
            peak_ram_mib: self.peak_ram_mib,
            output_match: self.output_match,
            generated_output: self.generated_output.clone(),
        }
    }
}

/// The times and rates of a report, written with three decimals.
#[derive(Debug, Clone, PartialEq, Eq)]
pub struct Timings {
    pub prefill_ms: String,
    pub decode_ms: String,
    pub prefill_tok_s: String,
    pub decode_tok_s: String,
    pub total_tok_s: String,
}

/// The number of longest stretches of characters without white space.
pub open spec fn words(text: Seq<char>) -> nat
    decreases text.len(),
{
    if text.len() == 0 {
        0
    } else {
        let last = text.len() - 1;
        let starts = !text::is_whitespace(text[last]) && (last == 0 || text::is_whitespace(text[last - 1]));
        words(text.drop_last()) + if starts {
            1nat
        } else {
            0nat
        }
    }
}

/// Control characters: the Unicode category `Cc`.
pub open spec fn is_control(c: char) -> bool {
    let code = c as u32;
    code <= 0x1f || 0x7f <= code <= 0x9f
}

pub open spec fn hex_digit(value: nat) -> char {
    if value < 10 {
        text::digit(value)
    } else {
        ('a' as nat + (value - 10)) as char
    }
}

/// How a character is written inside a JSON string.
pub open spec fn escaped_char(c: char) -> Seq<char> {
    if c == '"' {
        seq!['\\', '"']
    } else if c == '\\' {
        seq!['\\', '\\']
    } else if c == '\n' {
        seq!['\\', 'n']
    } else if c == '\r' {
        seq!['\\', 'r']
    } else if c == '\t' {
        seq!['\\', 't']
    } else if is_control(c) {
        seq!['\\', 'u', '0', '0', hex_digit(c as u32 as nat / 16), hex_digit(c as u32 as nat % 16)]
    } else {
        seq![c]
    }
}

/// How a text is written inside a JSON string.
pub open spec fn escaped(text: Seq<char>) -> Seq<char>
    decreases text.len(),
{
    if text.len() == 0 {
        Seq::empty()
    } else {
        escaped_char(text[0]) + escaped(text.skip(1))
    }
}

/// The value of a hexadecimal digit in lower case.
pub open spec fn hex_value(c: char) -> nat {
    if text::is_digit(c) {
        (c as nat - '0' as nat) as nat
    } else {
        (c as nat - 'a' as nat + 10) as nat
    }
}

/// The text that the inside of a JSON string stands for.
pub open spec fn unescaped(text: Seq<char>) -> Seq<char>
    decreases text.len(),
{
    if text.len() == 0 {
        Seq::empty()
    } else if text[0] != '\\' || text.len() < 2 {
        seq![text[0]] + unescaped(text.skip(1))
    } else if text[1] == 'n' {
        seq!['\n'] + unescaped(text.skip(2))
    } else if text[1] == 'r' {
        seq!['\r'] + unescaped(text.skip(2))
    } else if text[1] == 't' {
        seq!['\t'] + unescaped(text.skip(2))
    } else if text[1] == 'u' && text.len() >= 6 {
        let code = hex_value(text[2]) * 4096 + hex_value(text[3]) * 256 + hex_value(text[4]) * 16
            + hex_value(text[5]);
        seq![code as char] + unescaped(text.skip(6))
    } else {
        seq![text[1]] + unescaped(text.skip(2))
    }
}

/// A character is the one that its code stands for.
pub proof fn lemma_char_code(c: char)
    ensures
        c as u32 as nat as char == c,
{
}

/// Reading an escaped text gives the text back, and no control character is
/// left in it.
pub proof fn law_json_escape_round_trip(text: Seq<char>)
    ensures
        unescaped(escaped(text)) == text,
        forall|i: int| 0 <= i < escaped(text).len() ==> !is_control(#[trigger] escaped(text)[i]),
    decreases text.len(),
{
    if text.len() > 0 {
        let c = text[0];
        let head = escaped_char(c);
        let tail = escaped(text.skip(1));
        let whole = escaped(text);
        law_json_escape_round_trip(text.skip(1));
        assert(whole == head + tail);
        assert(whole.skip(head.len() as int) =~= tail);
        assert(unescaped(whole) == seq![c] + unescaped(tail)) by {
            if is_control(c) && c != '\n' && c != '\r' && c != '\t' {
                let code = c as u32 as nat;
                assert(code < 0xa0);
                assert(hex_value('0') == 0);
                assert(hex_value(hex_digit(code / 16)) == code / 16);
                assert(hex_value(hex_digit(code % 16)) == code % 16);
                assert(hex_value('0') * 4096 + hex_value('0') * 256 + hex_value(
                    hex_digit(code / 16),
                ) * 16 + hex_value(hex_digit(code % 16)) == code);
                assert(whole[1] == 'u' && whole[2] == '0' && whole[3] == '0');
                assert(whole[4] == hex_digit(code / 16) && whole[5] == hex_digit(code % 16));
                lemma_char_code(c);
            } else {
                assert(whole[0] == head[0]);
                if head.len() == 2 {
                    assert(whole[1] == head[1]);
                }
            }
        }
        assert(seq![c] + text.skip(1) =~= text);
        assert forall|i: int| 0 <= i < whole.len() implies !is_control(#[trigger] whole[i]) by {
            if i >= head.len() {
                assert(whole[i] == tail[i - head.len()]);
            } else {
                assert(whole[i] == head[i]);
            }
        }
    }
}

pub open spec fn option_bool_text(value: Option<bool>) -> Seq<char> {
    match value {
        Some(true) => "true"@,
        Some(false) => "false"@,
        None => "null"@,
    }
}

/// The tokens that the mock backend generates.
pub open spec fn mock_output(tokens: nat) -> Seq<char>
    decreases tokens,
{
    if tokens == 0 {
        Seq::empty()
    } else if tokens == 1 {
        "mock-"@ + text::decimal(0)
    } else {
        mock_output((tokens - 1) as nat) + " mock-"@ + text::decimal((tokens - 1) as nat)
    }
}

/// The sum of some bytes.
pub open spec fn byte_sum(bytes: Seq<u8>) -> nat
    decreases bytes.len(),
{
    if bytes.len() == 0 {
        0
    } else {
        byte_sum(bytes.drop_last()) + bytes.last() as nat
    }
}

/// The number of words in a text, as a 32-bit number.
pub fn token_count(text: &str) -> (count: u32)
    ensures
        count == words(text@) % 0x1_0000_0000,
{
    let chars = text::characters(text);
    let mut count: usize = 0;
    let mut after_space = true;
    let mut index: usize = 0;
    proof {
        assert(chars@.take(0) =~= Seq::empty());
    }
    while index < chars.len()
        invariant
            index <= chars@.len(),
            count <= index,
            count == words(chars@.take(index as int)),
            after_space == (index == 0 || text::is_whitespace(chars@[index - 1])),
        decreases chars@.len() - index,
    {
        proof {
            assert(chars@.take(index + 1).drop_last() =~= chars@.take(index as int));
        }
        let space = text::is_whitespace_char(chars[index]);
        if !space && after_space {
            count += 1;
        }
        after_space = space;
        index += 1;
    }
    proof {
        assert(chars@.take(index as int) =~= text@);
    }
    (count as u64 % 0x1_0000_0000) as u32
}

pub fn option_bool(value: Option<bool>) -> (word: &'static str)
    ensures
        word@ == option_bool_text(value),
{
    match value {
        Some(true) => "true",
        Some(false) => "false",
        None => "null",
    }
}

fn hex_digit_char(value: u8) -> (c: char)
    requires
        value < 16,
    ensures
        c == hex_digit(value as nat),
{
    if value < 10 {
        (48u8 + value) as char
    } else {
        (87u8 + value) as char
    }
}

/// Writes a text as it stands inside a JSON string.
pub fn json_escape(value: &str) -> (text: String)
    ensures
        text@ == escaped(value@),
{
    let chars = text::characters(value);
    let mut text = String::new();
    let mut index: usize = 0;
    proof {
        assert(chars@.skip(0) =~= chars@);
    }
    while index < chars.len()
        invariant
            index <= chars@.len(),
            chars@ == value@,
            text@ + escaped(chars@.skip(index as int)) == escaped(value@),
        decreases chars@.len() - index,
    {
        let ghost before = text@;
        let c = chars[index];
        let code: u32 = c as u32;
        if c == '"' {
            text.push('\\');
            text.push('"');
        } else if c == '\\' {
            text.push('\\');
            text.push('\\');
        } else if c == '\n' {
            text.push('\\');
            text.push('n');
        } else if c == '\r' {
            text.push('\\');
            text.push('r');
        } else if c == '\t' {
            text.push('\\');
            text.push('t');
        } else if code <= 0x1f || (0x7f <= code && code <= 0x9f) {
            text.push('\\');
            text.push('u');
            text.push('0');
            text.push('0');
            text.push(hex_digit_char((code / 16) as u8));
            text.push(hex_digit_char((code % 16) as u8));
        } else {
            text.push(c);
        }
        proof {
            let rest = chars@.skip(index as int);
            assert(rest.skip(1) =~= chars@.skip(index + 1));
            assert(text@ =~= before + escaped_char(c));
            assert(text@ + escaped(chars@.skip(index + 1)) =~= before + escaped(rest));
        }
        index += 1;
    }
    proof {
        assert(text@ + escaped(chars@.skip(index as int)) =~= text@);
    }
    text
}

fn mock_tokens(tokens: u32) -> (output: String)
    ensures
        output@ == mock_output(tokens as nat),
{
    let mut output = String::new();
    let mut index: u32 = 0;
    while index < tokens
        invariant
            index <= tokens,
            output@ == mock_output(index as nat),
        decreases tokens - index,
    {
        let number = text::decimal_text(index as u64);
        if index == 0 {
            output = text::concat2("mock-", number.as_str());
        } else {
            output = text::concat3(output.as_str(), " mock-", number.as_str());
        }
        index += 1;
    }
    output
}

/// The low 64 bits of the sum of the bytes of a text, the work that the mock
/// backend does for a prompt.
fn prompt_checksum(prompt: &str) -> (sum: u64)
    ensures
        sum == byte_sum(vstd::utf8::encode_utf8(prompt@)) % 0x1_0000_0000_0000_0000,
{
    let bytes = prompt.as_bytes();
    let mut sum: u64 = 0;
    let mut index: usize = 0;
    while index < bytes.len()
        invariant
            index <= bytes@.len(),
            sum == byte_sum(bytes@.take(index as int)) % 0x1_0000_0000_0000_0000,
        decreases bytes@.len() - index,
    {
        proof {
            assert(bytes@.take(index + 1).drop_last() =~= bytes@.take(index as int));
        }
        sum = sum.wrapping_add(bytes[index] as u64);
        index += 1;
    }
    proof {
        assert(bytes@.take(index as int) =~= bytes@);
    }
    sum
}

/// Runs the deterministic mock backend. The two times are measured; all else
/// follows from the configuration.
pub fn run_mock(config: &Config) -> (report: RunReport)
    ensures
        report.model_path@ == config.model_path@,
        report.backend@ == config.backend@,
        report.prompt_tokens == words(config.prompt@) % 0x1_0000_0000,
        report.generated_tokens == config.max_tokens,
        report.warmup_runs == config.warmup,
        report.peak_vram_mib == 64 + config.max_tokens / 8,
        report.peak_ram_mib == 32 + (vstd::utf8::encode_utf8(config.model_path@).len() as usize)
            / 64,
        report.generated_output@ == mock_output(config.max_tokens as nat),
        match config.expected_output {
            Some(expected) => report.output_match == Some(
                expected@ == mock_output(config.max_tokens as nat),
            ),
            None => report.output_match is None,
        },
{
    let prompt_tokens: u32 = token_count(config.prompt.as_str());
    let generated_output = mock_tokens(config.max_tokens);
    let mut warmup_runs: u32 = 0;
    while warmup_runs < config.warmup
        invariant
            warmup_runs <= config.warmup,
        decreases config.warmup - warmup_runs,
    {
        let _warmed: u32 = std::hint::black_box(token_count(config.prompt.as_str()));
        warmup_runs += 1;
    }
    let prefill_start = timing::clock();
    let _checksum: u64 = std::hint::black_box(prompt_checksum(config.prompt.as_str()));
    let prefill = timing::time_since(&prefill_start);
    let decode_start = timing::clock();
    let _tokens: u32 = std::hint::black_box(token_count(generated_output.as_str()));
    let decode = timing::time_since(&decode_start);
    let output_match = match &config.expected_output {
        Some(expected) => Some(text::same_text(expected.as_str(), generated_output.as_str())),
        None => None,
    };
    RunReport {
        model_path: config.model_path.clone(),
        backend: config.backend.clone(),
        prompt_tokens,
        generated_tokens: config.max_tokens,
        warmup_runs,
        prefill,
        decode,
        peak_vram_mib: 64 + config.max_tokens as u64 / 8,
        peak_ram_mib: 32 + config.model_path.as_str().len() as u64 / 64,
        output_match,
        generated_output,
    }
}

/// The process status that a report ends with: a mismatch is reported apart
/// from other failures.
pub fn exit_status(output_match: Option<bool>) -> (status: u8)
    ensures
        status == (if output_match == Some(false) {
            2u8
        } else {
            0u8
        }),
{
    match output_match {
        Some(false) => 2,
        _ => 0,
    }
}

impl RunReport {
    /// The report with one field per line.
    pub open spec fn text_view(self, timings: Timings) -> Seq<char> {
        "model="@ + self.model_path@ + "\nbackend="@ + self.backend@ + "\nprompt_tokens="@
            + text::decimal(self.prompt_tokens as nat) + "\ngenerated_tokens="@ + text::decimal(
            self.generated_tokens as nat,
        ) + "\nwarmup_runs="@ + text::decimal(self.warmup_runs as nat) + "\nprefill_ms="@
            + timings.prefill_ms@ + "\ndecode_ms="@ + timings.decode_ms@ + "\nprefill_tok_s="@
            + timings.prefill_tok_s@ + "\ndecode_tok_s="@ + timings.decode_tok_s@
            + "\ntotal_tok_s="@ + timings.total_tok_s@ + "\npeak_vram_mib="@ + text::decimal(
            self.peak_vram_mib as nat,
        ) + "\npeak_ram_mib="@ + text::decimal(self.peak_ram_mib as nat) + "\noutput_match="@
            + option_bool_text(self.output_match) + "\ngenerated_output="@ + self.generated_output@
    }

    /// The report as one JSON object.
    pub open spec fn json_view(self, timings: Timings) -> Seq<char> {
        "{\"model_path\":\""@ + escaped(self.model_path@) + "\",\"backend\":\""@ + escaped(
            self.backend@,
        ) + "\",\"prompt_tokens\":"@ + text::decimal(self.prompt_tokens as nat)
            + ",\"generated_tokens\":"@ + text::decimal(self.generated_tokens as nat)
            + ",\"warmup_runs\":"@ + text::decimal(self.warmup_runs as nat) + ",\"prefill_ms\":"@
            + timings.prefill_ms@ + ",\"decode_ms\":"@ + timings.decode_ms@ + ",\"prefill_tok_s\":"@
            + timings.prefill_tok_s@ + ",\"decode_tok_s\":"@ + timings.decode_tok_s@
            + ",\"total_tok_s\":"@ + timings.total_tok_s@ + ",\"peak_vram_mib\":"@ + text::decimal(
            self.peak_vram_mib as nat,
        ) + ",\"peak_ram_mib\":"@ + text::decimal(self.peak_ram_mib as nat) + ",\"output_match\":"@
            + option_bool_text(self.output_match) + ",\"generated_output\":\""@ + escaped(
            self.generated_output@,
        ) + "\"}"@
    }

    /// Writes the report with one field per line.
    pub fn as_text(&self, timings: &Timings) -> (text: String)
        ensures
            text@ == self.text_view(*timings),
    {
        let mut text = "model=".to_owned();
        text.append(self.model_path.as_str());
        text.append("\nbackend=");
        text.append(self.backend.as_str());
        text.append("\nprompt_tokens=");
        text.append(text::decimal_text(self.prompt_tokens as u64).as_str());
        text.append("\ngenerated_tokens=");
        text.append(text::decimal_text(self.generated_tokens as u64).as_str());
        text.append("\nwarmup_runs=");
        text.append(text::decimal_text(self.warmup_runs as u64).as_str());
        text.append("\nprefill_ms=");
        text.append(timings.prefill_ms.as_str());
        text.append("\ndecode_ms=");
        text.append(timings.decode_ms.as_str());
        text.append("\nprefill_tok_s=");
        text.append(timings.prefill_tok_s.as_str());
        text.append("\ndecode_tok_s=");
        text.append(timings.decode_tok_s.as_str());
        text.append("\ntotal_tok_s=");
        text.append(timings.total_tok_s.as_str());
        text.append("\npeak_vram_mib=");
        text.append(text::decimal_text(self.peak_vram_mib).as_str());
        text.append("\npeak_ram_mib=");
        text.append(text::decimal_text(self.peak_ram_mib).as_str());
        text.append("\noutput_match=");
        text.append(option_bool(self.output_match));
        text.append("\ngenerated_output=");
        text.append(self.generated_output.as_str());
        text
    }

    /// Writes the report as one JSON object.
    pub fn as_json(&self, timings: &Timings) -> (text: String)
        ensures
            text@ == self.json_view(*timings),
    {
        let mut text = "{\"model_path\":\"".to_owned();
        text.append(json_escape(self.model_path.as_str()).as_str());
        text.append("\",\"backend\":\"");
        text.append(json_escape(self.backend.as_str()).as_str());
        text.append("\",\"prompt_tokens\":");
        text.append(text::decimal_text(self.prompt_tokens as u64).as_str());
        text.append(",\"generated_tokens\":");
        text.append(text::decimal_text(self.generated_tokens as u64).as_str());
        text.append(",\"warmup_runs\":");
        text.append(text::decimal_text(self.warmup_runs as u64).as_str());
        text.append(",\"prefill_ms\":");
        text.append(timings.prefill_ms.as_str());
        text.append(",\"decode_ms\":");
        text.append(timings.decode_ms.as_str());
        text.append(",\"prefill_tok_s\":");
        text.append(timings.prefill_tok_s.as_str());
        text.append(",\"decode_tok_s\":");
        text.append(timings.decode_tok_s.as_str());
        text.append(",\"total_tok_s\":");
        text.append(timings.total_tok_s.as_str());
        text.append(",\"peak_vram_mib\":");
        text.append(text::decimal_text(self.peak_vram_mib).as_str());
        text.append(",\"peak_ram_mib\":");
        text.append(text::decimal_text(self.peak_ram_mib).as_str());
        text.append(",\"output_match\":");
        text.append(option_bool(self.output_match));
        text.append(",\"generated_output\":\"");
        text.append(json_escape(self.generated_output.as_str()).as_str());
        text.append("\"}");
        text
    }
}

/// Whether a text stays on one line: it holds no control character, and with
/// it no end of a line.
pub open spec fn is_one_line(text: Seq<char>) -> bool {
    forall|i: int| 0 <= i < text.len() ==> !is_control(#[trigger] text[i])
}

proof fn lemma_decimal_is_one_line(n: nat)
    ensures
        is_one_line(text::decimal(n)),
    decreases n,
{
    if n >= 10 {
        lemma_decimal_is_one_line(n / 10);
        assert(!is_control(text::digit(n % 10)));
    } else {
        assert(!is_control(text::digit(n)));
    }
}

proof fn lemma_literals_are_one_line()
    ensures
        is_one_line("{\"model_path\":\""@),
        is_one_line("\",\"backend\":\""@),
        is_one_line("\",\"prompt_tokens\":"@),
        is_one_line(",\"generated_tokens\":"@),
        is_one_line(",\"warmup_runs\":"@),
        is_one_line(",\"prefill_ms\":"@),
        is_one_line(",\"decode_ms\":"@),
        is_one_line(",\"prefill_tok_s\":"@),
        is_one_line(",\"decode_tok_s\":"@),
        is_one_line(",\"total_tok_s\":"@),
        is_one_line(",\"peak_vram_mib\":"@),
        is_one_line(",\"peak_ram_mib\":"@),
        is_one_line(",\"output_match\":"@),
        is_one_line(",\"generated_output\":\""@),
        is_one_line("\"}"@),
        is_one_line("true"@),
        is_one_line("false"@),
        is_one_line("null"@),
{
    reveal_strlit("{\"model_path\":\"");
    reveal_strlit("\",\"backend\":\"");
    reveal_strlit("\",\"prompt_tokens\":");
    reveal_strlit(",\"generated_tokens\":");
    reveal_strlit(",\"warmup_runs\":");
    reveal_strlit(",\"prefill_ms\":");
    reveal_strlit(",\"decode_ms\":");
    reveal_strlit(",\"prefill_tok_s\":");
    reveal_strlit(",\"decode_tok_s\":");
    reveal_strlit(",\"total_tok_s\":");
    reveal_strlit(",\"peak_vram_mib\":");
    reveal_strlit(",\"peak_ram_mib\":");
    reveal_strlit(",\"output_match\":");
    reveal_strlit(",\"generated_output\":\"");
    reveal_strlit("\"}");
    reveal_strlit("true");
    reveal_strlit("false");
    reveal_strlit("null");
}

/// A JSON report stays on one line whatever the report holds, so that reports
/// can be collected one after the other.
pub proof fn law_json_report_is_one_line(report: RunReport, timings: Timings)
    requires
        is_one_line(timings.prefill_ms@),
        is_one_line(timings.decode_ms@),
        is_one_line(timings.prefill_tok_s@),
        is_one_line(timings.decode_tok_s@),
        is_one_line(timings.total_tok_s@),
    ensures
        is_one_line(report.json_view(timings)),
{
    law_json_escape_round_trip(report.model_path@);
    law_json_escape_round_trip(report.backend@);
    law_json_escape_round_trip(report.generated_output@);
    lemma_decimal_is_one_line(report.prompt_tokens as nat);
    lemma_decimal_is_one_line(report.generated_tokens as nat);
    lemma_decimal_is_one_line(report.warmup_runs as nat);
    lemma_decimal_is_one_line(report.peak_vram_mib as nat);
    lemma_decimal_is_one_line(report.peak_ram_mib as nat);
    lemma_literals_are_one_line();
}

/// The members of a JSON report.
pub open spec fn report_members(report: RunReport, timings: Timings) -> Seq<Member> {
    seq![
        Member { name: "model_path"@, value: JsonValue::Text(report.model_path@) },
        Member { name: "backend"@, value: JsonValue::Text(report.backend@) },
        Member {
            name: "prompt_tokens"@,
            value: JsonValue::Number(text::decimal(report.prompt_tokens as nat)),
        },
        Member {
            name: "generated_tokens"@,
            value: JsonValue::Number(text::decimal(report.generated_tokens as nat)),
        },
        Member {
            name: "warmup_runs"@,
            value: JsonValue::Number(text::decimal(report.warmup_runs as nat)),
        },
        Member { name: "prefill_ms"@, value: JsonValue::Number(timings.prefill_ms@) },
        Member { name: "decode_ms"@, value: JsonValue::Number(timings.decode_ms@) },
        Member { name: "prefill_tok_s"@, value: JsonValue::Number(timings.prefill_tok_s@) },
        Member { name: "decode_tok_s"@, value: JsonValue::Number(timings.decode_tok_s@) },
        Member { name: "total_tok_s"@, value: JsonValue::Number(timings.total_tok_s@) },
        Member {
            name: "peak_vram_mib"@,
            value: JsonValue::Number(text::decimal(report.peak_vram_mib as nat)),
        },
        Member {
            name: "peak_ram_mib"@,
            value: JsonValue::Number(text::decimal(report.peak_ram_mib as nat)),
        },
        Member { name: "output_match"@, value: option_bool_value(report.output_match) },
        Member { name: "generated_output"@, value: JsonValue::Text(report.generated_output@) },
    ]
}

/// Whether an output matched, as a JSON value.
pub open spec fn option_bool_value(value: Option<bool>) -> JsonValue {
    match value {
        Some(matched) => JsonValue::Bool(matched),
        None => JsonValue::Null,
    }
}

/// The names of the members stand for themselves, and are written into the
/// report between the values.
proof fn lemma_names()
    ensures
        "{\"model_path\":\""@ == seq!['{', '"'] + escaped("model_path"@) + seq!['"', ':', '"'],
        "\",\"backend\":\""@ == seq!['"'] + json::next_name("backend"@) + seq!['"'],
        "\",\"prompt_tokens\":"@ == seq!['"'] + json::next_name("prompt_tokens"@),
        ",\"generated_tokens\":"@ == json::next_name("generated_tokens"@),
        ",\"warmup_runs\":"@ == json::next_name("warmup_runs"@),
        ",\"prefill_ms\":"@ == json::next_name("prefill_ms"@),
        ",\"decode_ms\":"@ == json::next_name("decode_ms"@),
        ",\"prefill_tok_s\":"@ == json::next_name("prefill_tok_s"@),
        ",\"decode_tok_s\":"@ == json::next_name("decode_tok_s"@),
        ",\"total_tok_s\":"@ == json::next_name("total_tok_s"@),
        ",\"peak_vram_mib\":"@ == json::next_name("peak_vram_mib"@),
        ",\"peak_ram_mib\":"@ == json::next_name("peak_ram_mib"@),
        ",\"output_match\":"@ == json::next_name("output_match"@),
        ",\"generated_output\":\""@ == json::next_name("generated_output"@) + seq!['"'],
        "\"}"@ == seq!['"', '}'],
{
    reveal_strlit("model_path");
    json::lemma_plain_text("model_path"@);
    reveal_strlit("backend");
    json::lemma_plain_text("backend"@);
    reveal_strlit("prompt_tokens");
    json::lemma_plain_text("prompt_tokens"@);
    reveal_strlit("generated_tokens");
    json::lemma_plain_text("generated_tokens"@);
    reveal_strlit("warmup_runs");
    json::lemma_plain_text("warmup_runs"@);
    reveal_strlit("prefill_ms");
    json::lemma_plain_text("prefill_ms"@);
    reveal_strlit("decode_ms");
    json::lemma_plain_text("decode_ms"@);
    reveal_strlit("prefill_tok_s");
    json::lemma_plain_text("prefill_tok_s"@);
    reveal_strlit("decode_tok_s");
    json::lemma_plain_text("decode_tok_s"@);
    reveal_strlit("total_tok_s");
    json::lemma_plain_text("total_tok_s"@);
    reveal_strlit("peak_vram_mib");
    json::lemma_plain_text("peak_vram_mib"@);
    reveal_strlit("peak_ram_mib");
    json::lemma_plain_text("peak_ram_mib"@);
    reveal_strlit("output_match");
    json::lemma_plain_text("output_match"@);
    reveal_strlit("generated_output");
    json::lemma_plain_text("generated_output"@);
    reveal_strlit("{\"model_path\":\"");
    reveal_strlit("\",\"backend\":\"");
    reveal_strlit("\",\"prompt_tokens\":");
    reveal_strlit(",\"generated_tokens\":");
    reveal_strlit(",\"warmup_runs\":");
    reveal_strlit(",\"prefill_ms\":");
    reveal_strlit(",\"decode_ms\":");
    reveal_strlit(",\"prefill_tok_s\":");
    reveal_strlit(",\"decode_tok_s\":");
    reveal_strlit(",\"total_tok_s\":");
    reveal_strlit(",\"peak_vram_mib\":");
    reveal_strlit(",\"peak_ram_mib\":");
    reveal_strlit(",\"output_match\":");
    reveal_strlit(",\"generated_output\":\"");
    reveal_strlit("\"}");
    assert("{\"model_path\":\""@ =~= seq!['{', '"'] + "model_path"@ + seq!['"', ':', '"']);
    assert("\",\"backend\":\""@ =~= seq!['"', ',', '"'] + "backend"@ + seq!['"', ':', '"']);
    assert("\",\"backend\":\""@ =~= seq!['"'] + json::next_name("backend"@) + seq!['"']);
    assert("\",\"prompt_tokens\":"@ =~= seq!['"'] + json::next_name("prompt_tokens"@));
    assert(",\"generated_tokens\":"@ =~= json::next_name("generated_tokens"@));
    assert(",\"warmup_runs\":"@ =~= json::next_name("warmup_runs"@));
    assert(",\"prefill_ms\":"@ =~= json::next_name("prefill_ms"@));
    assert(",\"decode_ms\":"@ =~= json::next_name("decode_ms"@));
    assert(",\"prefill_tok_s\":"@ =~= json::next_name("prefill_tok_s"@));
    assert(",\"decode_tok_s\":"@ =~= json::next_name("decode_tok_s"@));
    assert(",\"total_tok_s\":"@ =~= json::next_name("total_tok_s"@));
    assert(",\"peak_vram_mib\":"@ =~= json::next_name("peak_vram_mib"@));
    assert(",\"peak_ram_mib\":"@ =~= json::next_name("peak_ram_mib"@));
    assert(",\"output_match\":"@ =~= json::next_name("output_match"@));
    assert(",\"generated_output\":\""@ =~= json::next_name("generated_output"@) + seq!['"']);
    assert("\"}"@ =~= seq!['"', '}']);
}

/// One more value and the name behind it.
proof fn lemma_part(
    members: Seq<Member>,
    index: int,
    part: Seq<char>,
    value: Seq<char>,
    name: Seq<char>,
)
    requires
        0 <= index,
        index + 1 < members.len(),
        part == json::text_before_value(members, index),
        value == json::value_text(members[index].value),
        name == json::next_name(members[index + 1].name),
    ensures
        part + value + name == json::text_before_value(members, index + 1),
{
    json::lemma_next_name(members, index);
}

/// One more text between quotation marks and the name behind it.
proof fn lemma_quoted_part(
    members: Seq<Member>,
    index: int,
    part: Seq<char>,
    content: Seq<char>,
    name: Seq<char>,
)
    requires
        0 <= index,
        index + 1 < members.len(),
        part == json::text_before_value(members, index) + seq!['"'],
        members[index].value == JsonValue::Text(content),
        name == seq!['"'] + json::next_name(members[index + 1].name),
    ensures
        part + escaped(content) + name == json::text_before_value(members, index + 1),
{
    json::lemma_next_name(members, index);
    assert(part + escaped(content) + name =~= json::text_before_value(members, index)
        + json::value_text(members[index].value) + json::next_name(members[index + 1].name));
}

/// The first parts of the text of a report are those of its members.
proof fn lemma_first_parts(report: RunReport, timings: Timings)
    ensures
        "{\"model_path\":\""@ + escaped(report.model_path@) + "\",\"backend\":\""@ + escaped(
            report.backend@,
        ) + "\",\"prompt_tokens\":"@ == json::text_before_value(
            report_members(report, timings),
            2,
        ),
{
    let members = report_members(report, timings);
    lemma_names();
    let part0 = "{\"model_path\":\""@;
    assert(part0 =~= json::text_before_value(members, 0) + seq!['"']);
    let name = seq!['"'] + json::next_name("backend"@);
    lemma_quoted_part(members, 0, part0, report.model_path@, name);
    let part1 = part0 + escaped(report.model_path@) + "\",\"backend\":\""@;
    assert(part1 =~= (part0 + escaped(report.model_path@) + name) + seq!['"']);
    lemma_quoted_part(members, 1, part1, report.backend@, "\",\"prompt_tokens\":"@);
}

/// Some more parts of the text of a report are those of its members.
proof fn lemma_middle_parts(
    report: RunReport,
    timings: Timings,
    members: Seq<Member>,
    part2: Seq<char>,
)
    requires
        part2 == json::text_before_value(members, 2),
        members.len() == 14,
        members[2].value == JsonValue::Number(text::decimal(report.prompt_tokens as nat)),
        members[3].name == "generated_tokens"@,
        members[3].value == JsonValue::Number(text::decimal(report.generated_tokens as nat)),
        members[4].name == "warmup_runs"@,
        members[4].value == JsonValue::Number(text::decimal(report.warmup_runs as nat)),
        members[5].name == "prefill_ms"@,
        members[5].value == JsonValue::Number(timings.prefill_ms@),
        members[6].name == "decode_ms"@,
        members[6].value == JsonValue::Number(timings.decode_ms@),
        members[7].name == "prefill_tok_s"@,
    ensures
        part2 + text::decimal(report.prompt_tokens as nat) + ",\"generated_tokens\":"@
            + text::decimal(report.generated_tokens as nat) + ",\"warmup_runs\":"@
            + text::decimal(report.warmup_runs as nat) + ",\"prefill_ms\":"@ + timings.prefill_ms@
            + ",\"decode_ms\":"@ + timings.decode_ms@
            + ",\"prefill_tok_s\":"@ == json::text_before_value(members, 7),
{
    lemma_names();
    let part3 = part2 + text::decimal(report.prompt_tokens as nat) + ",\"generated_tokens\":"@;
    lemma_part(
        members,
        2,
        part2,
        text::decimal(report.prompt_tokens as nat),
        ",\"generated_tokens\":"@,
    );
    let part4 = part3 + text::decimal(report.generated_tokens as nat) + ",\"warmup_runs\":"@;
    lemma_part(
        members,
        3,
        part3,
        text::decimal(report.generated_tokens as nat),
        ",\"warmup_runs\":"@,
    );
    let part5 = part4 + text::decimal(report.warmup_runs as nat) + ",\"prefill_ms\":"@;
    lemma_part(members, 4, part4, text::decimal(report.warmup_runs as nat), ",\"prefill_ms\":"@);
    let part6 = part5 + timings.prefill_ms@ + ",\"decode_ms\":"@;
    lemma_part(members, 5, part5, timings.prefill_ms@, ",\"decode_ms\":"@);
    let part7 = part6 + timings.decode_ms@ + ",\"prefill_tok_s\":"@;
    lemma_part(members, 6, part6, timings.decode_ms@, ",\"prefill_tok_s\":"@);
}

/// Some more parts of the text of a report are those of its members.
proof fn lemma_later_parts(
    report: RunReport,
    timings: Timings,
    members: Seq<Member>,
    part7: Seq<char>,
)
    requires
        part7 == json::text_before_value(members, 7),
        members.len() == 14,
        members[7].value == JsonValue::Number(timings.prefill_tok_s@),
        members[8].name == "decode_tok_s"@,
        members[8].value == JsonValue::Number(timings.decode_tok_s@),
        members[9].name == "total_tok_s"@,
        members[9].value == JsonValue::Number(timings.total_tok_s@),
        members[10].name == "peak_vram_mib"@,
        members[10].value == JsonValue::Number(text::decimal(report.peak_vram_mib as nat)),
        members[11].name == "peak_ram_mib"@,
        members[11].value == JsonValue::Number(text::decimal(report.peak_ram_mib as nat)),
        members[12].name == "output_match"@,
    ensures
        part7 + timings.prefill_tok_s@ + ",\"decode_tok_s\":"@ + timings.decode_tok_s@
            + ",\"total_tok_s\":"@ + timings.total_tok_s@ + ",\"peak_vram_mib\":"@
            + text::decimal(report.peak_vram_mib as nat) + ",\"peak_ram_mib\":"@
            + text::decimal(report.peak_ram_mib as nat)
            + ",\"output_match\":"@ == json::text_before_value(members, 12),
{
    lemma_names();
    let part8 = part7 + timings.prefill_tok_s@ + ",\"decode_tok_s\":"@;
    lemma_part(members, 7, part7, timings.prefill_tok_s@, ",\"decode_tok_s\":"@);
    let part9 = part8 + timings.decode_tok_s@ + ",\"total_tok_s\":"@;
    lemma_part(members, 8, part8, timings.decode_tok_s@, ",\"total_tok_s\":"@);
    let part10 = part9 + timings.total_tok_s@ + ",\"peak_vram_mib\":"@;
    lemma_part(members, 9, part9, timings.total_tok_s@, ",\"peak_vram_mib\":"@);
    let part11 = part10 + text::decimal(report.peak_vram_mib as nat) + ",\"peak_ram_mib\":"@;
    lemma_part(
        members,
        10,
        part10,
        text::decimal(report.peak_vram_mib as nat),
        ",\"peak_ram_mib\":"@,
    );
    let part12 = part11 + text::decimal(report.peak_ram_mib as nat) + ",\"output_match\":"@;
    lemma_part(
        members,
        11,
        part11,
        text::decimal(report.peak_ram_mib as nat),
        ",\"output_match\":"@,
    );
}

/// The end of the text of a report is that of its last members.
proof fn lemma_last_parts(
    members: Seq<Member>,
    part: Seq<char>,
    output_match: Option<bool>,
    content: Seq<char>,
)
    requires
        members.len() == 14,
        part == json::text_before_value(members, 12),
        members[12].value == option_bool_value(output_match),
        members[13].name == "generated_output"@,
        members[13].value == JsonValue::Text(content),
    ensures
        part + option_bool_text(output_match) + ",\"generated_output\":\""@ + escaped(content)
            + "\"}"@ == json::object_text(members),
{
    lemma_names();
    let matched = option_bool_text(output_match);
    assert(matched =~= json::value_text(option_bool_value(output_match))) by {
        reveal_strlit("true");
        reveal_strlit("false");
        reveal_strlit("null");
    }
    let name = json::next_name("generated_output"@);
    lemma_part(members, 12, part, matched, name);
    lemma_last_part(members, part + matched, name, content);
}

/// Whether the JSON text of a report writes its members.
spec fn writes_members(report: RunReport, timings: Timings) -> bool {
    report.json_view(timings) == json::object_text(report_members(report, timings))
}

#[verifier::rlimit(40)]
proof fn lemma_json_view(report: RunReport, timings: Timings)
    ensures
        writes_members(report, timings),
{
    let members = report_members(report, timings);
    lemma_first_parts(report, timings);
    let part2 = "{\"model_path\":\""@ + escaped(report.model_path@) + "\",\"backend\":\""@
        + escaped(report.backend@) + "\",\"prompt_tokens\":"@;
    lemma_middle_parts(report, timings, members, part2);
    let part7 = part2 + text::decimal(report.prompt_tokens as nat) + ",\"generated_tokens\":"@
        + text::decimal(report.generated_tokens as nat) + ",\"warmup_runs\":"@
        + text::decimal(report.warmup_runs as nat) + ",\"prefill_ms\":"@ + timings.prefill_ms@
        + ",\"decode_ms\":"@ + timings.decode_ms@ + ",\"prefill_tok_s\":"@;
    lemma_later_parts(report, timings, members, part7);
    let part12 = part7 + timings.prefill_tok_s@ + ",\"decode_tok_s\":"@ + timings.decode_tok_s@
        + ",\"total_tok_s\":"@ + timings.total_tok_s@ + ",\"peak_vram_mib\":"@
        + text::decimal(report.peak_vram_mib as nat) + ",\"peak_ram_mib\":"@
        + text::decimal(report.peak_ram_mib as nat) + ",\"output_match\":"@;
    lemma_last_parts(members, part12, report.output_match, report.generated_output@);
}

/// The last text between quotation marks and the closing brace.
proof fn lemma_last_part(
    members: Seq<Member>,
    part: Seq<char>,
    name: Seq<char>,
    content: Seq<char>,
)
    requires
        members.len() > 0,
        part + name == json::text_before_value(members, members.len() - 1),
        members.last().value == JsonValue::Text(content),
    ensures
        part + (name + seq!['"']) + escaped(content) + seq!['"', '}'] == json::object_text(members),
{
    json::lemma_last_value(members);
    assert(part + (name + seq!['"']) + escaped(content) + seq!['"', '}'] =~= (part + name)
        + json::value_text(members.last().value) + seq!['}']);
}

/// Whether the times and rates are numbers.
pub open spec fn timings_are_numbers(timings: Timings) -> bool {
    &&& json::is_number(timings.prefill_ms@)
    &&& json::is_number(timings.decode_ms@)
    &&& json::is_number(timings.prefill_tok_s@)
    &&& json::is_number(timings.decode_tok_s@)
    &&& json::is_number(timings.total_tok_s@)
}

proof fn lemma_members_are_numbers(report: RunReport, timings: Timings)
    requires
        timings_are_numbers(timings),
    ensures
        json::numbers_are_numbers(report_members(report, timings)),
{
    json::lemma_decimal_is_number(report.prompt_tokens as nat);
    json::lemma_decimal_is_number(report.generated_tokens as nat);
    json::lemma_decimal_is_number(report.warmup_runs as nat);
    json::lemma_decimal_is_number(report.peak_vram_mib as nat);
    json::lemma_decimal_is_number(report.peak_ram_mib as nat);
}

proof fn lemma_number_is_one_line(text: Seq<char>)
    requires
        json::is_number(text),
    ensures
        is_one_line(text),
{
    json::lemma_number_chars(text);
}

/// A text that writes members reads back as them.
proof fn lemma_written_members(text: Seq<char>, members: Seq<Member>)
    requires
        text == json::object_text(members),
        json::numbers_are_numbers(members),
    ensures
        reads_back(text, members),
{
    json::law_objects_read_back(members);
}

/// Whether a text is one JSON object with these members.
pub open spec fn reads_back(text: Seq<char>, members: Seq<Member>) -> bool {
    json::read_object(text) == Some(members)
}

/// A JSON report is one JSON object: where the times and rates are numbers, it
/// reads back as the fields of the report in order. It stays on one line, so
/// that reports can be collected one after the other.
#[verifier::rlimit(40)]
pub proof fn law_json_report_reads_back(report: RunReport, timings: Timings)
    requires
        timings_are_numbers(timings),
    ensures
        reads_back(report.json_view(timings), report_members(report, timings)),
        is_one_line(report.json_view(timings)),
{
    lemma_number_is_one_line(timings.prefill_ms@);
    lemma_number_is_one_line(timings.decode_ms@);
    lemma_number_is_one_line(timings.prefill_tok_s@);
    lemma_number_is_one_line(timings.decode_tok_s@);
    lemma_number_is_one_line(timings.total_tok_s@);
    law_json_report_is_one_line(report, timings);
    lemma_json_view(report, timings);
    lemma_members_are_numbers(report, timings);
    lemma_written_members(report.json_view(timings), report_members(report, timings));
}

/// White space between two texts ends the words of the one and starts those of
/// the other.
pub proof fn law_words_of_parts(first: Seq<char>, space: char, second: Seq<char>)
    requires
        text::is_whitespace(space),
    ensures
        words(first + seq![space] + second) == words(first) + words(second),
    decreases second.len(),
{
    let whole = first + seq![space] + second;
    assert(whole.len() == first.len() + 1 + second.len());
    if second.len() == 0 {
        assert(whole.drop_last() =~= first);
    } else {
        let shorter = second.drop_last();
        law_words_of_parts(first, space, shorter);
        assert(whole.drop_last() =~= first + seq![space] + shorter);
        assert(whole[whole.len() - 1] == second[second.len() - 1]);
        if second.len() > 1 {
            assert(whole[whole.len() - 2] == second[second.len() - 2]);
        } else {
            assert(whole[whole.len() - 2] == space);
        }
    }
}

/// A text without white space is one word, unless it is empty; white space
/// alone holds no word.
pub proof fn law_words_of_one_piece(text: Seq<char>)
    ensures
        text.len() > 0 && (forall|i: int|
            0 <= i < text.len() ==> !text::is_whitespace(#[trigger] text[i])) ==> words(text) == 1,
        (forall|i: int| 0 <= i < text.len() ==> text::is_whitespace(#[trigger] text[i])) ==> words(
            text,
        ) == 0,
    decreases text.len(),
{
    if text.len() > 0 {
        let shorter = text.drop_last();
        law_words_of_one_piece(shorter);
        assert(forall|i: int| 0 <= i < shorter.len() ==> shorter[i] == #[trigger] text[i]);
        if forall|i: int| 0 <= i < text.len() ==> !text::is_whitespace(#[trigger] text[i]) {
            assert forall|i: int| 0 <= i < shorter.len() implies !text::is_whitespace(
                #[trigger] shorter[i],
            ) by {
                assert(!text::is_whitespace(text[i]));
            }
            assert(!text::is_whitespace(text[text.len() - 1]));
            if text.len() > 1 {
                assert(!text::is_whitespace(text[text.len() - 2]));
            }
        }
        if forall|i: int| 0 <= i < text.len() ==> text::is_whitespace(#[trigger] text[i]) {
            assert forall|i: int| 0 <= i < shorter.len() implies text::is_whitespace(
                #[trigger] shorter[i],
            ) by {
                assert(text::is_whitespace(text[i]));
            }
            assert(text::is_whitespace(text[text.len() - 1]));
        }
    }
}

/// The word of the mock backend for a number.
pub open spec fn mock_word(number: nat) -> Seq<char> {
    "mock-"@ + text::decimal(number)
}

/// A word of the mock backend holds no white space.
proof fn lemma_mock_word(number: nat)
    ensures
        !mock_word(number).contains(' '),
        mock_word(number).len() > 0,
        forall|i: int|
            0 <= i < mock_word(number).len() ==> !text::is_whitespace(
                #[trigger] mock_word(number)[i],
            ),
{
    reveal_strlit("mock-");
    text::lemma_decimal_digits(number);
    let word = mock_word(number);
    let digits = text::decimal(number);
    assert forall|i: int| 0 <= i < word.len() implies !text::is_whitespace(#[trigger] word[i]) by {
        if i >= 5 {
            assert(word[i] == digits[i - 5]);
            assert(text::is_digit(digits[i - 5]));
        }
    }
    assert(text::is_whitespace(' '));
}

/// What the mock backend generates is as many words as tokens were asked for,
/// with one space between each two of them. The word in each place is `mock-`
/// and the number of the place, so all words differ.
pub proof fn law_mock_words(tokens: nat)
    requires
        tokens > 0,
    ensures
        ({
            let pieces = text::split(mock_output(tokens), ' ');
            &&& pieces.len() == tokens
            &&& forall|i: int|
                0 <= i < tokens ==> (#[trigger] pieces[i]) == "mock-"@ + text::decimal(i as nat)
            &&& forall|i: int, j: int|
                0 <= i < tokens && 0 <= j < tokens && (#[trigger] pieces[i]) == (
                #[trigger] pieces[j]) ==> i == j
        }),
    decreases tokens,
{
    let output = mock_output(tokens);
    let pieces = text::split(output, ' ');
    let last = (tokens - 1) as nat;
    lemma_mock_word(last);
    text::lemma_split_plain(mock_word(last), ' ');
    if tokens > 1 {
        law_mock_words(last);
        reveal_strlit(" mock-");
        reveal_strlit("mock-");
        assert(" mock-"@ =~= seq![' '] + "mock-"@);
        assert(output =~= mock_output(last) + seq![' '] + mock_word(last));
        text::law_split_parts(mock_output(last), mock_word(last), ' ');
        let before = text::split(mock_output(last), ' ');
        assert(pieces == before + seq![mock_word(last)]);
        assert forall|i: int| 0 <= i < tokens implies (#[trigger] pieces[i]) == "mock-"@
            + text::decimal(i as nat) by {
            if i < last {
                assert(pieces[i] == before[i]);
            }
        }
    }
    assert forall|i: int, j: int|
        0 <= i < tokens && 0 <= j < tokens && (#[trigger] pieces[i]) == (#[trigger] pieces[j]) implies i
        == j by {
        let first = text::decimal(i as nat);
        let second = text::decimal(j as nat);
        let prefix = "mock-"@;
        assert(first =~= (prefix + first).skip(prefix.len() as int));
        assert(second =~= (prefix + second).skip(prefix.len() as int));
        text::law_decimals_differ(i as nat, j as nat);
    }
}

/// The mock backend generates as many words as it counts, and nothing where no
/// tokens are asked for.
pub proof fn law_mock_word_count(tokens: nat)
    ensures
        words(mock_output(tokens)) == tokens,
        mock_output(tokens).len() == 0 <==> tokens == 0,
    decreases tokens,
{
    if tokens > 0 {
        let last = (tokens - 1) as nat;
        lemma_mock_word(last);
        law_words_of_one_piece(mock_word(last));
        if tokens > 1 {
            law_mock_word_count(last);
            reveal_strlit(" mock-");
            reveal_strlit("mock-");
            assert(" mock-"@ =~= seq![' '] + "mock-"@);
            assert(mock_output(tokens) =~= mock_output(last) + seq![' '] + mock_word(last));
            assert(text::is_whitespace(' '));
            law_words_of_parts(mock_output(last), ' ', mock_word(last));
        }
    }
}

/// A value as a report shows it in a line of its own.
pub open spec fn shown_value(value: JsonValue) -> Seq<char> {
    match value {
        JsonValue::Text(text) => text,
        JsonValue::Number(text) => text,
        JsonValue::Bool(true) => "true"@,
        JsonValue::Bool(false) => "false"@,
        JsonValue::Null => "null"@,
    }
}

/// A member of a JSON report as the line of a text report. Only the path of
/// the model has another name there.
pub open spec fn shown_line(member: Member) -> Seq<char> {
    (if member.name == "model_path"@ {
        "model"@
    } else {
        member.name
    }) + seq!['='] + shown_value(member.value)
}

pub open spec fn shown_lines(report: RunReport, timings: Timings) -> Seq<Seq<char>> {
    report_members(report, timings).map_values(|member: Member| shown_line(member))
}

/// The names in a text report, each behind the end of the line before it.
proof fn lemma_labels()
    ensures
        "model="@ == "model"@ + seq!['='],
        "\nbackend="@ == seq!['\n'] + ("backend"@ + seq!['=']),
        "\nprompt_tokens="@ == seq!['\n'] + ("prompt_tokens"@ + seq!['=']),
        "\ngenerated_tokens="@ == seq!['\n'] + ("generated_tokens"@ + seq!['=']),
        "\nwarmup_runs="@ == seq!['\n'] + ("warmup_runs"@ + seq!['=']),
        "\nprefill_ms="@ == seq!['\n'] + ("prefill_ms"@ + seq!['=']),
        "\ndecode_ms="@ == seq!['\n'] + ("decode_ms"@ + seq!['=']),
        "\nprefill_tok_s="@ == seq!['\n'] + ("prefill_tok_s"@ + seq!['=']),
        "\ndecode_tok_s="@ == seq!['\n'] + ("decode_tok_s"@ + seq!['=']),
        "\ntotal_tok_s="@ == seq!['\n'] + ("total_tok_s"@ + seq!['=']),
        "\npeak_vram_mib="@ == seq!['\n'] + ("peak_vram_mib"@ + seq!['=']),
        "\npeak_ram_mib="@ == seq!['\n'] + ("peak_ram_mib"@ + seq!['=']),
        "\noutput_match="@ == seq!['\n'] + ("output_match"@ + seq!['=']),
        "\ngenerated_output="@ == seq!['\n'] + ("generated_output"@ + seq!['=']),
        "backend"@ != "model_path"@,
        "prompt_tokens"@ != "model_path"@,
        "generated_tokens"@ != "model_path"@,
        "warmup_runs"@ != "model_path"@,
        "prefill_ms"@ != "model_path"@,
        "decode_ms"@ != "model_path"@,
        "prefill_tok_s"@ != "model_path"@,
        "decode_tok_s"@ != "model_path"@,
        "total_tok_s"@ != "model_path"@,
        "peak_vram_mib"@ != "model_path"@,
        "peak_ram_mib"@ != "model_path"@,
        "output_match"@ != "model_path"@,
        "generated_output"@ != "model_path"@,
{
    reveal_strlit("model");
    reveal_strlit("model=");
    reveal_strlit("model_path");
    assert("model="@ =~= "model"@ + seq!['=']);
    assert("model_path"@.len() == 10);
    reveal_strlit("backend");
    reveal_strlit("\nbackend=");
    assert("\nbackend="@ =~= seq!['\n'] + ("backend"@ + seq!['=']));
    assert("backend"@.len() == 7);
    reveal_strlit("prompt_tokens");
    reveal_strlit("\nprompt_tokens=");
    assert("\nprompt_tokens="@ =~= seq!['\n'] + ("prompt_tokens"@ + seq!['=']));
    assert("prompt_tokens"@.len() == 13);
    reveal_strlit("generated_tokens");
    reveal_strlit("\ngenerated_tokens=");
    assert("\ngenerated_tokens="@ =~= seq!['\n'] + ("generated_tokens"@ + seq!['=']));
    assert("generated_tokens"@.len() == 16);
    reveal_strlit("warmup_runs");
    reveal_strlit("\nwarmup_runs=");
    assert("\nwarmup_runs="@ =~= seq!['\n'] + ("warmup_runs"@ + seq!['=']));
    assert("warmup_runs"@.len() == 11);
    reveal_strlit("prefill_ms");
    reveal_strlit("\nprefill_ms=");
    assert("\nprefill_ms="@ =~= seq!['\n'] + ("prefill_ms"@ + seq!['=']));
    assert("prefill_ms"@.len() == 10);
    assert("prefill_ms"@[0] != "model_path"@[0]);
    reveal_strlit("decode_ms");
    reveal_strlit("\ndecode_ms=");
    assert("\ndecode_ms="@ =~= seq!['\n'] + ("decode_ms"@ + seq!['=']));
    assert("decode_ms"@.len() == 9);
    reveal_strlit("prefill_tok_s");
    reveal_strlit("\nprefill_tok_s=");
    assert("\nprefill_tok_s="@ =~= seq!['\n'] + ("prefill_tok_s"@ + seq!['=']));
    assert("prefill_tok_s"@.len() == 13);
    reveal_strlit("decode_tok_s");
    reveal_strlit("\ndecode_tok_s=");
    assert("\ndecode_tok_s="@ =~= seq!['\n'] + ("decode_tok_s"@ + seq!['=']));
    assert("decode_tok_s"@.len() == 12);
    reveal_strlit("total_tok_s");
    reveal_strlit("\ntotal_tok_s=");
    assert("\ntotal_tok_s="@ =~= seq!['\n'] + ("total_tok_s"@ + seq!['=']));
    assert("total_tok_s"@.len() == 11);
    reveal_strlit("peak_vram_mib");
    reveal_strlit("\npeak_vram_mib=");
    assert("\npeak_vram_mib="@ =~= seq!['\n'] + ("peak_vram_mib"@ + seq!['=']));
    assert("peak_vram_mib"@.len() == 13);
    reveal_strlit("peak_ram_mib");
    reveal_strlit("\npeak_ram_mib=");
    assert("\npeak_ram_mib="@ =~= seq!['\n'] + ("peak_ram_mib"@ + seq!['=']));
    assert("peak_ram_mib"@.len() == 12);
    reveal_strlit("output_match");
    reveal_strlit("\noutput_match=");
    assert("\noutput_match="@ =~= seq!['\n'] + ("output_match"@ + seq!['=']));
    assert("output_match"@.len() == 12);
    reveal_strlit("generated_output");
    reveal_strlit("\ngenerated_output=");
    assert("\ngenerated_output="@ =~= seq!['\n'] + ("generated_output"@ + seq!['=']));
    assert("generated_output"@.len() == 16);
}

/// One more line of a text report.
proof fn lemma_shown_line(
    lines: Seq<Seq<char>>,
    count: int,
    part: Seq<char>,
    label: Seq<char>,
    name: Seq<char>,
    value: Seq<char>,
)
    requires
        1 <= count < lines.len(),
        part == text::joined(lines.take(count), '\n'),
        label == seq!['\n'] + (name + seq!['=']),
        lines[count] == name + seq!['='] + value,
    ensures
        part + label + value == text::joined(lines.take(count + 1), '\n'),
{
    text::lemma_joined_step(lines, '\n', count);
    assert(part + label + value =~= part + seq!['\n'] + (name + seq!['='] + value));
}

/// A text report has a line for each member of the JSON report, in the same
/// order and with the same value. Where no value holds the end of a line, the
/// lines of the report are these.
pub proof fn law_text_report_shows_json_members(report: RunReport, timings: Timings)
    ensures
        ({
            let shown = shown_lines(report, timings);
            &&& shown.len() == 14
            &&& report.text_view(timings) == text::joined(shown, '\n')
            &&& (forall|i: int| 0 <= i < shown.len() ==> !(#[trigger] shown[i]).contains('\n'))
                ==> text::split(report.text_view(timings), '\n') == shown
        }),
{
    let lines = shown_lines(report, timings);
    let members = report_members(report, timings);
    lemma_labels();
    let part0 = "model="@ + report.model_path@;
    assert(lines[0] == shown_line(members[0]));
    assert(part0 =~= "model"@ + seq!['='] + report.model_path@);
    assert(lines.take(1) =~= seq![lines[0]]);
    assert(text::joined(lines.take(1), '\n') == part0);
    assert(lines[1] == shown_line(members[1]));
    lemma_shown_line(lines, 1, part0, "\nbackend="@, "backend"@, report.backend@);
    let part1 = part0 + "\nbackend="@ + report.backend@;
    assert(lines[2] == shown_line(members[2]));
    lemma_shown_line(lines, 2, part1, "\nprompt_tokens="@, "prompt_tokens"@, text::decimal(report.prompt_tokens as nat));
    let part2 = part1 + "\nprompt_tokens="@ + text::decimal(report.prompt_tokens as nat);
    assert(lines[3] == shown_line(members[3]));
    lemma_shown_line(lines, 3, part2, "\ngenerated_tokens="@, "generated_tokens"@, text::decimal(report.generated_tokens as nat));
    let part3 = part2 + "\ngenerated_tokens="@ + text::decimal(report.generated_tokens as nat);
    assert(lines[4] == shown_line(members[4]));
    lemma_shown_line(lines, 4, part3, "\nwarmup_runs="@, "warmup_runs"@, text::decimal(report.warmup_runs as nat));
    let part4 = part3 + "\nwarmup_runs="@ + text::decimal(report.warmup_runs as nat);
    assert(lines[5] == shown_line(members[5]));
    lemma_shown_line(lines, 5, part4, "\nprefill_ms="@, "prefill_ms"@, timings.prefill_ms@);
    let part5 = part4 + "\nprefill_ms="@ + timings.prefill_ms@;
    assert(lines[6] == shown_line(members[6]));
    lemma_shown_line(lines, 6, part5, "\ndecode_ms="@, "decode_ms"@, timings.decode_ms@);
    let part6 = part5 + "\ndecode_ms="@ + timings.decode_ms@;
    assert(lines[7] == shown_line(members[7]));
    lemma_shown_line(lines, 7, part6, "\nprefill_tok_s="@, "prefill_tok_s"@, timings.prefill_tok_s@);
    let part7 = part6 + "\nprefill_tok_s="@ + timings.prefill_tok_s@;
    assert(lines[8] == shown_line(members[8]));
    lemma_shown_line(lines, 8, part7, "\ndecode_tok_s="@, "decode_tok_s"@, timings.decode_tok_s@);
    let part8 = part7 + "\ndecode_tok_s="@ + timings.decode_tok_s@;
    assert(lines[9] == shown_line(members[9]));
    lemma_shown_line(lines, 9, part8, "\ntotal_tok_s="@, "total_tok_s"@, timings.total_tok_s@);
    let part9 = part8 + "\ntotal_tok_s="@ + timings.total_tok_s@;
    assert(lines[10] == shown_line(members[10]));
    lemma_shown_line(lines, 10, part9, "\npeak_vram_mib="@, "peak_vram_mib"@, text::decimal(report.peak_vram_mib as nat));
    let part10 = part9 + "\npeak_vram_mib="@ + text::decimal(report.peak_vram_mib as nat);
    assert(lines[11] == shown_line(members[11]));
    lemma_shown_line(lines, 11, part10, "\npeak_ram_mib="@, "peak_ram_mib"@, text::decimal(report.peak_ram_mib as nat));
    let part11 = part10 + "\npeak_ram_mib="@ + text::decimal(report.peak_ram_mib as nat);
    assert(lines[12] == shown_line(members[12]));
    lemma_shown_line(lines, 12, part11, "\noutput_match="@, "output_match"@, option_bool_text(report.output_match));
    let part12 = part11 + "\noutput_match="@ + option_bool_text(report.output_match);
    assert(lines[13] == shown_line(members[13]));
    lemma_shown_line(lines, 13, part12, "\ngenerated_output="@, "generated_output"@, report.generated_output@);
    let part13 = part12 + "\ngenerated_output="@ + report.generated_output@;
    assert(report.text_view(timings) == part13);
    assert(lines.take(14) =~= lines);
    if forall|i: int| 0 <= i < lines.len() ==> !(#[trigger] lines[i]).contains('\n') {
        text::law_joined_is_split(lines, '\n');
    }
}

/// Bytes add up: the sum of two parts is that of the one and that of the other.
pub proof fn law_bytes_add_up(first: Seq<u8>, second: Seq<u8>)
    ensures
        byte_sum(first + second) == byte_sum(first) + byte_sum(second),
        first.len() == 1 ==> byte_sum(first) == first[0],
    decreases second.len(),
{
    if second.len() == 0 {
        assert(first + second =~= first);
    } else {
        law_bytes_add_up(first, second.drop_last());
        assert((first + second).drop_last() =~= first + second.drop_last());
        assert((first + second).last() == second.last());
    }
    if first.len() == 1 {
        assert(first.drop_last() =~= Seq::empty());
        assert(byte_sum(first.drop_last()) == 0);
    }
}

} // verus!
