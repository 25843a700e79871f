//! Output protocol of the isolated subprocess, and the compute parts of the
//! execution runner.
//!
//! A subprocess may wrap a structured result record between a fixed start
//! sentinel and a fixed end sentinel anywhere in its output, or leave it as
//! the last non-blank line. Whatever fails to parse is folded into a
//! synthesized result.

use serde_json::Value;
use vstd::prelude::*;

use crate::error::NuClawResult;
use crate::text::find_spec;
use crate::text::find_str;
use crate::text::is_blank;
use crate::text::is_space;
use crate::text::is_space_char;
use crate::text::lemma_find_from;
use crate::text::trim_spec;
use crate::text::trim_str;
use crate::types::ContainerOutput;
use crate::types::ContainerOutputView;

verus! {

/// The sentinel that opens a structured result record.
pub open spec fn start_marker() -> Seq<char> {
    "--NANOCLAW_OUTPUT_START--"@
}

/// The sentinel that closes a structured result record.
pub open spec fn end_marker() -> Seq<char> {
    "--NANOCLAW_OUTPUT_END--"@
}

/// The start sentinel as written to the stream.
pub fn output_start_marker() -> (r: &'static str)
    ensures
        r@ == start_marker(),
{
    "--NANOCLAW_OUTPUT_START--"
}

/// The end sentinel as written to the stream.
pub fn output_end_marker() -> (r: &'static str)
    ensures
        r@ == end_marker(),
{
    "--NANOCLAW_OUTPUT_END--"
}

/// The text standing strictly between the first start sentinel and the
/// first end sentinel, when the start sentinel ends before the end
/// sentinel begins; an end sentinel at or before the start sentinel is
/// no match.
pub open spec fn extract_marked_spec(output: Seq<char>) -> Option<Seq<char>> {
    match (find_spec(output, start_marker()), find_spec(output, end_marker())) {
        (Some(s), Some(e)) => if s < e && s + start_marker().len() <= e {
            Some(output.subrange(s + start_marker().len(), e))
        } else {
            None
        },
        _ => None,
    }
}

/// What the subprocess's structured result record reads as, if the
/// candidate text is one; a name for what `serde_json` decides.
pub uninterp spec fn record_of(s: Seq<char>) -> Option<ContainerOutputView>;

/// Relies on serde_json::from_str: whether a candidate string is a record
/// of the output protocol — a JSON object with a string `status` and
/// optional string-or-null `result`, `new_session_id` and `error`
/// members — and what those members hold, depend on the characters
/// alone. A present member of any other shape makes the candidate no
/// record.
#[verifier::external_body]
fn parse_record_json(s: &str) -> (r: Option<ContainerOutput>)
    ensures
        match r {
            Some(o) => record_of(s@) == Some(o@),
            None => record_of(s@) is None,
        },
{
    let v: Value = serde_json::from_str(s).ok()?;
    let status = match &v["status"] { Value::String(x) => x.clone(), _ => return None };
    let result = match &v["result"] { Value::String(x) => Some(x.clone()), Value::Null => None, _ => return None };
    let new_session_id = match &v["new_session_id"] { Value::String(x) => Some(x.clone()), Value::Null => None, _ => return None };
    let error = match &v["error"] { Value::String(x) => Some(x.clone()), Value::Null => None, _ => return None };
    Some(ContainerOutput { status, result, new_session_id, error })
}

/// Search the output for a sentinel-wrapped section and hand back what
/// stands strictly between the sentinels.
pub fn extract_marked_output(output: &str) -> (r: Option<String>)
    ensures
        match r {
            Some(c) => extract_marked_spec(output@) == Some(c@),
            None => extract_marked_spec(output@) is None,
        },
{
    let start = output_start_marker();
    let s_idx = match find_str(output, start) {
        Some(i) => i,
        None => {
            return None;
        },
    };
    let e_idx = match find_str(output, output_end_marker()) {
        Some(i) => i,
        None => {
            return None;
        },
    };
    let n = output.unicode_len();
    proof {
        lemma_find_from(output@, start_marker(), 0);
        lemma_find_from(output@, end_marker(), 0);
    }
    let s_end = s_idx + start.unicode_len();
    if s_idx < e_idx && s_end <= e_idx {
        Some(output.substring_char(s_end, e_idx).to_owned())
    } else {
        None
    }
}

/// The index right after the last newline of `t`, or zero when `t` holds
/// none.
pub open spec fn last_line_start(t: Seq<char>) -> int
    decreases t.len(),
{
    if t.len() == 0 {
        0
    } else if t[t.len() - 1] == '\n' {
        t.len() as int
    } else {
        last_line_start(t.take(t.len() - 1))
    }
}

proof fn lemma_last_line_start_at(t: Seq<char>, k: int)
    requires
        0 <= k <= t.len(),
        forall|j: int| k <= j < t.len() ==> t[j] != '\n',
        k > 0 ==> t[k - 1] == '\n',
    ensures
        last_line_start(t) == k,
    decreases t.len(),
{
    if t.len() == 0 {
    } else if t[t.len() - 1] == '\n' {
        assert(k == t.len());
    } else {
        assert(k < t.len());
        lemma_last_line_start_at(t.take(t.len() - 1), k);
    }
}

/// The last line of the output whose trimmed text is non-empty, trimmed;
/// nothing when every line is blank.
pub open spec fn last_nonblank_line_spec(t: Seq<char>) -> Seq<char>
    decreases t.len(),
{
    if t.len() == 0 {
        Seq::<char>::empty()
    } else {
        let k0 = last_line_start(t);
        let k = if 0 <= k0 <= t.len() {
            k0
        } else {
            0
        };
        let line = t.skip(k);
        if !is_blank(line) {
            trim_spec(line)
        } else if k == 0 {
            Seq::<char>::empty()
        } else {
            last_nonblank_line_spec(t.take(k - 1))
        }
    }
}

fn is_blank_str(s: &str) -> (r: bool)
    ensures
        r == is_blank(s@),
{
    let n = s.unicode_len();
    let mut i: usize = 0;
    while i < n
        invariant
            0 <= i <= n,
            n == s@.len(),
            forall|j: int| 0 <= j < i ==> is_space(s@[j]),
        decreases n - i,
    {
        if !is_space_char(s.get_char(i)) {
            return false;
        }
        i += 1;
    }
    true
}

/// Walk the output backwards line by line and hand back the last line
/// whose trimmed text is non-empty, trimmed.
pub fn last_nonblank_line(output: &str) -> (r: String)
    ensures
        r@ == last_nonblank_line_spec(output@),
{
    let n = output.unicode_len();
    let mut end: usize = n;
    proof {
        assert(output@.take(n as int) =~= output@);
    }
    loop
        invariant
            0 <= end <= n,
            n == output@.len(),
            last_nonblank_line_spec(output@) == last_nonblank_line_spec(
                output@.take(end as int),
            ),
        decreases end,
    {
        if end == 0 {
            return String::new();
        }
        let ghost t = output@.take(end as int);
        let mut k: usize = end;
        while k > 0 && output.get_char(k - 1) != '\n'
            invariant
                0 <= k <= end,
                end <= n,
                n == output@.len(),
                forall|j: int| k <= j < end ==> output@[j] != '\n',
            decreases k,
        {
            k -= 1;
        }
        proof {
            assert(forall|j: int| k <= j < t.len() ==> t[j] == output@[j]);
            lemma_last_line_start_at(t, k as int);
        }
        let line = output.substring_char(k, end);
        proof {
            assert(line@ =~= t.skip(k as int));
        }
        if !is_blank_str(line) {
            let r = trim_str(line);
            return r.to_owned();
        }
        if k == 0 {
            return String::new();
        }
        proof {
            assert(output@.take(end as int).take(k - 1) =~= output@.take(k - 1));
        }
        end = k - 1;
    }
}

/// The result synthesized when no structured record can be read: on a
/// successful exit, a success carrying the raw text as its result; on a
/// failed exit, an error carrying no result and a generic message.
pub open spec fn synth_view(text: Seq<char>, success: bool) -> ContainerOutputView {
    if success {
        ContainerOutputView {
            status: "success"@,
            result: Some(text),
            new_session_id: None,
            error: None,
        }
    } else {
        ContainerOutputView {
            status: "error"@,
            result: None,
            new_session_id: None,
            error: Some("Container execution failed"@),
        }
    }
}

fn synthesize_output(text: &str, success: bool) -> (r: ContainerOutput)
    ensures
        r@ == synth_view(text@, success),
{
    if success {
        ContainerOutput {
            status: "success".to_owned(),
            result: Some(text.to_owned()),
            new_session_id: None,
            error: None,
        }
    } else {
        ContainerOutput {
            status: "error".to_owned(),
            result: None,
            new_session_id: None,
            error: Some("Container execution failed".to_owned()),
        }
    }
}

/// What parsing a candidate record on its own yields: the record it
/// holds, or a result synthesized from the candidate's raw text. The
/// full parser does not stop here: a sentinel-wrapped section that is no
/// record falls through to the last non-blank line instead.
pub open spec fn parse_marked_spec(content: Seq<char>, success: bool) -> ContainerOutputView {
    match record_of(content) {
        Some(v) => v,
        None => synth_view(content, success),
    }
}

/// Parse one candidate record, synthesizing from the candidate itself
/// when it is no record.
pub fn parse_marked_content(content: &str, success: bool) -> (r: NuClawResult<ContainerOutput>)
    ensures
        r matches Ok(o) && o@ == parse_marked_spec(content@, success),
{
    match parse_record_json(content) {
        Some(o) => Ok(o),
        None => Ok(synthesize_output(content, success)),
    }
}

/// What the output protocol parser yields for a full captured output,
/// by the first applicable rule: the record between the sentinels; else
/// the record on the last non-blank line; else a result synthesized from
/// the whole raw output. A sentinel-wrapped section whose text is no
/// record falls through like an absent pair.
pub open spec fn parse_output_spec(output: Seq<char>, success: bool) -> ContainerOutputView {
    let marked = match extract_marked_spec(output) {
        Some(content) => record_of(content),
        None => None,
    };
    match marked {
        Some(v) => v,
        None => match record_of(last_nonblank_line_spec(output)) {
            Some(v) => v,
            None => synth_view(output, success),
        },
    }
}

/// Decode a subprocess's captured output and exit signal into a
/// structured result.
pub fn parse_container_output(output: &str, success: bool, duration_ms: i64) -> (r: NuClawResult<
    ContainerOutput,
>)
    ensures
        r matches Ok(o) && o@ == parse_output_spec(output@, success),
{
    if let Some(content) = extract_marked_output(output) {
        if let Some(parsed) = parse_record_json(content.as_str()) {
            return Ok(parsed);
        }
    }
    let last_line = last_nonblank_line(output);
    if let Some(parsed) = parse_record_json(last_line.as_str()) {
        return Ok(parsed);
    }
    Ok(synthesize_output(output, success))
}

/// A well-formed sentinel pair around text that reads as a record makes
/// the parser return that record exactly, whatever stands before the
/// start sentinel or after the end sentinel.
pub proof fn lemma_marked_record_returned(
    output: Seq<char>,
    success: bool,
    content: Seq<char>,
    v: ContainerOutputView,
)
    requires
        extract_marked_spec(output) == Some(content),
        record_of(content) == Some(v),
    ensures
        parse_output_spec(output, success) == v,
{
}

/// A sentinel pair whose text between the sentinels is no record does
/// not decide the result: the parser falls through to the last non-blank
/// line, and past it to a result synthesized from the whole raw output.
pub proof fn lemma_malformed_marked_falls_through(
    output: Seq<char>,
    success: bool,
    content: Seq<char>,
)
    requires
        extract_marked_spec(output) == Some(content),
        record_of(content) is None,
    ensures
        parse_output_spec(output, success) == (match record_of(last_nonblank_line_spec(output)) {
            Some(v) => v,
            None => synth_view(output, success),
        }),
{
}

/// An end sentinel standing at or before the start sentinel is no match:
/// the parser ignores the pair and the last non-blank line decides.
pub proof fn lemma_end_before_start_falls_through(
    output: Seq<char>,
    success: bool,
    s: int,
    e: int,
)
    requires
        find_spec(output, start_marker()) == Some(s),
        find_spec(output, end_marker()) == Some(e),
        e <= s,
    ensures
        extract_marked_spec(output) is None,
        parse_output_spec(output, success) == (match record_of(last_nonblank_line_spec(output)) {
            Some(v) => v,
            None => synth_view(output, success),
        }),
{
}

/// The hexadecimal digit character for `d`.
pub open spec fn hex_digit(d: int) -> char {
    if d == 0 {
        '0'
    } else if d == 1 {
        '1'
    } else if d == 2 {
        '2'
    } else if d == 3 {
        '3'
    } else if d == 4 {
        '4'
    } else if d == 5 {
        '5'
    } else if d == 6 {
        '6'
    } else if d == 7 {
        '7'
    } else if d == 8 {
        '8'
    } else if d == 9 {
        '9'
    } else if d == 10 {
        'a'
    } else if d == 11 {
        'b'
    } else if d == 12 {
        'c'
    } else if d == 13 {
        'd'
    } else if d == 14 {
        'e'
    } else {
        'f'
    }
}

fn hex_digit_str(d: u32) -> (r: &'static str)
    requires
        d < 16,
    ensures
        r@ == seq![hex_digit(d as int)],
{
    if d == 0 {
        proof {
            reveal_strlit("0");
            assert("0"@ =~= seq![hex_digit(0)]);
        }
        "0"
    } else if d == 1 {
        proof {
            reveal_strlit("1");
            assert("1"@ =~= seq![hex_digit(1)]);
        }
        "1"
    } else if d == 2 {
        proof {
            reveal_strlit("2");
            assert("2"@ =~= seq![hex_digit(2)]);
        }
        "2"
    } else if d == 3 {
        proof {
            reveal_strlit("3");
            assert("3"@ =~= seq![hex_digit(3)]);
        }
        "3"
    } else if d == 4 {
        proof {
            reveal_strlit("4");
            assert("4"@ =~= seq![hex_digit(4)]);
        }
        "4"
    } else if d == 5 {
        proof {
            reveal_strlit("5");
            assert("5"@ =~= seq![hex_digit(5)]);
        }
        "5"
    } else if d == 6 {
        proof {
            reveal_strlit("6");
            assert("6"@ =~= seq![hex_digit(6)]);
        }
        "6"
    } else if d == 7 {
        proof {
            reveal_strlit("7");
            assert("7"@ =~= seq![hex_digit(7)]);
        }
        "7"
    } else if d == 8 {
        proof {
            reveal_strlit("8");
            assert("8"@ =~= seq![hex_digit(8)]);
        }
        "8"
    } else if d == 9 {
        proof {
            reveal_strlit("9");
            assert("9"@ =~= seq![hex_digit(9)]);
        }
        "9"
    } else if d == 10 {
        proof {
            reveal_strlit("a");
            assert("a"@ =~= seq![hex_digit(10)]);
        }
        "a"
    } else if d == 11 {
        proof {
            reveal_strlit("b");
            assert("b"@ =~= seq![hex_digit(11)]);
        }
        "b"
    } else if d == 12 {
        proof {
            reveal_strlit("c");
            assert("c"@ =~= seq![hex_digit(12)]);
        }
        "c"
    } else if d == 13 {
        proof {
            reveal_strlit("d");
            assert("d"@ =~= seq![hex_digit(13)]);
        }
        "d"
    } else if d == 14 {
        proof {
            reveal_strlit("e");
            assert("e"@ =~= seq![hex_digit(14)]);
        }
        "e"
    } else {
        proof {
            reveal_strlit("f");
            assert("f"@ =~= seq![hex_digit(15)]);
        }
        "f"
    }
}

/// How one character is written inside a JSON string literal.
pub open spec fn esc_char(c: char) -> Seq<char> {
    if c == '"' {
        "\\\""@
    } else if c == '\\' {
        "\\\\"@
    } else if c == '\n' {
        "\\n"@
    } else if c == '\r' {
        "\\r"@
    } else if c == '\t' {
        "\\t"@
    } else if (c as u32) < 32 {
        "\\u00"@ + seq![hex_digit((c as int) / 16), hex_digit((c as int) % 16)]
    } else {
        seq![c]
    }
}

/// The body of a JSON string literal holding exactly the text `s`.
pub open spec fn json_escape(s: Seq<char>) -> Seq<char>
    decreases s.len(),
{
    if s.len() == 0 {
        Seq::<char>::empty()
    } else {
        esc_char(s[0]) + json_escape(s.skip(1))
    }
}

proof fn lemma_json_escape_concat(a: Seq<char>, b: Seq<char>)
    ensures
        json_escape(a + b) == json_escape(a) + json_escape(b),
    decreases a.len(),
{
    if a.len() == 0 {
        assert(a + b =~= b);
        assert(json_escape(a) + json_escape(b) =~= json_escape(b));
    } else {
        assert((a + b).skip(1) =~= a.skip(1) + b);
        lemma_json_escape_concat(a.skip(1), b);
        assert(esc_char(a[0]) + (json_escape(a.skip(1)) + json_escape(b)) =~= (esc_char(a[0])
            + json_escape(a.skip(1))) + json_escape(b));
        assert((a + b)[0] == a[0]);
    }
}

proof fn lemma_json_escape_snoc(s: Seq<char>, i: int)
    requires
        0 <= i < s.len(),
    ensures
        json_escape(s.take(i + 1)) == json_escape(s.take(i)) + esc_char(s[i]),
{
    assert(s.take(i + 1) =~= s.take(i) + seq![s[i]]);
    lemma_json_escape_concat(s.take(i), seq![s[i]]);
    let t = seq![s[i]];
    assert(t.len() == 1 && t[0] == s[i]);
    assert(t.skip(1) =~= Seq::<char>::empty());
    assert(json_escape(Seq::<char>::empty()) == Seq::<char>::empty());
    assert(json_escape(t) == esc_char(s[i]) + json_escape(t.skip(1)));
    assert(esc_char(s[i]) + Seq::<char>::empty() =~= esc_char(s[i]));
    assert(json_escape(t) =~= esc_char(s[i]));
}

/// Write `s` as the body of a JSON string literal.
pub fn json_escape_str(s: &str) -> (r: String)
    ensures
        r@ == json_escape(s@),
{
    let n = s.unicode_len();
    let mut out = String::new();
    let mut i: usize = 0;
    while i < n
        invariant
            0 <= i <= n,
            n == s@.len(),
            out@ == json_escape(s@.take(i as int)),
        decreases n - i,
    {
        let c = s.get_char(i);
        if c == '"' {
            out.append("\\\"");
        } else if c == '\\' {
            out.append("\\\\");
        } else if c == '\n' {
            out.append("\\n");
        } else if c == '\r' {
            out.append("\\r");
        } else if c == '\t' {
            out.append("\\t");
        } else if (c as u32) < 32 {
            out.append("\\u00");
            out.append(hex_digit_str((c as u32) / 16));
            out.append(hex_digit_str((c as u32) % 16));
        } else {
            let one = s.substring_char(i, i + 1);
            proof {
                assert(one@ =~= seq![s@[i as int]]);
            }
            out.append(one);
        }
        proof {
            lemma_json_escape_snoc(s@, i as int);
        }
        i += 1;
    }
    proof {
        assert(s@.take(n as int) =~= s@);
    }
    out
}

/// `true` or `false`, as JSON writes it.
pub open spec fn bool_str(b: bool) -> Seq<char> {
    if b {
        "true"@
    } else {
        "false"@
    }
}

/// The tasks handoff document: one record naming the execution, its
/// prompt, and whether it runs on a schedule.
pub open spec fn current_tasks_json_spec(id: Seq<char>, prompt: Seq<char>, is_scheduled: bool) -> Seq<
    char,
> {
    "{\"tasks\":[{\"id\":\""@ + json_escape(id) + "\",\"prompt\":\""@ + json_escape(prompt)
        + "\",\"is_scheduled\":"@ + bool_str(is_scheduled) + "}]}"@
}

/// The groups handoff document: the one target group, registered.
pub open spec fn available_groups_json_spec(folder: Seq<char>) -> Seq<char> {
    "{\"groups\":{\""@ + json_escape(folder) + "\":{\"name\":\""@ + json_escape(folder)
        + "\",\"registered\":true}}}"@
}

/// Render the tasks handoff document for one execution; an execution
/// without a session identifier is named `interactive`.
pub fn render_current_tasks_json(session_id: &Option<String>, prompt: &str, is_scheduled: bool) -> (r:
    String)
    ensures
        r@ == current_tasks_json_spec(
            match *session_id {
                Some(s) => s@,
                None => "interactive"@,
            },
            prompt@,
            is_scheduled,
        ),
{
    let mut out = "{\"tasks\":[{\"id\":\"".to_owned();
    let id_esc = match session_id {
        Some(s) => json_escape_str(s.as_str()),
        None => json_escape_str("interactive"),
    };
    out.append(id_esc.as_str());
    out.append("\",\"prompt\":\"");
    let prompt_esc = json_escape_str(prompt);
    out.append(prompt_esc.as_str());
    out.append("\",\"is_scheduled\":");
    if is_scheduled {
        out.append("true");
    } else {
        out.append("false");
    }
    out.append("}]}");
    out
}

/// Render the groups handoff document for the target group.
pub fn render_available_groups_json(folder: &str) -> (r: String)
    ensures
        r@ == available_groups_json_spec(folder@),
{
    let mut out = "{\"groups\":{\"".to_owned();
    let folder_esc = json_escape_str(folder);
    out.append(folder_esc.as_str());
    out.append("\":{\"name\":\"");
    out.append(folder_esc.as_str());
    out.append("\",\"registered\":true}}}");
    out
}

/// The marker appended when capture stops early.
pub open spec fn truncation_marker() -> Seq<char> {
    "\n[OUTPUT TRUNCATED - exceeded max size]"@
}

/// Add one captured line to the buffer and report whether capture must
/// stop: a line that would push the buffer past the ceiling is dropped
/// and the truncation marker appended instead.
pub fn accumulate_output_line(buf: &mut String, line: &str, max_size: usize) -> (stop: bool)
    ensures
        stop == (old(buf)@.len() + line@.len() > max_size),
        final (buf)@ == if stop {
            old(buf)@ + truncation_marker()
        } else {
            old(buf)@ + line@ + "\n"@
        },
{
    let bl = buf.as_str().unicode_len();
    let ll = line.unicode_len();
    if ll > max_size || bl > max_size - ll {
        buf.append("\n[OUTPUT TRUNCATED - exceeded max size]");
        true
    } else {
        buf.append(line);
        buf.append("\n");
        false
    }
}

/// The name of the transient file the serialized request is written to.
pub fn input_file_name(session_id: &Option<String>) -> (r: String)
    ensures
        r@ == "input_"@ + (match *session_id {
            Some(s) => s@,
            None => "default"@,
        }) + ".json"@,
{
    let mut out = "input_".to_owned();
    match session_id {
        Some(s) => out.append(s.as_str()),
        None => out.append("default"),
    }
    out.append(".json");
    out
}

} // verus!
