//! What an enrichment job carries, and the text under which the queue
//! stores it: a JSON object with the fields `payload_type`, `id` and
//! `value`, in this order and without spaces.

use crate::text::{chars_of, matches_at, opt_text, stands_at};
use vstd::prelude::*;
use vstd::string::*;

verus! {

/// The kinds of enrichment job.
#[derive(Clone, Copy, Debug, PartialEq, Eq, Structural)]
pub enum PayloadType {
    /// Resolve the artist that an audio file names.
    AudioArtist,
}

/// A job: its kind, the audio record it is for, and the artist's name.
pub struct QueuePayload {
    pub payload_type: PayloadType,
    pub id: i32,
    pub value: String,
}

/// What a [`QueuePayload`] holds, as mathematical values.
pub struct PayloadView {
    pub payload_type: PayloadType,
    pub id: i32,
    pub value: Seq<char>,
}

impl View for QueuePayload {
    type V = PayloadView;

    open spec fn view(&self) -> PayloadView {
        PayloadView { payload_type: self.payload_type, id: self.id, value: self.value@ }
    }
}

/// The lower-case hexadecimal digit for a value below 16.
pub open spec fn hex_lower(value: u32) -> char {
    if value < 10 {
        (0x30 + value) as char
    } else {
        (0x57 + value) as char
    }
}

/// One character as it stands inside a JSON string: the quote, the
/// backslash and the control characters are escaped, all others stay.
pub open spec fn json_escaped_char(c: char) -> Seq<char> {
    if c == '"' {
        seq!['\\', '"']
    } else if c == '\\' {
        seq!['\\', '\\']
    } else if c == '\u{8}' {
        seq!['\\', 'b']
    } else if c == '\u{c}' {
        seq!['\\', 'f']
    } else if c == '\n' {
        seq!['\\', 'n']
    } else if c == '\r' {
        seq!['\\', 'r']
    } else if c == '\t' {
        seq!['\\', 't']
    } else if (c as u32) < 0x20 {
        seq!['\\', 'u', '0', '0', hex_lower((c as u32) / 16), hex_lower((c as u32) % 16)]
    } else {
        seq![c]
    }
}

/// A text as a JSON string: between quotes, each character escaped.
pub open spec fn json_quoted(text: Seq<char>) -> Seq<char> {
    seq!['"'] + text.map_values(|c: char| json_escaped_char(c)).flatten() + seq!['"']
}

/// `serde_json::to_string` on a string slice: the text as a compact JSON
/// string. For a string slice the call does not fail. What it writes,
/// `serde_json::from_str` reads back as the same text: the reader undoes
/// each of the writer's escapes and takes every other character as it is.
#[verifier::external_body]
fn json_quote(text: &str) -> (out: String)
    ensures
        out@ == json_quoted(text@),
        json_string_value(out@) == Some(text@),
{
    serde_json::to_string(text).unwrap_or_default()
}

/// The text that `serde_json::from_str` reads from a JSON string, or `None`
/// where it rejects the input.
pub uninterp spec fn json_string_value(text: Seq<char>) -> Option<Seq<char>>;

/// `serde_json::from_str` for a `String`.
#[verifier::external_body]
fn json_unquote(text: &str) -> (out: Option<String>)
    ensures
        opt_text(out) == json_string_value(text@),
{
    serde_json::from_str::<String>(text).ok()
}

/// The decimal digits of a natural number, without leading zeros.
pub open spec fn decimal_digits(n: nat) -> Seq<char>
    decreases n,
{
    if n < 10 {
        seq![(0x30 + n) as char]
    } else {
        decimal_digits(n / 10).push((0x30 + n % 10) as char)
    }
}

/// An integer in decimal, with a minus sign where it is negative.
pub open spec fn decimal(value: int) -> Seq<char> {
    if value < 0 {
        seq!['-'] + decimal_digits((-value) as nat)
    } else {
        decimal_digits(value as nat)
    }
}

/// `serde_json::to_string` on an `i32`: the number in decimal. For an
/// integer the call does not fail. What it writes, `serde_json::from_str`
/// reads back as the same number.
#[verifier::external_body]
fn json_number(value: i32) -> (out: String)
    ensures
        out@ == decimal(value as int),
        json_i32_value(out@) == Some(value),
{
    serde_json::to_string(&value).unwrap_or_default()
}

/// The number that `serde_json::from_str` reads as an `i32`, or `None`
/// where it rejects the input.
pub uninterp spec fn json_i32_value(text: Seq<char>) -> Option<i32>;

/// `serde_json::from_str` for an `i32`.
#[verifier::external_body]
fn json_parse_number(text: &str) -> (out: Option<i32>)
    ensures
        out == json_i32_value(text@),
{
    serde_json::from_str::<i32>(text).ok()
}

/// The name under which a kind of job is written.
pub open spec fn kind_name(kind: PayloadType) -> Seq<char> {
    match kind {
        PayloadType::AudioArtist => "AudioArtist"@,
    }
}

/// The text of a job up to its id.
pub open spec fn head_text(kind: PayloadType) -> Seq<char> {
    "{\"payload_type\":"@ + json_quoted(kind_name(kind)) + ",\"id\":"@
}

/// The text under which a job is stored.
pub open spec fn payload_text(payload: PayloadView) -> Seq<char> {
    head_text(payload.payload_type) + decimal(payload.id as int) + ",\"value\":"@ + json_quoted(
        payload.value,
    ) + "}"@
}

/// Whether position `k` holds the first comma of `body`.
pub open spec fn first_comma(body: Seq<char>, k: int) -> bool {
    &&& 0 <= k < body.len()
    &&& body[k] == ','
    &&& forall|j: int| 0 <= j < k ==> body[j] != ','
}

/// The job of kind `kind` that a stored text stands for. The text must begin
/// with the head of that kind and end with a closing brace; what lies
/// between is cut at its first comma into the id and, behind `,"value":`,
/// the value, each read as `serde_json` reads it.
pub open spec fn parsed_as(kind: PayloadType, text: Seq<char>) -> Option<PayloadView> {
    let head = head_text(kind);
    if stands_at(text, 0, head) && head.len() < text.len() && text.last() == '}' {
        let body = text.subrange(head.len() as int, text.len() - 1);
        if exists|k: int| first_comma(body, k) {
            let k = choose|k: int| first_comma(body, k);
            if stands_at(body, k, ",\"value\":"@) {
                match (
                    json_i32_value(body.take(k)),
                    json_string_value(body.skip(k + ",\"value\":"@.len())),
                ) {
                    (Some(id), Some(value)) => Some(
                        PayloadView { payload_type: kind, id, value },
                    ),
                    _ => None,
                }
            } else {
                None
            }
        } else {
            None
        }
    } else {
        None
    }
}

/// The job that a stored text stands for, if it stands for one.
pub open spec fn parsed_payload(text: Seq<char>) -> Option<PayloadView> {
    parsed_as(PayloadType::AudioArtist, text)
}

/// The text of a job of this kind up to its id.
fn head_of(kind: PayloadType) -> (head: String)
    ensures
        head@ == head_text(kind),
{
    let name = match kind {
        PayloadType::AudioArtist => "AudioArtist",
    };
    let mut head = String::from_str("{\"payload_type\":");
    head.append(json_quote(name).as_str());
    head.append(",\"id\":");
    head
}

impl QueuePayload {
    /// The text under which this job is stored. It is read back as this
    /// job.
    pub fn to_json(&self) -> (text: String)
        ensures
            text@ == payload_text(self@),
            parsed_payload(text@) == Some(self@),
    {
        let mut text = head_of(self.payload_type);
        text.append(json_number(self.id).as_str());
        text.append(",\"value\":");
        text.append(json_quote(self.value.as_str()).as_str());
        text.append("}");
        proof {
            law_written_job_is_read(self@);
        }
        text
    }

    /// Reads a stored text back; `None` where it is not the text of a job.
    pub fn from_json(text: &str) -> (payload: Option<QueuePayload>)
        ensures
            match payload {
                Some(p) => parsed_payload(text@) == Some(p@),
                None => parsed_payload(text@) is None,
            },
    {
        let kind = PayloadType::AudioArtist;
        let chars = chars_of(text);
        let head = chars_of(head_of(kind).as_str());
        let n = chars.len();
        let h = head.len();
        if !matches_at(&chars, 0, &head) || h >= n || chars[n - 1] != '}' {
            return None;
        }
        let ghost body = text@.subrange(h as int, n - 1);
        let mut k: usize = h;
        while k < n - 1 && chars[k] != ','
            invariant
                h <= k <= n - 1,
                n == chars@.len(),
                chars@ == text@,
                body == text@.subrange(h as int, n - 1),
                forall|j: int| 0 <= j < k - h ==> body[j] != ',',
            decreases n - k,
        {
            k += 1;
        }
        if k >= n - 1 {
            return None;
        }
        assert(first_comma(body, k - h));
        proof {
            let at = choose|j: int| first_comma(body, j);
        }
        let middle = chars_of(",\"value\":");
        let m = middle.len();
        if !matches_at(&chars, k, &middle) || m > n - 1 - k {
            proof {
                if stands_at(body, k - h, middle@) {
                    assert(text@.subrange(k as int, k + m) =~= body.subrange(k - h, k - h + m));
                }
            }
            return None;
        }
        assert(body.subrange(k - h, k - h + m) =~= text@.subrange(k as int, k + m));
        let number = text.substring_char(h, k);
        let quoted = text.substring_char(k + m, n - 1);
        assert(number@ =~= body.take(k - h));
        assert(quoted@ =~= body.skip(k - h + m));
        match (json_parse_number(number), json_unquote(quoted)) {
            (Some(id), Some(value)) => Some(QueuePayload { payload_type: kind, id, value }),
            _ => None,
        }
    }

    /// A copy of this job.
    pub fn duplicate(&self) -> (copy: QueuePayload)
        ensures
            copy@ == self@,
    {
        QueuePayload { payload_type: self.payload_type, id: self.id, value: self.value.clone() }
    }
}

/// The decimal form of a number is not empty and holds no comma.
pub proof fn lemma_decimal_digits_plain(n: nat)
    ensures
        decimal_digits(n).len() > 0,
        forall|i: int| 0 <= i < decimal_digits(n).len() ==> decimal_digits(n)[i] != ',',
    decreases n,
{
    if n >= 10 {
        lemma_decimal_digits_plain(n / 10);
    }
}

/// The frame of a job is cut where it was put together: a written job is
/// read back as it was, given that `serde_json` reads back the id and the
/// value that it wrote. [`QueuePayload::to_json`] has that from the two
/// writers, for the job that it writes.
pub proof fn law_written_job_is_read(payload: PayloadView)
    ensures
        json_i32_value(decimal(payload.id as int)) == Some(payload.id) && json_string_value(
            json_quoted(payload.value),
        ) == Some(payload.value) ==> parsed_payload(payload_text(payload)) == Some(payload),
{
    let head = head_text(payload.payload_type);
    let number = decimal(payload.id as int);
    let middle = ",\"value\":"@;
    let quoted = json_quoted(payload.value);
    let text = payload_text(payload);
    reveal_strlit("}");
    reveal_strlit(",\"value\":");
    if payload.id < 0 {
        lemma_decimal_digits_plain((-payload.id) as nat);
    } else {
        lemma_decimal_digits_plain(payload.id as nat);
    }
    assert(text.subrange(0, head.len() as int) =~= head);
    let body = text.subrange(head.len() as int, text.len() - 1);
    let cut = number.len() as int;
    assert(first_comma(body, cut));
    assert(body.subrange(cut, cut + middle.len()) =~= middle);
    assert(body.take(cut) =~= number);
    assert(body.skip(cut + middle.len()) =~= quoted);
}

} // verus!
