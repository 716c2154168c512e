//! The wire encoding of responses: one compact JSON document per line,
//! with the payload under `data` and the variant under `status`.

use vstd::prelude::*;

use crate::numfmt::dec_digits;
use crate::numfmt::u64_to_string;
use crate::protocol::Request;
use crate::protocol::Response;
use crate::schedule::AlertSchedule;
use crate::schedule::ScheduleView;

verus! {

/// Relies on String::push: appends exactly the one character.
#[verifier::external_body]
fn push_char(s: &mut String, c: char)
    ensures
        final(s)@ == old(s)@ + seq![c],
{
    s.push(c);
}

/// The hexadecimal digit character for a value below sixteen.
pub open spec fn hex_digit(d: int) -> char {
    if d == 0 {
        '0'
    } else if d == 1 {
        '1'
    } else if d == 2 {
        '2'
    } else if d == 3 {
        '3'
    } else if d == 4 {
        '4'
    } else if d == 5 {
        '5'
    } else if d == 6 {
        '6'
    } else if d == 7 {
        '7'
    } else if d == 8 {
        '8'
    } else if d == 9 {
        '9'
    } else if d == 10 {
        'a'
    } else if d == 11 {
        'b'
    } else if d == 12 {
        'c'
    } else if d == 13 {
        'd'
    } else if d == 14 {
        'e'
    } else {
        'f'
    }
}

/// One hexadecimal digit as a string slice.
fn hex_digit_str(d: u32) -> (r: &'static str)
    requires
        d < 16,
    ensures
        r@ =~= seq![hex_digit(d as int)],
{
    if d == 0 {
        proof { reveal_strlit("0"); }
        "0"
    } else if d == 1 {
        proof { reveal_strlit("1"); }
        "1"
    } else if d == 2 {
        proof { reveal_strlit("2"); }
        "2"
    } else if d == 3 {
        proof { reveal_strlit("3"); }
        "3"
    } else if d == 4 {
        proof { reveal_strlit("4"); }
        "4"
    } else if d == 5 {
        proof { reveal_strlit("5"); }
        "5"
    } else if d == 6 {
        proof { reveal_strlit("6"); }
        "6"
    } else if d == 7 {
        proof { reveal_strlit("7"); }
        "7"
    } else if d == 8 {
        proof { reveal_strlit("8"); }
        "8"
    } else if d == 9 {
        proof { reveal_strlit("9"); }
        "9"
    } else if d == 10 {
        proof { reveal_strlit("a"); }
        "a"
    } else if d == 11 {
        proof { reveal_strlit("b"); }
        "b"
    } else if d == 12 {
        proof { reveal_strlit("c"); }
        "c"
    } else if d == 13 {
        proof { reveal_strlit("d"); }
        "d"
    } else if d == 14 {
        proof { reveal_strlit("e"); }
        "e"
    } else {
        proof { reveal_strlit("f"); }
        "f"
    }
}

/// How one character appears inside a JSON string: quote and backslash
/// get a backslash, the named control characters their short escapes, the
/// other control characters a `\u00..` escape, everything else itself.
pub open spec fn json_escape_char(c: char) -> Seq<char> {
    if c == '"' {
        seq!['\\', '"']
    } else if c == '\\' {
        seq!['\\', '\\']
    } else if c == '\u{8}' {
        seq!['\\', 'b']
    } else if c == '\t' {
        seq!['\\', 't']
    } else if c == '\n' {
        seq!['\\', 'n']
    } else if c == '\u{c}' {
        seq!['\\', 'f']
    } else if c == '\r' {
        seq!['\\', 'r']
    } else if (c as u32) < 0x20 {
        seq!['\\', 'u', '0', '0', hex_digit((c as u32 / 16) as int), hex_digit(
            (c as u32 % 16) as int,
        )]
    } else {
        seq![c]
    }
}

/// A whole character sequence escaped for a JSON string body.
pub open spec fn json_escaped(s: Seq<char>) -> Seq<char>
    decreases s.len(),
{
    if s.len() == 0 {
        Seq::<char>::empty()
    } else {
        json_escape_char(s[0]) + json_escaped(s.drop_first())
    }
}

/// Escaping a sequence and one more character escapes the sequence and
/// appends the character's escape.
proof fn lemma_json_escaped_push(s: Seq<char>, c: char)
    ensures
        json_escaped(s.push(c)) == json_escaped(s) + json_escape_char(c),
    decreases s.len(),
{
    if s.len() == 0 {
        assert(s.push(c)[0] == c);
        assert(s.push(c).drop_first() =~= Seq::<char>::empty());
        assert(json_escaped(s) == Seq::<char>::empty());
        assert(json_escaped(s.push(c).drop_first()) == Seq::<char>::empty());
        assert(json_escaped(s.push(c)) == json_escape_char(c) + Seq::<char>::empty());
        assert(json_escape_char(c) + Seq::<char>::empty() =~= Seq::<char>::empty()
            + json_escape_char(c));
    } else {
        assert(s.push(c)[0] == s[0]);
        assert(s.push(c).drop_first() =~= s.drop_first().push(c));
        lemma_json_escaped_push(s.drop_first(), c);
        assert(json_escaped(s.push(c)) =~= json_escaped(s) + json_escape_char(c));
    }
}

/// Appends the escaped body of `s` to `out`.
fn append_escaped(out: &mut String, s: &str)
    ensures
        final(out)@ == old(out)@ + json_escaped(s@),
{
    let n = s.unicode_len();
    let mut i: usize = 0;
    while i < n
        invariant
            n == s@.len(),
            i <= n,
            out@ =~= old(out)@ + json_escaped(s@.take(i as int)),
        decreases n - i,
    {
        let ghost done = s@.take(i as int);
        let c = s.get_char(i);
        if c == '"' {
            proof { reveal_strlit("\\\""); }
            assert("\\\""@ =~= seq!['\\', '"']);
            out.append("\\\"");
        } else if c == '\\' {
            proof { reveal_strlit("\\\\"); }
            assert("\\\\"@ =~= seq!['\\', '\\']);
            out.append("\\\\");
        } else if c == '\u{8}' {
            proof { reveal_strlit("\\b"); }
            assert("\\b"@ =~= seq!['\\', 'b']);
            out.append("\\b");
        } else if c == '\t' {
            proof { reveal_strlit("\\t"); }
            assert("\\t"@ =~= seq!['\\', 't']);
            out.append("\\t");
        } else if c == '\n' {
            proof { reveal_strlit("\\n"); }
            assert("\\n"@ =~= seq!['\\', 'n']);
            out.append("\\n");
        } else if c == '\u{c}' {
            proof { reveal_strlit("\\f"); }
            assert("\\f"@ =~= seq!['\\', 'f']);
            out.append("\\f");
        } else if c == '\r' {
            proof { reveal_strlit("\\r"); }
            assert("\\r"@ =~= seq!['\\', 'r']);
            out.append("\\r");
        } else if (c as u32) < 0x20 {
            proof { reveal_strlit("\\u00"); }
            assert("\\u00"@ =~= seq!['\\', 'u', '0', '0']);
            out.append("\\u00");
            out.append(hex_digit_str((c as u32) / 16));
            out.append(hex_digit_str((c as u32) % 16));
        } else {
            push_char(out, c);
        }
        proof {
            lemma_json_escaped_push(done, c);
            assert(done.push(c) =~= s@.take(i + 1));
            assert(out@ =~= old(out)@ + json_escaped(s@.take(i + 1)));
        }
        i += 1;
    }
    proof {
        assert(s@.take(n as int) =~= s@);
    }
}

/// A JSON string: the escaped body between double quotes.
pub open spec fn json_string(s: Seq<char>) -> Seq<char> {
    seq!['"'] + json_escaped(s) + seq!['"']
}

/// Appends `s` as a JSON string to `out`.
fn append_json_string(out: &mut String, s: &str)
    ensures
        final(out)@ == old(out)@ + json_string(s@),
{
    proof { reveal_strlit("\""); }
    assert("\""@ =~= seq!['"']);
    out.append("\"");
    append_escaped(out, s);
    out.append("\"");
    proof {
        assert(out@ =~= old(out)@ + json_string(s@));
    }
}

/// One schedule as the JSON object the wire and the persisted file carry,
/// fields in declaration order.
pub open spec fn json_of_schedule(s: ScheduleView) -> Seq<char> {
    "{\"id\":"@ + dec_digits(s.id as nat) + ",\"title\":"@ + json_string(s.title)
        + ",\"message\":"@ + json_string(s.message) + ",\"repeat_interval_in_seconds\":"@
        + dec_digits(s.repeat_interval_in_seconds as nat) + ",\"stopped\":"@ + (if s.stopped {
        "true"@
    } else {
        "false"@
    }) + "}"@
}

/// Appends one schedule's JSON object to `out`.
fn append_schedule_json(out: &mut String, s: &AlertSchedule)
    ensures
        final(out)@ == old(out)@ + json_of_schedule(s@),
{
    out.append("{\"id\":");
    let id = u64_to_string(s.id);
    out.append(id.as_str());
    out.append(",\"title\":");
    append_json_string(out, s.title.as_str());
    out.append(",\"message\":");
    append_json_string(out, s.message.as_str());
    out.append(",\"repeat_interval_in_seconds\":");
    let interval = u64_to_string(s.repeat_interval_in_seconds);
    out.append(interval.as_str());
    out.append(",\"stopped\":");
    if s.stopped {
        out.append("true");
    } else {
        out.append("false");
    }
    out.append("}");
    proof {
        assert(out@ =~= old(out)@ + json_of_schedule(s@));
    }
}

/// A list of schedules as a JSON array, comma separated, in order.
pub open spec fn json_of_schedule_list(vs: Seq<ScheduleView>) -> Seq<char> {
    "["@ + json_joined(vs) + "]"@
}

/// The array body: the schedules' objects joined with commas.
pub open spec fn json_joined(vs: Seq<ScheduleView>) -> Seq<char>
    decreases vs.len(),
{
    if vs.len() == 0 {
        Seq::<char>::empty()
    } else if vs.len() == 1 {
        json_of_schedule(vs[0])
    } else {
        json_joined(vs.drop_last()) + ","@ + json_of_schedule(vs.last())
    }
}

/// Appends the schedules' JSON array to `out`.
fn append_schedule_list_json(out: &mut String, schedules: &Vec<AlertSchedule>)
    ensures
        final(out)@ == old(out)@ + json_of_schedule_list(schedules.deep_view()),
{
    out.append("[");
    let n = schedules.len();
    let mut i: usize = 0;
    while i < n
        invariant
            n == schedules.len(),
            n == schedules.deep_view().len(),
            i <= n,
            out@ =~= old(out)@ + "["@ + json_joined(schedules.deep_view().take(i as int)),
        decreases n - i,
    {
        let ghost vs = schedules.deep_view();
        if i > 0 {
            out.append(",");
        }
        append_schedule_json(out, &schedules[i]);
        proof {
            assert(vs.take(i + 1).drop_last() =~= vs.take(i as int));
            assert(vs.take(i + 1).last() == vs[i as int]);
            assert(vs[i as int] == schedules@[i as int]@);
            if i == 0 {
                assert(json_joined(vs.take(1)) =~= json_of_schedule(vs[0]));
            }
            assert(out@ =~= old(out)@ + "["@ + json_joined(vs.take(i + 1)));
        }
        i += 1;
    }
    out.append("]");
    proof {
        assert(schedules.deep_view().take(n as int) =~= schedules.deep_view());
        assert(out@ =~= old(out)@ + json_of_schedule_list(schedules.deep_view()));
    }
}

/// One response as the JSON line the daemon writes back: the payload
/// under `data`, the success or error tag under `status`.
pub open spec fn spec_response_line(r: Response) -> Seq<char> {
    match r {
        Response::Listed { schedules } => "{\"status\":\"Ok\",\"data\":{\"schedules\":"@
            + json_of_schedule_list(schedules.deep_view()) + "}}"@,
        Response::Created { schedule } => "{\"status\":\"Ok\",\"data\":{\"created\":"@
            + json_of_schedule(schedule@) + "}}"@,
        Response::Updated { schedule } => "{\"status\":\"Ok\",\"data\":{\"updated\":"@
            + json_of_schedule(schedule@) + "}}"@,
        Response::Stopped { schedule } => "{\"status\":\"Ok\",\"data\":{\"stopped\":"@
            + json_of_schedule(schedule@) + "}}"@,
        Response::Started { schedule } => "{\"status\":\"Ok\",\"data\":{\"started\":"@
            + json_of_schedule(schedule@) + "}}"@,
        Response::Removed { id } => "{\"status\":\"Ok\",\"data\":{\"removed_id\":"@ + dec_digits(
            id as nat,
        ) + "}}"@,
        Response::Error { message } => "{\"status\":\"Err\",\"data\":"@ + json_string(message@)
            + "}"@,
    }
}

/// Renders one response as its JSON line (without the line terminator).
pub fn encode_response(r: &Response) -> (line: String)
    ensures
        line@ == spec_response_line(*r),
{
    let mut out = String::new();
    match r {
        Response::Listed { schedules } => {
            out.append("{\"status\":\"Ok\",\"data\":{\"schedules\":");
            append_schedule_list_json(&mut out, schedules);
            out.append("}}");
        },
        Response::Created { schedule } => {
            out.append("{\"status\":\"Ok\",\"data\":{\"created\":");
            append_schedule_json(&mut out, schedule);
            out.append("}}");
        },
        Response::Updated { schedule } => {
            out.append("{\"status\":\"Ok\",\"data\":{\"updated\":");
            append_schedule_json(&mut out, schedule);
            out.append("}}");
        },
        Response::Stopped { schedule } => {
            out.append("{\"status\":\"Ok\",\"data\":{\"stopped\":");
            append_schedule_json(&mut out, schedule);
            out.append("}}");
        },
        Response::Started { schedule } => {
            out.append("{\"status\":\"Ok\",\"data\":{\"started\":");
            append_schedule_json(&mut out, schedule);
            out.append("}}");
        },
        Response::Removed { id } => {
            out.append("{\"status\":\"Ok\",\"data\":{\"removed_id\":");
            let digits = u64_to_string(*id);
            out.append(digits.as_str());
            out.append("}}");
        },
        Response::Error { message } => {
            out.append("{\"status\":\"Err\",\"data\":");
            append_json_string(&mut out, message.as_str());
            out.append("}");
        },
    }
    proof {
        assert(out@ =~= spec_response_line(*r));
    }
    out
}

/// The tail a request's text fields contribute to its line.
pub open spec fn spec_text_fields(
    title: Seq<char>,
    message: Seq<char>,
    interval: u64,
) -> Seq<char> {
    ",\"title\":"@ + json_string(title) + ",\"message\":"@ + json_string(message)
        + ",\"interval\":"@ + dec_digits(interval as nat)
}

/// One request as the JSON line a client sends: the kind under `type`,
/// then the fields in order.
pub open spec fn spec_request_line(r: Request) -> Seq<char> {
    match r {
        Request::Add { title, message, interval } => "{\"type\":\"Add\""@ + spec_text_fields(
            title@,
            message@,
            interval,
        ) + "}"@,
        Request::List => "{\"type\":\"List\"}"@,
        Request::Update { id, title, message, interval } => "{\"type\":\"Update\",\"id\":"@
            + dec_digits(id as nat) + spec_text_fields(title@, message@, interval) + "}"@,
        Request::Remove { id } => "{\"type\":\"Remove\",\"id\":"@ + dec_digits(id as nat) + "}"@,
        Request::Stop { id } => "{\"type\":\"Stop\",\"id\":"@ + dec_digits(id as nat) + "}"@,
        Request::Start { id } => "{\"type\":\"Start\",\"id\":"@ + dec_digits(id as nat) + "}"@,
    }
}

/// Appends `,"title":<title>,"message":<message>,"interval":<interval>`.
fn append_text_fields(out: &mut String, title: &str, message: &str, interval: u64)
    ensures
        final(out)@ == old(out)@ + spec_text_fields(title@, message@, interval),
{
    out.append(",\"title\":");
    append_json_string(out, title);
    out.append(",\"message\":");
    append_json_string(out, message);
    out.append(",\"interval\":");
    let digits = u64_to_string(interval);
    out.append(digits.as_str());
    proof {
        assert(out@ =~= old(out)@ + spec_text_fields(title@, message@, interval));
    }
}

/// Renders one request as its JSON line (without the line terminator).
pub fn encode_request(r: &Request) -> (line: String)
    ensures
        line@ == spec_request_line(*r),
{
    let mut out = String::new();
    match r {
        Request::Add { title, message, interval } => {
            out.append("{\"type\":\"Add\"");
            append_text_fields(&mut out, title.as_str(), message.as_str(), *interval);
            out.append("}");
        },
        Request::List => {
            out.append("{\"type\":\"List\"}");
        },
        Request::Update { id, title, message, interval } => {
            out.append("{\"type\":\"Update\",\"id\":");
            let digits = u64_to_string(*id);
            out.append(digits.as_str());
            append_text_fields(&mut out, title.as_str(), message.as_str(), *interval);
            out.append("}");
        },
        Request::Remove { id } => {
            out.append("{\"type\":\"Remove\",\"id\":");
            let digits = u64_to_string(*id);
            out.append(digits.as_str());
            out.append("}");
        },
        Request::Stop { id } => {
            out.append("{\"type\":\"Stop\",\"id\":");
            let digits = u64_to_string(*id);
            out.append(digits.as_str());
            out.append("}");
        },
        Request::Start { id } => {
            out.append("{\"type\":\"Start\",\"id\":");
            let digits = u64_to_string(*id);
            out.append(digits.as_str());
            out.append("}");
        },
    }
    proof {
        assert(out@ =~= spec_request_line(*r));
    }
    out
}

} // verus!
