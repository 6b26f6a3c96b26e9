//! Incremental parser for a Server-Sent Events body, as read by the client
//! SDK's event stream: bytes arrive in chunks, lines are split on LF, CR or
//! CRLF, `data` fields are collected and a blank line dispatches them.
use vstd::prelude::*;
use vstd::slice::*;
use vstd::string::*;
use vstd::utf8::*;

use crate::text::{char_vec, index_of_from, lemma_index_of_from};

verus! {

broadcast use vstd::string::group_string_axioms;

/// Whether a byte ends a line.
pub open spec fn is_line_break(b: u8) -> bool {
    b == 10 || b == 13
}

/// Index of the first line break in `buf` at or after `from`, or `buf.len()`.
pub open spec fn first_break(buf: Seq<u8>, from: int) -> int
    decreases buf.len() - from,
{
    if from >= buf.len() {
        buf.len() as int
    } else if is_line_break(buf[from]) {
        from
    } else {
        first_break(buf, from + 1)
    }
}

/// The first line break at or after `from` is one, and none comes before it.
pub proof fn lemma_first_break(buf: Seq<u8>, from: int)
    requires
        0 <= from <= buf.len(),
    ensures
        from <= first_break(buf, from) <= buf.len(),
        first_break(buf, from) < buf.len() ==> is_line_break(buf[first_break(buf, from)]),
        forall|j: int| from <= j < first_break(buf, from) ==> !is_line_break(#[trigger] buf[j]),
    decreases buf.len() - from,
{
    if from < buf.len() && !is_line_break(buf[from]) {
        lemma_first_break(buf, from + 1);
    }
}

/// The next complete line of `buf`: the length of its content and the number
/// of bytes it takes up with its terminator. A lone CR at the end of the
/// buffer waits for more input (it may be the first half of CRLF); at the end
/// of the stream an unterminated rest is a line of its own.
pub open spec fn spec_next_line(buf: Seq<u8>, end_of_stream: bool) -> Option<(int, int)> {
    let k = first_break(buf, 0);
    if k < buf.len() {
        if buf[k] == 10 {
            Some((k, k + 1))
        } else if k + 1 == buf.len() && !end_of_stream {
            None
        } else if k + 1 < buf.len() && buf[k + 1] == 10 {
            Some((k, k + 2))
        } else {
            Some((k, k + 1))
        }
    } else if end_of_stream && buf.len() > 0 {
        Some((buf.len() as int, buf.len() as int))
    } else {
        None
    }
}

/// A line found in a buffer lies within it: either a terminator follows the
/// line and is consumed with it, or the line runs to the buffer's end.
pub proof fn lemma_next_line_bounds(buf: Seq<u8>, end_of_stream: bool)
    ensures
        spec_next_line(buf, end_of_stream) matches Some((n, c)) ==> 0 <= n < c <= buf.len() || (0
            < n == c == buf.len()),
{
    lemma_first_break(buf, 0);
}

/// The field name and value of a non-comment line: the text before the first
/// colon and the text after it, less one leading space; a line without a
/// colon is a field name with an empty value.
pub open spec fn line_field(line: Seq<char>) -> (Seq<char>, Seq<char>) {
    let k = index_of_from(line, ':', 0);
    if k < line.len() {
        let value = line.skip(k + 1);
        (
            line.take(k),
            if value.len() > 0 && value[0] == ' ' {
                value.skip(1)
            } else {
                value
            },
        )
    } else {
        (line, Seq::empty())
    }
}

pub open spec fn data_field_name() -> Seq<char> {
    seq!['d', 'a', 't', 'a']
}

/// The `data` values of one event joined with line feeds.
pub open spec fn join_lines(list: Seq<Seq<char>>) -> Seq<char>
    decreases list.len(),
{
    if list.len() == 0 {
        Seq::empty()
    } else if list.len() == 1 {
        list[0]
    } else {
        join_lines(list.drop_last()) + seq!['\n'] + list.last()
    }
}

/// Dispatching the collected data: nothing when there is none, else one
/// payload, and the collection starts over.
pub open spec fn spec_dispatch(data: Seq<Seq<char>>) -> (Seq<Seq<char>>, Option<Seq<char>>) {
    if data.len() == 0 {
        (data, None)
    } else {
        (Seq::empty(), Some(join_lines(data)))
    }
}

/// The effect of one line on the collected data, and the payload it
/// dispatches, if any.
pub open spec fn apply_line(data: Seq<Seq<char>>, line: Seq<char>) -> (
    Seq<Seq<char>>,
    Option<Seq<char>>,
) {
    if line.len() == 0 {
        spec_dispatch(data)
    } else if line[0] == ':' {
        (data, None)
    } else if line_field(line).0 == data_field_name() {
        (data.push(line_field(line).1), None)
    } else {
        (data, None)
    }
}

/// The outcome of feeding a buffer through the parser.
pub struct Feed {
    pub payloads: Seq<Seq<char>>,
    pub buffer: Seq<u8>,
    pub data: Seq<Seq<char>>,
    pub ok: bool,
}

pub open spec fn prepend_payload(p: Option<Seq<char>>, f: Feed) -> Feed {
    match p {
        Some(p) => Feed { payloads: seq![p] + f.payloads, ..f },
        None => f,
    }
}

/// Consuming every complete line of `buf`: the payloads dispatched, the
/// bytes left over and the data collected. A line that is not UTF-8 stops
/// the parse (`ok` is false) with that line still in the buffer.
pub open spec fn feed(buf: Seq<u8>, data: Seq<Seq<char>>, end_of_stream: bool) -> Feed
    decreases buf.len(),
{
    match spec_next_line(buf, end_of_stream) {
        None => Feed { payloads: Seq::empty(), buffer: buf, data, ok: true },
        Some((n, c)) => {
            if !valid_utf8(buf.take(n)) {
                Feed { payloads: Seq::empty(), buffer: buf, data, ok: false }
            } else {
                proof {
                    lemma_next_line_bounds(buf, end_of_stream);
                }
                let step = apply_line(data, decode_utf8(buf.take(n)));
                prepend_payload(step.1, feed(buf.skip(c), step.0, end_of_stream))
            }
        },
    }
}

/// What a call of `push` returns, given the parser's state before it.
pub open spec fn push_result(
    buffer: Seq<u8>,
    data: Seq<Seq<char>>,
    chunk: Seq<u8>,
    end_of_stream: bool,
) -> Option<Seq<Seq<char>>> {
    let f = feed(buffer + chunk, data, end_of_stream);
    if !f.ok {
        None
    } else if end_of_stream {
        match spec_dispatch(f.data).1 {
            Some(p) => Some(f.payloads.push(p)),
            None => Some(f.payloads),
        }
    } else {
        Some(f.payloads)
    }
}

/// The parser's state after a call of `push`.
pub open spec fn push_state(
    buffer: Seq<u8>,
    data: Seq<Seq<char>>,
    chunk: Seq<u8>,
    end_of_stream: bool,
) -> (Seq<u8>, Seq<Seq<char>>) {
    let f = feed(buffer + chunk, data, end_of_stream);
    if f.ok && end_of_stream {
        (f.buffer, spec_dispatch(f.data).0)
    } else {
        (f.buffer, f.data)
    }
}

/// A line of the event stream was not UTF-8.
#[derive(Debug, Clone, Copy, PartialEq, Eq)]
pub struct InvalidStreamData;

/// Parser state between chunks: the bytes of an unfinished line and the
/// `data` values of the event being read.
pub struct EventStreamParser {
    buffer: Vec<u8>,
    data: Vec<String>,
}

impl View for EventStreamParser {
    type V = (Seq<u8>, Seq<Seq<char>>);

    closed spec fn view(&self) -> (Seq<u8>, Seq<Seq<char>>) {
        (self.buffer@, self.data@.map_values(|s: String| s@))
    }
}

impl Default for EventStreamParser {
    fn default() -> (parser: Self)
        ensures
            parser@.0 == Seq::<u8>::empty(),
            parser@.1 == Seq::<Seq<char>>::empty(),
    {
        EventStreamParser { buffer: Vec::new(), data: Vec::new() }
    }
}

/// Decodes one line; `None` when the bytes are not UTF-8.
/// Calls `std::str::from_utf8`, which, as its documentation says, accepts
/// exactly the valid UTF-8 byte sequences and yields the characters they encode.
#[verifier::external_body]
fn decode_line(bytes: &[u8]) -> (res: Option<String>)
    ensures
        res is Some <==> valid_utf8(bytes@),
        res matches Some(s) ==> s@ == decode_utf8(bytes@),
{
    std::str::from_utf8(bytes).ok().map(str::to_owned)
}

/// The next line of `buffer`, with the number of bytes it takes up (see
/// `spec_next_line`).
pub fn next_line(buffer: &[u8], end_of_stream: bool) -> (res: Option<(&[u8], usize)>)
    ensures
        match spec_next_line(buffer@, end_of_stream) {
            Some((n, c)) => res matches Some((line, consumed)) && line@ == buffer@.take(n)
                && consumed == c,
            None => res is None,
        },
{
    let len = buffer.len();
    let mut index: usize = 0;
    proof {
        lemma_first_break(buffer@, 0);
    }
    while index < len
        invariant
            len == buffer@.len(),
            index <= first_break(buffer@, 0),
            first_break(buffer@, 0) <= len,
            forall|j: int| 0 <= j < first_break(buffer@, 0) ==> !is_line_break(#[trigger] buffer@[j]),
            first_break(buffer@, 0) < len ==> is_line_break(buffer@[first_break(buffer@, 0)]),
        decreases len - index,
    {
        let byte = buffer[index];
        if byte == 10u8 {
            return Some((slice_subrange(buffer, 0, index), index + 1));
        }
        if byte == 13u8 {
            if index + 1 == len && !end_of_stream {
                return None;
            }
            let consumed = if index + 1 < len && buffer[index + 1] == 10u8 {
                index + 2
            } else {
                index + 1
            };
            return Some((slice_subrange(buffer, 0, index), consumed));
        }
        index = index + 1;
    }
    if end_of_stream && len > 0 {
        Some((buffer, len))
    } else {
        None
    }
}

impl EventStreamParser {
    /// Appends `chunk` to the buffered bytes and consumes every complete line,
    /// returning the payloads of the events that ended; at the end of the
    /// stream the event being read is dispatched too.
    pub fn push(&mut self, chunk: &[u8], end_of_stream: bool) -> (res: Result<
        Vec<String>,
        InvalidStreamData,
    >)
        ensures
            match push_result(old(self)@.0, old(self)@.1, chunk@, end_of_stream) {
                Some(p) => res matches Ok(v) && v@.map_values(|s: String| s@) == p,
                None => res is Err,
            },
            final(self)@ == push_state(old(self)@.0, old(self)@.1, chunk@, end_of_stream),
    {
        let ghost total = old(self)@.0 + chunk@;
        let ghost data0 = old(self)@.1;
        let mut i: usize = 0;
        while i < chunk.len()
            invariant
                self.data@ == old(self).data@,
                i <= chunk@.len(),
                self.buffer@ == old(self)@.0 + chunk@.take(i as int),
            decreases chunk@.len() - i,
        {
            self.buffer.push(chunk[i]);
            proof {
                assert(chunk@.take(i + 1) == chunk@.take(i as int).push(chunk@[i as int]));
            }
            i = i + 1;
        }
        proof {
            assert(chunk@.take(chunk@.len() as int) == chunk@);
        }
        let mut payloads: Vec<String> = Vec::new();
        loop
            invariant_except_break
                total == old(self)@.0 + chunk@,
                data0 == old(self)@.1,
                feed(total, data0, end_of_stream) == (Feed {
                    payloads: payloads@.map_values(|s: String| s@) + feed(
                        self@.0,
                        self@.1,
                        end_of_stream,
                    ).payloads,
                    ..feed(self@.0, self@.1, end_of_stream)
                }),
            ensures
                total == old(self)@.0 + chunk@,
                data0 == old(self)@.1,
                feed(total, data0, end_of_stream) == (Feed {
                    payloads: payloads@.map_values(|s: String| s@),
                    buffer: self@.0,
                    data: self@.1,
                    ok: true,
                }),
            decreases self@.0.len(),
        {
            let ghost before = self@;
            let next = next_line(self.buffer.as_slice(), end_of_stream);
            match next {
                None => {
                    proof {
                        assert(payloads@.map_values(|s: String| s@) + Seq::<Seq<char>>::empty()
                            =~= payloads@.map_values(|s: String| s@));
                    }
                    break;
                },
                Some((line_bytes, consumed)) => {
                    let decoded = decode_line(line_bytes);
                    match decoded {
                        None => {
                            proof {
                                assert(payloads@.map_values(|s: String| s@) + Seq::<Seq<char>>::empty()
                                    =~= payloads@.map_values(|s: String| s@));
                                assert(!valid_utf8(line_bytes@));
                                assert(feed(before.0, before.1, end_of_stream) == Feed {
                                    payloads: Seq::empty(),
                                    buffer: before.0,
                                    data: before.1,
                                    ok: false,
                                });
                            }
                            return Err(InvalidStreamData);
                        },
                        Some(line) => {
                            proof {
                                lemma_next_line_bounds(before.0, end_of_stream);
                            }
                            let ghost n = line_bytes@.len() as int;
                            let ghost step = apply_line(before.1, line@);
                            assert(feed(before.0, before.1, end_of_stream) == prepend_payload(
                                step.1,
                                feed(before.0.skip(consumed as int), step.0, end_of_stream),
                            ));
                            let rest = self.buffer.split_off(consumed);
                            self.buffer = rest;
                            let dispatched = self.consume_line(line.as_str());
                            let ghost p_before = payloads@.map_values(|s: String| s@);
                            proof {
                                assert(self@.0 =~= before.0.skip(consumed as int));
                                assert(self@.1 == step.0);
                            }
                            match dispatched {
                                Some(payload) => {
                                    payloads.push(payload);
                                    proof {
                                        assert(payloads@.map_values(|s: String| s@) =~= p_before.push(payload@));
                                        let f = feed(self@.0, self@.1, end_of_stream);
                                        assert(p_before + (seq![payload@] + f.payloads) =~= p_before.push(payload@) + f.payloads);
                                    }
                                },
                                None => {},
                            }
                        },
                    }
                },
            }
        }
        if end_of_stream {
            let last = self.dispatch();
            match last {
                Some(payload) => {
                    payloads.push(payload);
                },
                None => {},
            }
        }
        Ok(payloads)
    }

    /// Applies one decoded line to the event being read.
    pub fn consume_line(&mut self, line: &str) -> (res: Option<String>)
        ensures
            (final(self)@.1, res.deep_view()) == apply_line(old(self)@.1, line@),
            final(self)@.0 == old(self)@.0,
    {
        let chars = char_vec(line);
        let len = chars.len();
        if len == 0 {
            return self.dispatch();
        }
        if chars[0] == ':' {
            return None;
        }
        let mut k: usize = 0;
        proof {
            lemma_index_of_from(line@, ':', 0);
        }
        while k < len && chars[k] != ':'
            invariant
                chars@ == line@,
                len == line@.len(),
                k <= index_of_from(line@, ':', 0),
                forall|j: int| 0 <= j < index_of_from(line@, ':', 0) ==> #[trigger] line@[j] != ':',
                index_of_from(line@, ':', 0) <= len,
                index_of_from(line@, ':', 0) < len ==> line@[index_of_from(line@, ':', 0)] == ':',
            decreases len - k,
        {
            k = k + 1;
        }
        let is_data = k == 4 && chars[0] == 'd' && chars[1] == 'a' && chars[2] == 't' && chars[3]
            == 'a';
        proof {
            assert(line_field(line@).0 == line@.take(k as int));
            if is_data {
                assert(line@.take(k as int) =~= data_field_name());
            } else if k == 4 {
                assert(line@.take(4) != data_field_name()) by {
                    if line@.take(4) == data_field_name() {
                        assert(line@.take(4)[0] == 'd');
                        assert(line@.take(4)[1] == 'a');
                        assert(line@.take(4)[2] == 't');
                        assert(line@.take(4)[3] == 'a');
                    }
                }
            } else {
                assert(line@.take(k as int).len() != data_field_name().len());
            }
        }
        if is_data {
            let start = if k < len && k + 1 < len && chars[k + 1] == ' ' {
                k + 2
            } else if k < len {
                k + 1
            } else {
                len
            };
            let value = line.substring_char(start, len).to_owned();
            proof {
                if k < len {
                    let v = line@.skip(k + 1);
                    if k + 1 < len && chars@[k + 1] == ' ' {
                        assert(v.skip(1) =~= line@.subrange(start as int, len as int));
                    } else {
                        assert(v =~= line@.subrange(start as int, len as int));
                    }
                } else {
                    assert(line@.subrange(start as int, len as int) =~= Seq::<char>::empty());
                }
            }
            let ghost before = self@.1;
            self.data.push(value);
            proof {
                assert(self@.1 =~= before.push(value@));
            }
        }
        None
    }

    /// Ends the event being read: its data joined with line feeds, if it has any.
    pub fn dispatch(&mut self) -> (res: Option<String>)
        ensures
            (final(self)@.1, res.deep_view()) == spec_dispatch(old(self)@.1),
            final(self)@.0 == old(self)@.0,
    {
        let n = self.data.len();
        if n == 0 {
            return None;
        }
        let mut joined = String::new();
        let mut i: usize = 0;
        let ghost list = self@.1;
        while i < n
            invariant
                n == self.data@.len(),
                list == self@.1,
                0 <= i <= n,
                joined@ == join_lines(list.take(i as int)),
            decreases n - i,
        {
            if i > 0 {
                let separator = "\n";
                proof {
                    reveal_strlit("\n");
                }
                joined.append(separator);
            }
            joined.append(self.data[i].as_str());
            proof {
                let t = list.take(i + 1);
                assert(t.drop_last() =~= list.take(i as int));
                assert(t.last() == list[i as int]);
                if i == 0 {
                    assert(list.take(0) =~= Seq::<Seq<char>>::empty());
                }
            }
            i = i + 1;
        }
        proof {
            assert(list.take(n as int) =~= list);
        }
        self.data = Vec::new();
        proof {
            assert(self@.1 =~= Seq::<Seq<char>>::empty());
        }
        Some(joined)
    }
}


/// A status the stream endpoint answers with an error: 4xx or 5xx.
pub fn is_error_status(status: u16) -> (res: bool)
    ensures
        res == (400 <= status <= 599),
{
    400 <= status && status <= 599
}

/// Whether a `Content-Type` (empty where there is none) announces an event
/// stream: it starts with `text/event-stream` in any ASCII case.
pub fn is_event_stream_content_type(content_type: &str) -> (res: bool)
    ensures
        res == (content_type@.len() >= 17 && crate::text::eq_ignore_ascii_case(
            content_type@.take(17),
            "text/event-stream"@,
        )),
{
    let expected = "text/event-stream";
    let chars = char_vec(content_type);
    let wanted = char_vec(expected);
    proof {
        reveal_strlit("text/event-stream");
    }
    if chars.len() < wanted.len() {
        return false;
    }
    let mut i: usize = 0;
    while i < wanted.len()
        invariant
            wanted@ == "text/event-stream"@,
            wanted@.len() == 17,
            chars@ == content_type@,
            chars@.len() >= 17,
            i <= 17,
            forall|k: int| 0 <= k < i ==> crate::text::ascii_lower_code(#[trigger] chars@[k])
                == crate::text::ascii_lower_code(wanted@[k]),
        decreases 17 - i,
    {
        if crate::text::ascii_lower(chars[i]) != crate::text::ascii_lower(wanted[i]) {
            proof {
                assert(content_type@.take(17)[i as int] == chars@[i as int]);
                assert("text/event-stream"@[i as int] == wanted@[i as int]);
                assert(crate::text::ascii_lower_code(content_type@.take(17)[i as int])
                    != crate::text::ascii_lower_code("text/event-stream"@[i as int]));
            }
            return false;
        }
        i = i + 1;
    }
    proof {
        assert forall|k: int| 0 <= k < 17 implies crate::text::ascii_lower_code(
            #[trigger] content_type@.take(17)[k],
        ) == crate::text::ascii_lower_code("text/event-stream"@[k]) by {
            assert(content_type@.take(17)[k] == chars@[k]);
        }
    }
    true
}

/// The message of a response that is no event stream.
pub fn unexpected_content_type_message(content_type: &str) -> (res: String)
    ensures
        res@ == "unexpected stream Content-Type: "@ + content_type@,
{
    let mut message = String::new();
    message.append("unexpected stream Content-Type: ");
    message.append(content_type);
    message
}

proof fn lemma_first_break_at(s: Seq<u8>, from: int, k: int)
    requires
        0 <= from <= k < s.len(),
        is_line_break(s[k]),
        forall|j: int| from <= j < k ==> !is_line_break(#[trigger] s[j]),
    ensures
        first_break(s, from) == k,
    decreases k - from,
{
    if from < k {
        lemma_first_break_at(s, from + 1, k);
    }
}

/// A line found before the end of the stream is found the same way once
/// more bytes follow, whether or not the stream has ended by then.
proof fn lemma_next_line_extends(u: Seq<u8>, b: Seq<u8>, end_of_stream: bool)
    requires
        spec_next_line(u, false) is Some,
    ensures
        spec_next_line(u + b, end_of_stream) == spec_next_line(u, false),
{
    lemma_first_break(u, 0);
    let k = first_break(u, 0);
    let s = u + b;
    assert(k < u.len());
    assert forall|j: int| 0 <= j < k implies !is_line_break(#[trigger] s[j]) by {
        assert(s[j] == u[j]);
    }
    assert(s[k] == u[k]);
    lemma_first_break_at(s, 0, k);
    if u[k] == 13 && k + 1 < u.len() {
        assert(s[k + 1] == u[k + 1]);
    }
}

/// Feeding a buffer with more bytes after it consumes the buffer's lines
/// first (as found before the end of the stream), then whatever the rest and
/// the new bytes make, the end of the stream included where it has come.
proof fn lemma_feed_concat(u: Seq<u8>, data: Seq<Seq<char>>, b: Seq<u8>, end_of_stream: bool)
    requires
        feed(u, data, false).ok,
    ensures
        ({
            let f1 = feed(u, data, false);
            let f2 = feed(f1.buffer + b, f1.data, end_of_stream);
            feed(u + b, data, end_of_stream) == Feed {
                payloads: f1.payloads + f2.payloads,
                buffer: f2.buffer,
                data: f2.data,
                ok: f2.ok,
            }
        }),
    decreases u.len(),
{
    let f1 = feed(u, data, false);
    match spec_next_line(u, false) {
        None => {
            assert(f1.payloads =~= Seq::<Seq<char>>::empty());
            let f2 = feed(u + b, data, end_of_stream);
            assert(f1.payloads + f2.payloads =~= f2.payloads);
        },
        Some((n, c)) => {
            lemma_next_line_bounds(u, false);
            lemma_next_line_extends(u, b, end_of_stream);
            assert(valid_utf8(u.take(n)));
            assert((u + b).take(n) =~= u.take(n));
            assert((u + b).skip(c) =~= u.skip(c) + b);
            let step = apply_line(data, decode_utf8(u.take(n)));
            lemma_feed_concat(u.skip(c), step.0, b, end_of_stream);
            let rest1 = feed(u.skip(c), step.0, false);
            let f2 = feed(rest1.buffer + b, rest1.data, end_of_stream);
            match step.1 {
                Some(p) => {
                    assert(seq![p] + (rest1.payloads + f2.payloads) =~= (seq![p] + rest1.payloads)
                        + f2.payloads);
                },
                None => {},
            }
        },
    }
}

/// Law: where the body is cut into chunks makes no difference: pushing one
/// chunk before the end of the stream and then another (which may end the
/// stream) leaves the parser as pushing both at once does, with the same
/// end-of-stream flag, and yields the same payloads in the same order.
pub proof fn lemma_chunk_boundaries_invisible(
    buffer: Seq<u8>,
    data: Seq<Seq<char>>,
    first: Seq<u8>,
    second: Seq<u8>,
    end_of_stream: bool,
)
    requires
        push_result(buffer, data, first, false) is Some,
    ensures
        ({
            let (buffer1, data1) = push_state(buffer, data, first, false);
            &&& push_state(buffer, data, first + second, end_of_stream) == push_state(
                buffer1,
                data1,
                second,
                end_of_stream,
            )
            &&& push_result(buffer, data, first + second, end_of_stream) == match push_result(
                buffer1,
                data1,
                second,
                end_of_stream,
            ) {
                Some(later) => Some(push_result(buffer, data, first, false)->0 + later),
                None => None::<Seq<Seq<char>>>,
            }
        }),
{
    assert(buffer + (first + second) =~= (buffer + first) + second);
    lemma_feed_concat(buffer + first, data, second, end_of_stream);
    let f1 = feed(buffer + first, data, false);
    let f2 = feed(f1.buffer + second, f1.data, end_of_stream);
    if f2.ok && end_of_stream {
        match spec_dispatch(f2.data).1 {
            Some(p) => {
                assert((f1.payloads + f2.payloads).push(p) =~= f1.payloads + f2.payloads.push(p));
            },
            None => {},
        }
    }
}
} // verus!
