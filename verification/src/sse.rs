//! Framing of a server-sent event stream.
//!
//! The stream is text. A block ends at the first blank line (two line feeds in
//! a row). Within a block, the last line that starts with `data:` carries the
//! payload, a JSON object; every other line is ignored. A block without a
//! payload, or whose payload describes no event, is skipped.

use crate::event::{decode, event_of, payload_of_members, read_payload, EventView, VoiceEvent};
use crate::json::{json_members, parse_document, FieldView};
use crate::text::{chars_of, decode_lossy, lossy_text, trim, trim_range};
use vstd::prelude::*;
use vstd::string::{StrSliceExecFns, StringExecFns};
use vstd::utf8::{decode_utf8, valid_utf8};

verus! {

/// Why a block gave no event.
#[derive(Debug, Clone, Copy, PartialEq, Eq, Structural)]
pub enum SseError {
    /// No line of the block starts with `data:`.
    MissingDataLine,
    /// The payload is not JSON, or the JSON describes none of the events.
    MalformedPayload,
}

impl SseError {
    /// A description of the error for people to read.
    pub fn message(&self) -> (r: String)
        ensures
            r@ == match *self {
                SseError::MissingDataLine => "missing data line"@,
                SseError::MalformedPayload => "JSON deserialization failed"@,
            },
    {
        match self {
            SseError::MissingDataLine => String::from_str("missing data line"),
            SseError::MalformedPayload => String::from_str("JSON deserialization failed"),
        }
    }
}

/// Where the last line of `s` starts: just after the last line feed, or at 0.
pub open spec fn line_start(s: Seq<char>) -> int
    decreases s.len(),
{
    if s.len() == 0 || s.last() == '\n' {
        s.len() as int
    } else {
        line_start(s.drop_last())
    }
}

/// Whether a trimmed line carries a payload.
pub open spec fn is_data_line(line: Seq<char>) -> bool {
    line.len() >= 5 && line[0] == 'd' && line[1] == 'a' && line[2] == 't' && line[3] == 'a'
        && line[4] == ':'
}

/// The payload of a block: what follows `data:` on the last line that starts
/// with it, both the line and the payload taken without surrounding white
/// space. `None` where no line starts with `data:`.
pub open spec fn payload_of(block: Seq<char>) -> Option<Seq<char>>
    decreases block.len(),
{
    let k = line_start(block);
    let line = trim(block.skip(k));
    if is_data_line(line) {
        Some(trim(line.skip(5)))
    } else if 0 < k <= block.len() {
        payload_of(block.take(k - 1))
    } else {
        None
    }
}

/// The event that a parsed payload stands for.
pub open spec fn payload_event(doc: Option<Map<Seq<char>, FieldView>>) -> Result<
    EventView,
    SseError,
> {
    match doc {
        None => Err(SseError::MalformedPayload),
        Some(m) => match event_of(payload_of_members(m)) {
            Some(e) => Ok(e),
            None => Err(SseError::MalformedPayload),
        },
    }
}

/// The event that a block stands for, or why it stands for none.
pub open spec fn block_event(block: Seq<char>) -> Result<EventView, SseError> {
    match payload_of(block) {
        None => Err(SseError::MissingDataLine),
        Some(p) => payload_event(json_members(p)),
    }
}

/// Whether `r` is what `expected` says, up to the view.
pub open spec fn parsed_as(r: Result<VoiceEvent, SseError>, expected: Result<EventView, SseError>) -> bool {
    match r {
        Ok(e) => expected == Ok::<EventView, SseError>(e@),
        Err(x) => expected == Err::<EventView, SseError>(x),
    }
}

/// Finds the payload of the block `lo..hi` of `v`, as a range of `v`.
fn find_payload(v: &Vec<char>, lo: usize, hi: usize) -> (r: Option<(usize, usize)>)
    requires
        lo <= hi <= v.len(),
    ensures
        match r {
            Some((a, b)) => lo <= a <= b <= hi && payload_of(v@.subrange(lo as int, hi as int))
                == Some(v@.subrange(a as int, b as int)),
            None => payload_of(v@.subrange(lo as int, hi as int)) is None,
        },
{
    let mut end: usize = hi;
    loop
        invariant
            lo <= end <= hi <= v.len(),
            payload_of(v@.subrange(lo as int, hi as int)) == payload_of(
                v@.subrange(lo as int, end as int),
            ),
        decreases end - lo,
    {
        let ghost block = v@.subrange(lo as int, end as int);
        let mut k: usize = end;
        while k > lo && v[k - 1] != '\n'
            invariant
                lo <= k <= end <= v.len(),
                line_start(block) == line_start(v@.subrange(lo as int, k as int)),
            decreases k - lo,
        {
            assert(v@.subrange(lo as int, k as int).drop_last() =~= v@.subrange(lo as int, k - 1));
            k -= 1;
        }
        assert(line_start(block) == k - lo);
        assert(block.skip(k - lo) =~= v@.subrange(k as int, end as int));
        let (a, b) = trim_range(v, k, end);
        if b - a >= 5 && v[a] == 'd' && v[a + 1] == 'a' && v[a + 2] == 't' && v[a + 3] == 'a' && v[a
            + 4] == ':' {
            assert(v@.subrange(a as int, b as int).skip(5) =~= v@.subrange(a + 5, b as int));
            let (pa, pb) = trim_range(v, a + 5, b);
            return Some((pa, pb));
        }
        if k == lo {
            return None;
        }
        assert(block.take(k - lo - 1) =~= v@.subrange(lo as int, k - 1));
        end = k - 1;
    }
}

/// The payload of the block `raw`, if it has one.
pub fn extract_payload(raw: &str) -> (r: Option<String>)
    ensures
        match r {
            Some(p) => payload_of(raw@) == Some(p@),
            None => payload_of(raw@) is None,
        },
{
    let chars = chars_of(raw);
    assert(chars@.subrange(0, chars@.len() as int) =~= raw@);
    match find_payload(&chars, 0, chars.len()) {
        Some((a, b)) => Some(raw.substring_char(a, b).to_owned()),
        None => None,
    }
}

/// Parses a payload and reads the event it describes.
pub fn decode_payload(payload: &str) -> (r: Result<VoiceEvent, SseError>)
    ensures
        parsed_as(r, payload_event(json_members(payload@))),
{
    match parse_document(payload) {
        None => Err(SseError::MalformedPayload),
        Some(doc) => match decode(read_payload(&doc)) {
            Some(e) => Ok(e),
            None => Err(SseError::MalformedPayload),
        },
    }
}

/// Parses the block `lo..hi` of `text`, whose characters are `chars`.
fn parse_range(text: &str, chars: &Vec<char>, lo: usize, hi: usize) -> (r: Result<
    VoiceEvent,
    SseError,
>)
    requires
        chars@ == text@,
        lo <= hi <= chars.len(),
    ensures
        parsed_as(r, block_event(text@.subrange(lo as int, hi as int))),
{
    match find_payload(chars, lo, hi) {
        None => Err(SseError::MissingDataLine),
        Some((a, b)) => decode_payload(text.substring_char(a, b)),
    }
}

/// Parses one complete block, without its terminating blank line, into the
/// event it stands for.
pub fn parse_sse_event(raw: &str) -> (r: Result<VoiceEvent, SseError>)
    ensures
        parsed_as(r, block_event(raw@)),
{
    let chars = chars_of(raw);
    assert(raw@.subrange(0, chars@.len() as int) =~= raw@);
    parse_range(raw, &chars, 0, chars.len())
}

/// Whether a blank line, two line feeds in a row, starts at `i` in `s`.
pub open spec fn is_break(s: Seq<char>, i: int) -> bool {
    0 <= i && i + 1 < s.len() && s[i] == '\n' && s[i + 1] == '\n'
}

/// Whether `s` holds a complete block.
pub open spec fn has_break(s: Seq<char>) -> bool {
    exists|i: int| is_break(s, i)
}

/// Where the first blank line of `s` starts.
pub open spec fn first_break(s: Seq<char>) -> int {
    choose|i: int| is_break(s, i) && forall|j: int| 0 <= j < i ==> !is_break(s, j)
}

/// The events of one block: one, or none where the block is skipped.
pub open spec fn block_events(block: Seq<char>) -> Seq<EventView> {
    match block_event(block) {
        Ok(e) => seq![e],
        Err(_) => Seq::empty(),
    }
}

/// The events of the complete blocks of `s`, in order.
#[verifier::opaque]
pub open spec fn events_of(s: Seq<char>) -> Seq<EventView>
    decreases s.len(),
{
    let i = first_break(s);
    if has_break(s) && 0 <= i && i + 2 <= s.len() {
        block_events(s.take(i)) + events_of(s.skip(i + 2))
    } else {
        Seq::empty()
    }
}

/// What is left of `s` after its complete blocks.
#[verifier::opaque]
pub open spec fn remainder(s: Seq<char>) -> Seq<char>
    decreases s.len(),
{
    let i = first_break(s);
    if has_break(s) && 0 <= i && i + 2 <= s.len() {
        remainder(s.skip(i + 2))
    } else {
        s
    }
}

/// The views of a sequence of events.
pub open spec fn event_views(events: Seq<VoiceEvent>) -> Seq<EventView> {
    Seq::new(events.len(), |i: int| events[i]@)
}

proof fn lemma_least_break(s: Seq<char>, w: int)
    requires
        is_break(s, w),
    ensures
        exists|i: int| is_break(s, i) && forall|j: int| 0 <= j < i ==> !is_break(s, j),
    decreases w,
{
    if exists|j: int| 0 <= j < w && is_break(s, j) {
        let j = choose|j: int| 0 <= j < w && is_break(s, j);
        lemma_least_break(s, j);
    } else {
        assert(is_break(s, w) && forall|j: int| 0 <= j < w ==> !is_break(s, j));
    }
}

/// Where `s` holds a blank line, `first_break(s)` is the first.
pub proof fn lemma_first_break_is_least(s: Seq<char>)
    requires
        has_break(s),
    ensures
        is_break(s, first_break(s)),
        forall|j: int| 0 <= j < first_break(s) ==> !is_break(s, j),
{
    let w = choose|i: int| is_break(s, i);
    lemma_least_break(s, w);
}

/// A blank line with none before it is the first.
pub proof fn lemma_first_break_at(s: Seq<char>, i: int)
    requires
        is_break(s, i),
        forall|j: int| 0 <= j < i ==> !is_break(s, j),
    ensures
        has_break(s),
        first_break(s) == i,
{
    lemma_first_break_is_least(s);
}

/// Text without a blank line holds no event and is left over whole.
pub proof fn lemma_partial_block(s: Seq<char>)
    requires
        !has_break(s),
    ensures
        events_of(s) == Seq::<EventView>::empty(),
        remainder(s) == s,
{
    reveal(events_of);
    reveal(remainder);
}

/// The first block of `s` ends at its first blank line; the rest of `s` is
/// framed on its own.
pub proof fn lemma_first_block(s: Seq<char>, i: int)
    requires
        is_break(s, i),
        forall|j: int| 0 <= j < i ==> !is_break(s, j),
    ensures
        events_of(s) == block_events(s.take(i)) + events_of(s.skip(i + 2)),
        remainder(s) == remainder(s.skip(i + 2)),
{
    lemma_first_break_at(s, i);
    reveal(events_of);
    reveal(remainder);
}

/// What is left after the complete blocks holds no complete block.
pub proof fn lemma_remainder_is_partial(s: Seq<char>)
    ensures
        !has_break(remainder(s)),
    decreases s.len(),
{
    if has_break(s) {
        lemma_first_break_is_least(s);
        let i = first_break(s);
        lemma_first_block(s, i);
        lemma_remainder_is_partial(s.skip(i + 2));
    } else {
        lemma_partial_block(s);
    }
}

/// Split-boundary invariance, for one split: the events of `s + t` are those
/// of `s`, followed by those of `t` appended to what `s` left over; and both
/// ways leave the same text over.
pub proof fn lemma_split_invariance(s: Seq<char>, t: Seq<char>)
    ensures
        events_of(s + t) == events_of(s) + events_of(remainder(s) + t),
        remainder(s + t) == remainder(remainder(s) + t),
    decreases s.len(),
{
    if has_break(s) {
        lemma_first_break_is_least(s);
        let i = first_break(s);
        let u = s + t;
        assert(is_break(u, i));
        assert forall|j: int| 0 <= j < i implies !is_break(u, j) by {
            if is_break(u, j) {
                assert(is_break(s, j));
            }
        }
        lemma_first_block(s, i);
        lemma_first_block(u, i);
        assert(u.take(i) =~= s.take(i));
        assert(u.skip(i + 2) =~= s.skip(i + 2) + t);
        lemma_split_invariance(s.skip(i + 2), t);
        let head = block_events(s.take(i));
        let mid = events_of(s.skip(i + 2));
        let last = events_of(remainder(s) + t);
        assert(head + (mid + last) =~= (head + mid) + last);
    } else {
        lemma_partial_block(s);
        assert(Seq::<EventView>::empty() + events_of(s + t) =~= events_of(s + t));
    }
}

/// Chunks put together into one text.
pub open spec fn concat(chunks: Seq<Seq<char>>) -> Seq<char>
    decreases chunks.len(),
{
    if chunks.len() == 0 {
        Seq::empty()
    } else {
        chunks[0] + concat(chunks.skip(1))
    }
}

/// The events that a framer holding `buffer` returns for `chunks`, fed one by
/// one, all calls together.
pub open spec fn fed_events(buffer: Seq<char>, chunks: Seq<Seq<char>>) -> Seq<EventView>
    decreases chunks.len(),
{
    if chunks.len() == 0 {
        Seq::empty()
    } else {
        events_of(buffer + chunks[0]) + fed_events(
            remainder(buffer + chunks[0]),
            chunks.skip(1),
        )
    }
}

/// Split-boundary invariance: however a text is cut into chunks, feeding the
/// chunks one by one returns, all calls together, the events of the text.
pub proof fn lemma_partition_invariance(buffer: Seq<char>, chunks: Seq<Seq<char>>)
    requires
        !has_break(buffer),
    ensures
        fed_events(buffer, chunks) == events_of(buffer + concat(chunks)),
    decreases chunks.len(),
{
    if chunks.len() == 0 {
        assert(buffer + concat(chunks) =~= buffer);
        lemma_partial_block(buffer);
    } else {
        let first = buffer + chunks[0];
        let rest = concat(chunks.skip(1));
        lemma_remainder_is_partial(first);
        lemma_partition_invariance(remainder(first), chunks.skip(1));
        lemma_split_invariance(first, rest);
        assert(first + rest =~= buffer + concat(chunks));
    }
}

/// Two ways of cutting one text into chunks give a fresh framer the same
/// events.
pub proof fn lemma_partitions_agree(one: Seq<Seq<char>>, other: Seq<Seq<char>>)
    requires
        concat(one) == concat(other),
    ensures
        fed_events(Seq::empty(), one) == fed_events(Seq::empty(), other),
{
    let none = Seq::<char>::empty();
    assert(!has_break(none));
    lemma_partition_invariance(none, one);
    lemma_partition_invariance(none, other);
}

/// The blank line that ends a block.
pub open spec fn separator() -> Seq<char> {
    seq!['\n', '\n']
}

/// Whether `block` ends where it is written to end: neither its text nor the
/// line feed after it completes a blank line.
pub open spec fn is_framed(block: Seq<char>) -> bool {
    !has_break(block.push('\n'))
}

/// The stream that carries `blocks`, each followed by a blank line.
pub open spec fn stream_of(blocks: Seq<Seq<char>>) -> Seq<char>
    decreases blocks.len(),
{
    if blocks.len() == 0 {
        Seq::empty()
    } else {
        blocks[0] + separator() + stream_of(blocks.skip(1))
    }
}

/// The events of `blocks`, one block after the other.
pub open spec fn events_of_blocks(blocks: Seq<Seq<char>>) -> Seq<EventView>
    decreases blocks.len(),
{
    if blocks.len() == 0 {
        Seq::empty()
    } else {
        block_events(blocks[0]) + events_of_blocks(blocks.skip(1))
    }
}

/// A framed block followed by a blank line gives its own events and leaves
/// what follows untouched.
pub proof fn lemma_terminated_block(block: Seq<char>, rest: Seq<char>)
    requires
        is_framed(block),
    ensures
        events_of(block + separator() + rest) == block_events(block) + events_of(rest),
        remainder(block + separator() + rest) == remainder(rest),
{
    let s = block + separator() + rest;
    let i = block.len() as int;
    assert(is_break(s, i));
    assert forall|j: int| 0 <= j < i implies !is_break(s, j) by {
        if is_break(s, j) {
            assert(is_break(block.push('\n'), j));
        }
    }
    lemma_first_block(s, i);
    assert(s.take(i) =~= block);
    assert(s.skip(i + 2) =~= rest);
}

/// A block that stands for no event (no `data:` line, a payload that is not
/// JSON, or one without a known discriminator) yields nothing and does not
/// disturb the blocks after it.
pub proof fn lemma_bad_block_is_skipped(block: Seq<char>, rest: Seq<char>)
    requires
        is_framed(block),
        block_event(block) is Err,
    ensures
        events_of(block + separator() + rest) == events_of(rest),
        remainder(block + separator() + rest) == remainder(rest),
{
    lemma_terminated_block(block, rest);
    assert(block_events(block) + events_of(rest) =~= events_of(rest));
}

/// Which blocks stand for no event: one without a `data:` line, one whose
/// payload is not JSON, and one whose payload has no member `type`.
pub proof fn lemma_malformed_blocks(block: Seq<char>)
    ensures
        payload_of(block) is None ==> block_event(block) == Err::<EventView, SseError>(
            SseError::MissingDataLine,
        ),
        payload_of(block) matches Some(p) && json_members(p) is None ==> block_event(block)
            == Err::<EventView, SseError>(SseError::MalformedPayload),
        payload_of(block) matches Some(p) && json_members(p) matches Some(m) && !m.contains_key(
            "type"@,
        ) ==> block_event(block) == Err::<EventView, SseError>(SseError::MalformedPayload),
{
}

/// A stream of framed blocks gives the events of its blocks, in order, and
/// leaves nothing over.
pub proof fn lemma_stream_events(blocks: Seq<Seq<char>>)
    requires
        forall|k: int| 0 <= k < blocks.len() ==> is_framed(#[trigger] blocks[k]),
    ensures
        events_of(stream_of(blocks)) == events_of_blocks(blocks),
        remainder(stream_of(blocks)) == Seq::<char>::empty(),
    decreases blocks.len(),
{
    if blocks.len() == 0 {
        assert(!has_break(Seq::<char>::empty()));
        lemma_partial_block(Seq::<char>::empty());
    } else {
        let tail = blocks.skip(1);
        assert forall|k: int| 0 <= k < tail.len() implies is_framed(#[trigger] tail[k]) by {
            assert(tail[k] == blocks[k + 1]);
        }
        lemma_stream_events(tail);
        lemma_terminated_block(blocks[0], stream_of(tail));
    }
}

/// Blocks that each stand for an event give one event each, in order.
pub proof fn lemma_one_event_per_block(blocks: Seq<Seq<char>>)
    requires
        forall|k: int| 0 <= k < blocks.len() ==> block_event(#[trigger] blocks[k]) is Ok,
    ensures
        events_of_blocks(blocks).len() == blocks.len(),
        forall|k: int|
            0 <= k < blocks.len() ==> block_event(#[trigger] blocks[k]) == Ok::<
                EventView,
                SseError,
            >(events_of_blocks(blocks)[k]),
    decreases blocks.len(),
{
    if blocks.len() > 0 {
        let tail = blocks.skip(1);
        assert forall|k: int| 0 <= k < tail.len() implies block_event(#[trigger] tail[k]) is Ok by {
            assert(tail[k] == blocks[k + 1]);
        }
        lemma_one_event_per_block(tail);
        assert(block_event(blocks[0]) is Ok);
        assert forall|k: int| 0 <= k < blocks.len() implies block_event(#[trigger] blocks[k])
            == Ok::<EventView, SseError>(events_of_blocks(blocks)[k]) by {
            if k > 0 {
                assert(tail[k - 1] == blocks[k]);
                assert(events_of_blocks(blocks)[k] == events_of_blocks(tail)[k - 1]);
            }
        }
    }
}

/// Split-boundary invariance for a well-formed stream: where `chunks` cut up
/// the stream of `blocks`, each block framed and standing for an event, a
/// fresh framer returns, all calls together, exactly one event per block, in
/// the order of the blocks.
pub proof fn lemma_chunked_stream(blocks: Seq<Seq<char>>, chunks: Seq<Seq<char>>)
    requires
        concat(chunks) == stream_of(blocks),
        forall|k: int| 0 <= k < blocks.len() ==> is_framed(#[trigger] blocks[k]),
        forall|k: int| 0 <= k < blocks.len() ==> block_event(#[trigger] blocks[k]) is Ok,
    ensures
        fed_events(Seq::empty(), chunks).len() == blocks.len(),
        forall|k: int|
            0 <= k < blocks.len() ==> block_event(#[trigger] blocks[k]) == Ok::<
                EventView,
                SseError,
            >(fed_events(Seq::empty(), chunks)[k]),
{
    let none = Seq::<char>::empty();
    assert(!has_break(none));
    lemma_partition_invariance(none, chunks);
    assert(none + concat(chunks) =~= stream_of(blocks));
    lemma_stream_events(blocks);
    lemma_one_event_per_block(blocks);
}

/// Reassembles an event stream that arrives in chunks of any size.
pub struct SseParser {
    buffer: String,
}

impl View for SseParser {
    type V = Seq<char>;

    /// The text received and not yet consumed.
    closed spec fn view(&self) -> Seq<char> {
        self.buffer@
    }
}

impl SseParser {
    /// A framer that has received nothing.
    pub fn new() -> (r: Self)
        ensures
            r@ == Seq::<char>::empty(),
            !has_break(r@),
    {
        SseParser { buffer: String::new() }
    }

    /// Takes the next chunk of the stream and returns the events of the blocks
    /// that it completes, in order. What follows the last blank line is kept
    /// for the next call.
    pub fn feed(&mut self, chunk: &str) -> (events: Vec<VoiceEvent>)
        ensures
            event_views(events@) == events_of(old(self)@ + chunk@),
            final(self)@ == remainder(old(self)@ + chunk@),
            !has_break(final(self)@),
    {
        self.buffer.append(chunk);
        let ghost full = self.buffer@;
        let chars = chars_of(self.buffer.as_str());
        let n: usize = chars.len();
        let mut events: Vec<VoiceEvent> = Vec::new();
        let mut start: usize = 0;
        let mut i: usize = 0;
        assert(full.skip(0) =~= full);
        assert(event_views(events@) + events_of(full) =~= events_of(full));
        while i < n && i + 1 < n
            invariant
                start <= i <= n,
                n == chars.len(),
                chars@ == full,
                self.buffer@ == full,
                events_of(full) == event_views(events@) + events_of(full.skip(start as int)),
                remainder(full) == remainder(full.skip(start as int)),
                forall|j: int| 0 <= j < i - start ==> !is_break(full.skip(start as int), j),
            decreases n - i,
        {
            if chars[i] == '\n' && chars[i + 1] == '\n' {
                let parsed = parse_range(self.buffer.as_str(), &chars, start, i);
                let ghost tail = full.skip(start as int);
                let ghost before = event_views(events@);
                proof {
                    assert(is_break(tail, i - start));
                    lemma_first_block(tail, i - start);
                    assert(tail.take(i - start) =~= full.subrange(start as int, i as int));
                    assert(tail.skip(i - start + 2) =~= full.skip(i + 2));
                }
                match parsed {
                    Ok(e) => {
                        events.push(e);
                    },
                    Err(_) => {},
                }
                proof {
                    let got = block_events(tail.take(i - start));
                    assert(event_views(events@) =~= before + got);
                    assert(before + (got + events_of(full.skip(i + 2))) =~= (before + got)
                        + events_of(full.skip(i + 2)));
                }
                start = i + 2;
                i = start;
            } else {
                i += 1;
            }
        }
        proof {
            let tail = full.skip(start as int);
            assert(!has_break(tail)) by {
                if has_break(tail) {
                    let w = choose|w: int| is_break(tail, w);
                    assert(w < i - start);
                }
            }
            lemma_partial_block(tail);
            assert(event_views(events@) + Seq::<EventView>::empty() =~= event_views(events@));
        }
        let rest = self.buffer.as_str().substring_char(start, n).to_owned();
        assert(full.subrange(start as int, n as int) =~= full.skip(start as int));
        self.buffer = rest;
        events
    }

    /// Takes the next chunk of the stream as it came off the wire: bytes, read
    /// as UTF-8 with the replacement character for what is not valid. A
    /// character that is cut by the chunk's end is not put together again.
    pub fn feed_bytes(&mut self, chunk: &[u8]) -> (events: Vec<VoiceEvent>)
        ensures
            event_views(events@) == events_of(old(self)@ + lossy_text(chunk@)),
            final(self)@ == remainder(old(self)@ + lossy_text(chunk@)),
            !has_break(final(self)@),
            valid_utf8(chunk@) ==> lossy_text(chunk@) == decode_utf8(chunk@),
    {
        let text = decode_lossy(chunk);
        self.feed(text.as_str())
    }
}

} // verus!
