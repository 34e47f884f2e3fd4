//! What holds of the library as a whole, over several calls and every input.

use crate::error::{LlmError, LlmErrorView};
use crate::json::{Json, JsonNumber, JsonView, NumberView};
use crate::provider::{
    ChatMessage, ChatMessageView, ContentPart, ContentPartView, FinishReason, Role, ToolCall,
    ToolCallView, ToolCompletionRequest, ToolCompletionRequestView, ToolCompletionResponse,
    ToolDefinition, ToolDefinitionView,
};
use crate::stream::{
    PendingToolCall, PendingToolCallView, StreamEvent, StreamEventView, StreamState,
    StreamStateView, StreamStep, StreamStepView,
};
use vstd::prelude::*;

verus! {

// Looking into JSON.

/// The member under `key`, where there is an object that has it.
pub open spec fn member(v: Option<JsonView>, key: Seq<char>) -> Option<JsonView> {
    match v {
        Some(JsonView::Object(members)) => if members.contains_key(key) {
            Some(members[key])
        } else {
            None
        },
        _ => None,
    }
}

/// The element at `i`, where there is an array that has it.
pub open spec fn element(v: Option<JsonView>, i: int) -> Option<JsonView> {
    match v {
        Some(JsonView::Array(items)) => if 0 <= i < items.len() {
            Some(items[i])
        } else {
            None
        },
        _ => None,
    }
}

/// The string under `key`, where there is one.
pub open spec fn string_at(v: Option<JsonView>, key: Seq<char>) -> Option<Seq<char>> {
    match member(v, key) {
        Some(JsonView::Text(s)) => Some(s),
        _ => None,
    }
}

/// The characters of the string under `key`, none where there is no string.
pub open spec fn words_at(v: Option<JsonView>, key: Seq<char>) -> Seq<char> {
    match string_at(v, key) {
        Some(s) => s,
        None => Seq::empty(),
    }
}

/// The integer under `key`, where there is one that fits 64 unsigned bits.
pub open spec fn count_at(v: Option<JsonView>, key: Seq<char>) -> Option<u64> {
    match member(v, key) {
        Some(JsonView::Number(NumberView::Int(n))) => if 0 <= n < 0x1_0000_0000_0000_0000 {
            Some(n as u64)
        } else {
            None
        },
        _ => None,
    }
}

/// The first choice of a chunk.
pub open spec fn choice_in(chunk: JsonView) -> Option<JsonView> {
    element(member(Some(chunk), "choices"@), 0)
}

/// The delta in the first choice of a chunk.
pub open spec fn delta_in(chunk: JsonView) -> Option<JsonView> {
    member(choice_in(chunk), "delta"@)
}

/// The pieces of tool calls that a chunk brings.
pub open spec fn pieces_in(chunk: JsonView) -> Seq<JsonView> {
    match member(delta_in(chunk), "tool_calls"@) {
        Some(JsonView::Array(pieces)) => pieces,
        _ => Seq::empty(),
    }
}

/// The place that a piece is for: the first, where it names none.
pub open spec fn place_of(piece: JsonView) -> usize {
    match count_at(Some(piece), "index"@) {
        Some(n) => n as usize,
        None => 0,
    }
}

/// The string under `key` of the function in a piece.
pub open spec fn function_word(piece: JsonView, key: Seq<char>) -> Option<Seq<char>> {
    string_at(member(Some(piece), "function"@), key)
}

// A whole stream.

/// What comes of a sequence of events that are taken in one after the other until
/// one of them ends the stream.
#[verifier::ext_equal]
pub struct Run {
    pub state: StreamStateView,
    pub forwarded: Seq<Seq<char>>,
    pub end: Option<StreamStepView>,
}

/// Takes events in one after the other.
pub open spec fn run(state: StreamStateView, events: Seq<StreamEventView>) -> Run
    decreases events.len(),
{
    if events.len() == 0 {
        Run { state, forwarded: Seq::empty(), end: None }
    } else {
        let (next, step) = state.after_event(events[0]);
        match step {
            StreamStepView::Continue => run(next, events.drop_first()),
            StreamStepView::Forward(text) => {
                let rest = run(next, events.drop_first());
                Run { forwarded: seq![text] + rest.forwarded, ..rest }
            },
            _ => Run { state: next, forwarded: Seq::empty(), end: Some(step) },
        }
    }
}

/// The text that was passed on piece by piece is, put together, the text of the
/// reply; and no piece is empty.
pub proof fn law_forwarded_text_is_the_text(state: StreamStateView, events: Seq<StreamEventView>)
    ensures
        run(state, events).state.text == state.text + run(state, events).forwarded.flatten(),
        forall|i: int|
            0 <= i < run(state, events).forwarded.len() ==> (#[trigger] run(
                state,
                events,
            ).forwarded[i]).len() > 0,
    decreases events.len(),
{
    if events.len() > 0 {
        let (next, step) = state.after_event(events[0]);
        law_forwarded_text_is_the_text(next, events.drop_first());
        let rest = run(next, events.drop_first());
        match step {
            StreamStepView::Forward(text) => {
                let all = seq![text] + rest.forwarded;
                assert(all.drop_first() =~= rest.forwarded);
                assert(all.flatten() =~= text + rest.forwarded.flatten());
            },
            _ => {},
        }
    }
}

/// Once an event has ended the stream, later events change nothing.
pub proof fn law_nothing_after_the_end(
    state: StreamStateView,
    events: Seq<StreamEventView>,
    later: Seq<StreamEventView>,
)
    requires
        run(state, events).end is Some,
    ensures
        run(state, events + later) == run(state, events),
    decreases events.len(),
{
    assert((events + later).drop_first() =~= events.drop_first() + later);
    let (next, step) = state.after_event(events[0]);
    match step {
        StreamStepView::Continue | StreamStepView::Forward(_) => {
            law_nothing_after_the_end(next, events.drop_first(), later);
        },
        _ => {},
    }
}

/// A stream that has not ended goes on from the state that it has reached.
pub proof fn law_stream_goes_on(
    state: StreamStateView,
    events: Seq<StreamEventView>,
    later: Seq<StreamEventView>,
)
    requires
        run(state, events).end is None,
    ensures
        ({
            let first = run(state, events);
            let second = run(first.state, later);
            run(state, events + later) == (Run {
                state: second.state,
                forwarded: first.forwarded + second.forwarded,
                end: second.end,
            })
        }),
    decreases events.len(),
{
    if events.len() == 0 {
        assert(events + later =~= later);
    } else {
        assert((events + later).drop_first() =~= events.drop_first() + later);
        let (next, step) = state.after_event(events[0]);
        match step {
            StreamStepView::Continue | StreamStepView::Forward(_) => {
                law_stream_goes_on(next, events.drop_first(), later);
            },
            _ => {},
        }
    }
}

/// An event that is not an error and whose payload is blank or cannot be read as
/// JSON changes nothing: the stream runs as if it had not come.
pub proof fn law_unreadable_events_are_skipped(
    state: StreamStateView,
    event: Seq<char>,
    data: Seq<char>,
    later: Seq<StreamEventView>,
)
    requires
        event != "error"@,
        crate::text::trimmed(data) != "[DONE]"@,
        crate::text::trimmed(data).len() == 0 || crate::wire::json_parse(
            crate::text::trimmed(data),
        ) is None,
    ensures
        run(state, seq![StreamEventView::Message { event, data }] + later) == run(state, later),
{
    let events = seq![StreamEventView::Message { event, data }] + later;
    assert(events.drop_first() =~= later);
}

// Chunks.

/// The chunks that a run takes in, in their order.
pub open spec fn chunks_taken(state: StreamStateView, events: Seq<StreamEventView>) -> Seq<JsonView>
    decreases events.len(),
{
    if events.len() == 0 {
        Seq::empty()
    } else {
        let (next, step) = state.after_event(events[0]);
        match step {
            StreamStepView::Continue | StreamStepView::Forward(_) => {
                let rest = chunks_taken(next, events.drop_first());
                match chunk_in(events[0]) {
                    Some(chunk) => seq![chunk] + rest,
                    None => rest,
                }
            },
            _ => Seq::empty(),
        }
    }
}

/// The chunk that an event carries.
pub open spec fn chunk_in(event: StreamEventView) -> Option<JsonView> {
    match event {
        StreamEventView::Message { event, data } => {
            let payload = crate::text::trimmed(data);
            if payload.len() == 0 {
                None
            } else {
                crate::wire::json_parse(payload)
            }
        },
        _ => None,
    }
}

/// The state after chunks.
pub open spec fn after_chunks(state: StreamStateView, chunks: Seq<JsonView>) -> StreamStateView
    decreases chunks.len(),
{
    if chunks.len() == 0 {
        state
    } else {
        after_chunks(state.after_chunk(chunks[0]), chunks.drop_first())
    }
}

/// What a run leaves is what its chunks add up to; nothing else in the events
/// matters.
pub proof fn law_run_is_its_chunks(state: StreamStateView, events: Seq<StreamEventView>)
    ensures
        run(state, events).state == after_chunks(state, chunks_taken(state, events)),
    decreases events.len(),
{
    if events.len() > 0 {
        let (next, step) = state.after_event(events[0]);
        law_run_is_its_chunks(next, events.drop_first());
        let rest = chunks_taken(next, events.drop_first());
        match step {
            StreamStepView::Continue | StreamStepView::Forward(_) => {
                match chunk_in(events[0]) {
                    Some(chunk) => {
                        assert((seq![chunk] + rest).drop_first() =~= rest);
                        assert(next == state.after_chunk(chunk));
                    },
                    None => {},
                }
            },
            _ => {},
        }
    }
}

/// Each field of the state after a chunk, by what the chunk says. Text, refusal and
/// reasoning get what the delta adds. The word for stopping and the usage count
/// wherever they come, with a delta or without one; a chunk that says nothing of
/// them leaves them. Of a count the low 32 bits are kept.
pub proof fn law_chunk_is_taken_in(state: StreamStateView, chunk: JsonView)
    ensures
        ({
            let after = state.after_chunk(chunk);
            let delta = delta_in(chunk);
            &&& after.text == state.text + words_at(delta, "content"@)
            &&& after.refusal == state.refusal + words_at(delta, "refusal"@)
            &&& after.tool_calls == crate::stream::after_pieces(state.tool_calls, pieces_in(chunk))
        }),
        ({
            let after = state.after_chunk(chunk);
            let delta = delta_in(chunk);
            let first = state.reasoning + words_at(delta, "reasoning_content"@);
            &&& first.len() == 0 || member(delta, "reasoning_content"@) is None ==> after.reasoning
                == first + words_at(delta, "reasoning"@)
            &&& first.len() > 0 && member(delta, "reasoning_content"@) is Some ==> after.reasoning
                == first
        }),
        ({
            let after = state.after_chunk(chunk);
            match string_at(choice_in(chunk), "finish_reason"@) {
                None => after.finish_reason == state.finish_reason,
                Some(word) => {
                    &&& word == "stop"@ <==> after.finish_reason == FinishReason::Stop
                    &&& word == "length"@ <==> after.finish_reason == FinishReason::Length
                    &&& word == "tool_calls"@ <==> after.finish_reason == FinishReason::ToolUse
                    &&& word == "content_filter"@ <==> after.finish_reason
                        == FinishReason::ContentFilter
                },
            }
        }),
        ({
            let after = state.after_chunk(chunk);
            let usage = member(Some(chunk), "usage"@);
            &&& usage is None ==> after.input_tokens == state.input_tokens && after.output_tokens
                == state.output_tokens
            &&& usage is Some ==> match count_at(usage, "prompt_tokens"@) {
                Some(n) => after.input_tokens == n as int % 0x1_0000_0000,
                None => after.input_tokens == 0,
            }
            &&& usage is Some ==> match count_at(usage, "completion_tokens"@) {
                Some(n) => after.output_tokens == n as int % 0x1_0000_0000,
                None => after.output_tokens == 0,
            }
        }),
{
    let delta = delta_in(chunk);
    let after = state.after_chunk(chunk);
    reveal_strlit("stop");
    reveal_strlit("length");
    reveal_strlit("tool_calls");
    reveal_strlit("content_filter");
    assert("stop"@.len() == 4 && "length"@.len() == 6 && "tool_calls"@.len() == 10);
    assert("content_filter"@.len() == 14);
    assert(after.text =~= state.text + words_at(delta, "content"@));
    assert(after.refusal =~= state.refusal + words_at(delta, "refusal"@));
    let first = state.reasoning + words_at(delta, "reasoning_content"@);
    assert(first + Seq::<char>::empty() =~= first);
    if delta is None {
        assert(after.reasoning =~= first);
    }
}

/// Whether every piece in a chunk is for a place that a list can reach: one more
/// than the place is a length.
pub open spec fn within_reach(chunk: JsonView) -> bool {
    forall|i: int|
        0 <= i < pieces_in(chunk).len() ==> place_of(#[trigger] pieces_in(chunk)[i]) < usize::MAX
}

/// A chunk that is read never ends the stream, whatever it says: it is taken in, and
/// the text in its delta, if there is any, is passed on at once. The one exception
/// is a chunk with a piece for a place that no list reaches. What is not read
/// changes nothing.
pub proof fn law_every_chunk_is_taken_in(state: StreamStateView, chunk: JsonView)
    ensures
        state.after_payload(None) == (state, StreamStepView::Continue),
        within_reach(chunk) ==> {
            let (next, step) = state.after_payload(Some(chunk));
            let text = words_at(delta_in(chunk), "content"@);
            &&& next == state.after_chunk(chunk)
            &&& text.len() > 0 ==> step == StreamStepView::Forward(text)
            &&& text.len() == 0 ==> step == StreamStepView::Continue
        },
        !within_reach(chunk) ==> state.after_payload(Some(chunk)) == (
            state,
            StreamStepView::OutOfReach,
        ),
        within_reach(chunk) <==> crate::stream::chunk_fits(chunk),
        crate::stream::forwarded(chunk) == (if words_at(delta_in(chunk), "content"@).len() > 0 {
            Some(words_at(delta_in(chunk), "content"@))
        } else {
            None
        }),
{
    let pieces = pieces_in(chunk);
    assert forall|i: int| 0 <= i < pieces.len() implies place_of(#[trigger] pieces[i])
        == crate::stream::slot_of(pieces[i]) by {}
    if crate::stream::chunk_fits(chunk) {
        assert forall|i: int| 0 <= i < pieces.len() implies place_of(#[trigger] pieces[i])
            < usize::MAX by {
            assert(crate::stream::slot_of(pieces[i]) < usize::MAX);
        }
    }
}

/// A request that failed, as the streaming endpoint reports it.
pub open spec fn failure(reason: Seq<char>) -> StreamStepView {
    StreamStepView::Fail(
        LlmErrorView::RequestFailed { provider: "openai_streaming"@, reason },
    )
}

/// What an event ends the stream with, if it ends it: a message under the name
/// `error`, the mark for the end, the close of the stream, a break, a wait in vain.
/// Apart from these only a piece out of reach does.
pub open spec fn verdict(event: StreamEventView) -> Option<StreamStepView> {
    match event {
        StreamEventView::Message { event: name, data } => if name == "error"@ {
            Some(failure("SSE error event: "@ + data))
        } else if crate::text::trimmed(data) == "[DONE]"@ {
            Some(StreamStepView::Done)
        } else {
            match chunk_in(event) {
                Some(chunk) => if within_reach(chunk) {
                    None
                } else {
                    Some(StreamStepView::OutOfReach)
                },
                None => None,
            }
        },
        StreamEventView::Broken { reason } => Some(failure("SSE stream error: "@ + reason)),
        StreamEventView::Closed => Some(StreamStepView::Done),
        StreamEventView::TimedOut => Some(failure("Timed out waiting for SSE event after 30s"@)),
    }
}

/// What an event does, by the event alone. One that ends the stream leaves the state
/// as it is. Any other goes on: a message with a chunk takes it in and passes its
/// text on, and one that cannot be read is skipped.
pub proof fn law_event_is_taken_in(state: StreamStateView, event: StreamEventView)
    ensures
        ({
            let (next, step) = state.after_event(event);
            match verdict(event) {
                Some(end) => next == state && step == end,
                None => match chunk_in(event) {
                    Some(chunk) => {
                        let text = words_at(delta_in(chunk), "content"@);
                        &&& next == state.after_chunk(chunk)
                        &&& text.len() > 0 ==> step == StreamStepView::Forward(text)
                        &&& text.len() == 0 ==> step == StreamStepView::Continue
                    },
                    None => next == state && step == StreamStepView::Continue,
                },
            }
        }),
{
    match event {
        StreamEventView::Message { event: name, data } => {
            reveal_strlit("[DONE]");
            assert("[DONE]"@.len() == 6);
            match chunk_in(event) {
                Some(chunk) => law_every_chunk_is_taken_in(state, chunk),
                None => {},
            }
        },
        StreamEventView::TimedOut => {
            reveal_strlit("Timed out waiting for SSE event after 30s");
            reveal_strlit("Timed out waiting for SSE event after ");
            reveal_strlit("s");
            reveal_with_fuel(crate::text::decimal_digits, 2);
            assert("Timed out waiting for SSE event after "@ + crate::text::decimal_digits(30)
                + "s"@ =~= "Timed out waiting for SSE event after 30s"@);
        },
        _ => {},
    }
}

/// The chunks that can be read, in their order, up to the first event that ends the
/// stream.
pub open spec fn chunks_before_the_end(events: Seq<StreamEventView>) -> Seq<JsonView>
    decreases events.len(),
{
    if events.len() == 0 || verdict(events[0]) is Some {
        Seq::empty()
    } else {
        let rest = chunks_before_the_end(events.drop_first());
        match chunk_in(events[0]) {
            Some(chunk) => seq![chunk] + rest,
            None => rest,
        }
    }
}

/// What a stream comes to, by its events alone: all chunks that can be read before
/// the first event that ends it are taken in, their texts are passed on one by one,
/// and that event says how it ends.
pub proof fn law_run_takes_in_every_chunk(state: StreamStateView, events: Seq<StreamEventView>)
    ensures
        ({
            let all = run(state, events);
            let chunks = chunks_before_the_end(events);
            &&& chunks_taken(state, events) == chunks
            &&& all.state == after_chunks(state, chunks)
            &&& all.forwarded == chunks.map_values(
                |c: JsonView| words_at(delta_in(c), "content"@),
            ).filter(|text: Seq<char>| text.len() > 0)
            &&& all.end is None <==> (forall|i: int|
                0 <= i < events.len() ==> verdict(#[trigger] events[i]) is None)
            &&& all.end is Some ==> exists|i: int|
                {
                    &&& 0 <= i < events.len()
                    &&& verdict(#[trigger] events[i]) == all.end
                    &&& forall|j: int| 0 <= j < i ==> verdict(#[trigger] events[j]) is None
                }
        }),
    decreases events.len(),
{
    let spoken = |text: Seq<char>| text.len() > 0;
    let texts = |c: JsonView| words_at(delta_in(c), "content"@);
    let all = run(state, events);
    let chunks = chunks_before_the_end(events);
    law_run_is_its_chunks(state, events);
    reveal(Seq::filter);
    if events.len() > 0 {
        law_event_is_taken_in(state, events[0]);
        let (next, step) = state.after_event(events[0]);
        let rest = events.drop_first();
        if verdict(events[0]) is None {
            law_run_takes_in_every_chunk(next, rest);
            let later = chunks_before_the_end(rest);
            match chunk_in(events[0]) {
                Some(chunk) => {
                    let text = words_at(delta_in(chunk), "content"@);
                    assert((seq![chunk] + later).map_values(texts) =~= seq![text]
                        + later.map_values(texts));
                    Seq::filter_distributes_over_add(seq![text], later.map_values(texts), spoken);
                    assert(seq![text].drop_last() =~= Seq::empty());
                    assert(Seq::<Seq<char>>::empty().filter(spoken) =~= Seq::empty());
                    assert(seq![text].filter(spoken) =~= (if text.len() > 0 {
                        seq![text]
                    } else {
                        Seq::empty()
                    }));
                    assert(all.forwarded =~= chunks.map_values(texts).filter(spoken));
                },
                None => {},
            }
            assert forall|i: int| 0 <= i < rest.len() implies #[trigger] rest[i]
                == events[i + 1] by {}
            if all.end is None {
                assert forall|i: int| 0 <= i < events.len() implies verdict(
                    #[trigger] events[i],
                ) is None by {
                    if i > 0 {
                        assert(verdict(rest[i - 1]) is None);
                    }
                }
            } else {
                let i = choose|i: int|
                    {
                        &&& 0 <= i < rest.len()
                        &&& verdict(#[trigger] rest[i]) == all.end
                        &&& forall|j: int| 0 <= j < i ==> verdict(#[trigger] rest[j]) is None
                    };
                assert(verdict(events[i + 1]) == all.end);
                assert forall|j: int| 0 <= j < i + 1 implies verdict(
                    #[trigger] events[j],
                ) is None by {
                    if j > 0 {
                        assert(verdict(rest[j - 1]) is None);
                    }
                }
            }
        } else {
            assert(all.end == verdict(events[0]));
        }
    }
}

/// What a chunk adds to a refusal.
pub open spec fn refusal_delta(chunk: JsonView) -> Seq<char> {
    words_at(delta_in(chunk), "refusal"@)
}

/// Text, refusal and tool calls are what all chunks add to them, one after the
/// other, however the provider has cut the reply into chunks.
pub proof fn law_deltas_add_up(state: StreamStateView, chunks: Seq<JsonView>)
    ensures
        after_chunks(state, chunks).text == state.text + chunks.map_values(
            |c: JsonView| words_at(delta_in(c), "content"@),
        ).flatten(),
        after_chunks(state, chunks).refusal == state.refusal + chunks.map_values(
            |c: JsonView| refusal_delta(c),
        ).flatten(),
        after_chunks(state, chunks).tool_calls == crate::stream::after_pieces(
            state.tool_calls,
            chunks.map_values(|c: JsonView| pieces_in(c)).flatten(),
        ),
    decreases chunks.len(),
{
    let texts = chunks.map_values(|c: JsonView| words_at(delta_in(c), "content"@));
    let refusals = chunks.map_values(|c: JsonView| refusal_delta(c));
    let pieces = chunks.map_values(|c: JsonView| pieces_in(c));
    if chunks.len() > 0 {
        let rest = chunks.drop_first();
        let next = state.after_chunk(chunks[0]);
        law_deltas_add_up(next, rest);
        assert(texts.drop_first() =~= rest.map_values(|c: JsonView| words_at(delta_in(c), "content"@)));
        assert(refusals.drop_first() =~= rest.map_values(|c: JsonView| refusal_delta(c)));
        assert(pieces.drop_first() =~= rest.map_values(|c: JsonView| pieces_in(c)));
        assert(next.text =~= state.text + texts[0]);
        assert(next.refusal =~= state.refusal + refusals[0]);
        assert(next.tool_calls == crate::stream::after_pieces(state.tool_calls, pieces[0]));
        lemma_pieces_concat(state.tool_calls, pieces[0], pieces.drop_first().flatten());
    }
}

/// Pieces that come in two groups do what they do in one.
proof fn lemma_pieces_concat(
    calls: Seq<PendingToolCallView>,
    first: Seq<JsonView>,
    second: Seq<JsonView>,
)
    ensures
        crate::stream::after_pieces(calls, first + second) == crate::stream::after_pieces(
            crate::stream::after_pieces(calls, first),
            second,
        ),
    decreases second.len(),
{
    if second.len() == 0 {
        assert(first + second =~= first);
    } else {
        lemma_pieces_concat(calls, first, second.drop_last());
        assert((first + second).drop_last() =~= first + second.drop_last());
    }
}

// Tool calls.

/// How far the pieces reach: one more than the last place that they name.
pub open spec fn reach(pieces: Seq<JsonView>) -> int
    decreases pieces.len(),
{
    if pieces.len() == 0 {
        0
    } else {
        let before = reach(pieces.drop_last());
        let last = place_of(pieces.last()) + 1;
        if last > before {
            last
        } else {
            before
        }
    }
}

/// The arguments in the pieces for one place, put together.
pub open spec fn arguments_for(pieces: Seq<JsonView>, slot: int) -> Seq<char>
    decreases pieces.len(),
{
    if pieces.len() == 0 {
        Seq::empty()
    } else {
        let before = arguments_for(pieces.drop_last(), slot);
        if place_of(pieces.last()) == slot {
            before + words_at(member(Some(pieces.last()), "function"@), "arguments"@)
        } else {
            before
        }
    }
}

/// The last identifier in the pieces for one place, or `id` where none is given.
pub open spec fn id_for(pieces: Seq<JsonView>, slot: int, id: Seq<char>) -> Seq<char>
    decreases pieces.len(),
{
    if pieces.len() == 0 {
        id
    } else {
        match string_at(Some(pieces.last()), "id"@) {
            Some(given) if place_of(pieces.last()) == slot => given,
            _ => id_for(pieces.drop_last(), slot, id),
        }
    }
}

/// The last name in the pieces for one place, or `name` where none is given.
pub open spec fn name_for(pieces: Seq<JsonView>, slot: int, name: Seq<char>) -> Seq<char>
    decreases pieces.len(),
{
    if pieces.len() == 0 {
        name
    } else {
        match function_word(pieces.last(), "name"@) {
            Some(given) if place_of(pieces.last()) == slot => given,
            _ => name_for(pieces.drop_last(), slot, name),
        }
    }
}

/// The call at a place, which is an empty one where there is none yet.
pub open spec fn call_at(calls: Seq<PendingToolCallView>, slot: int) -> PendingToolCallView {
    if 0 <= slot < calls.len() {
        calls[slot]
    } else {
        PendingToolCallView { id: Seq::empty(), name: Seq::empty(), arguments: Seq::empty() }
    }
}

/// Each tool call is put together of the pieces for its own place, and of no
/// others: its arguments are theirs in their order, its identifier and its name
/// the last that they give. The list is as long as the pieces ask for, and never
/// gets shorter.
pub proof fn law_tool_calls_are_their_pieces(
    calls: Seq<PendingToolCallView>,
    pieces: Seq<JsonView>,
    slot: int,
)
    requires
        0 <= slot,
    ensures
        ({
            let after = crate::stream::after_pieces(calls, pieces);
            let was = call_at(calls, slot);
            &&& after.len() == (if reach(pieces) > calls.len() {
                reach(pieces)
            } else {
                calls.len() as int
            })
            &&& call_at(after, slot) == (PendingToolCallView {
                id: id_for(pieces, slot, was.id),
                name: name_for(pieces, slot, was.name),
                arguments: was.arguments + arguments_for(pieces, slot),
            })
        }),
    decreases pieces.len(),
{
    let was = call_at(calls, slot);
    if pieces.len() == 0 {
        assert(was.arguments + Seq::<char>::empty() =~= was.arguments);
    } else {
        let last = pieces.last();
        let place = crate::stream::slot_of(last) as int;
        law_tool_calls_are_their_pieces(calls, pieces.drop_last(), slot);
        let before = crate::stream::after_pieces(calls, pieces.drop_last());
        let reached = crate::stream::reaching(before, place);
        assert(call_at(reached, slot) == call_at(before, slot));
        let after = crate::stream::after_pieces(calls, pieces);
        if slot == place {
            assert(after[slot] == reached[slot].with_piece(last));
            assert(was.arguments + arguments_for(pieces, slot) =~= was.arguments + arguments_for(
                pieces.drop_last(),
                slot,
            ) + crate::stream::or_empty(crate::stream::function_text(last, "arguments"@)));
        }
    }
}

/// A piece whose arguments are cut in two does what the uncut one does.
pub proof fn law_arguments_may_be_cut_anywhere(
    call: PendingToolCallView,
    whole: JsonView,
    first: JsonView,
    second: JsonView,
)
    requires
        crate::stream::or_empty(crate::stream::function_text(whole, "arguments"@))
            == crate::stream::or_empty(crate::stream::function_text(first, "arguments"@))
            + crate::stream::or_empty(crate::stream::function_text(second, "arguments"@)),
        first.text_field("id"@) == whole.text_field("id"@),
        crate::stream::function_text(first, "name"@) == crate::stream::function_text(
            whole,
            "name"@,
        ),
        second.text_field("id"@) is None,
        crate::stream::function_text(second, "name"@) is None,
    ensures
        call.with_piece(first).with_piece(second) == call.with_piece(whole),
{
    assert(call.with_piece(first).with_piece(second).arguments =~= call.with_piece(
        whole,
    ).arguments);
}

// The rest of the state.

/// The reason for stopping that a chunk gives.
pub open spec fn stop_word(chunk: JsonView) -> Option<Seq<char>> {
    string_at(choice_in(chunk), "finish_reason"@)
}

/// Of several reasons for stopping the last one counts; where none comes, the
/// reason stays what it was.
pub proof fn law_last_finish_reason_counts(
    state: StreamStateView,
    before: Seq<JsonView>,
    chunk: JsonView,
    after: Seq<JsonView>,
)
    requires
        forall|i: int| 0 <= i < after.len() ==> stop_word(#[trigger] after[i]) is None,
    ensures
        after_chunks(state, after).finish_reason == state.finish_reason,
        stop_word(chunk) matches Some(word) ==> after_chunks(
            state,
            before + seq![chunk] + after,
        ).finish_reason == crate::stream::finish_reason_of(word),
{
    lemma_reason_stays(state, after);
    let s = after_chunks(state, before);
    lemma_chunks_concat(state, before, seq![chunk] + after);
    assert(before + seq![chunk] + after =~= before + (seq![chunk] + after));
    assert((seq![chunk] + after).drop_first() =~= after);
    lemma_reason_stays(s.after_chunk(chunk), after);
}

proof fn lemma_reason_stays(state: StreamStateView, chunks: Seq<JsonView>)
    requires
        forall|i: int| 0 <= i < chunks.len() ==> stop_word(#[trigger] chunks[i]) is None,
    ensures
        after_chunks(state, chunks).finish_reason == state.finish_reason,
    decreases chunks.len(),
{
    if chunks.len() > 0 {
        assert(stop_word(chunks[0]) is None);
        lemma_reason_stays(state.after_chunk(chunks[0]), chunks.drop_first());
    }
}

proof fn lemma_chunks_concat(state: StreamStateView, first: Seq<JsonView>, second: Seq<JsonView>)
    ensures
        after_chunks(state, first + second) == after_chunks(after_chunks(state, first), second),
    decreases first.len(),
{
    if first.len() == 0 {
        assert(first + second =~= second);
    } else {
        lemma_chunks_concat(state.after_chunk(first[0]), first.drop_first(), second);
        assert((first + second).drop_first() =~= first.drop_first() + second);
    }
}

/// The token counts are those of the last chunk that reports usage; where none
/// does, they stay what they were.
pub proof fn law_last_usage_counts(
    state: StreamStateView,
    before: Seq<JsonView>,
    chunk: JsonView,
    after: Seq<JsonView>,
)
    requires
        forall|i: int| 0 <= i < after.len() ==> (#[trigger] after[i]).field("usage"@) is None,
    ensures
        after_chunks(state, after).input_tokens == state.input_tokens,
        after_chunks(state, after).output_tokens == state.output_tokens,
        chunk.field("usage"@) matches Some(usage) ==> ({
            let end = after_chunks(state, before + seq![chunk] + after);
            &&& end.input_tokens == crate::stream::low_word(
                usage.unsigned_field("prompt_tokens"@),
            )
            &&& end.output_tokens == crate::stream::low_word(
                usage.unsigned_field("completion_tokens"@),
            )
        }),
{
    lemma_usage_stays(state, after);
    let s = after_chunks(state, before);
    lemma_chunks_concat(state, before, seq![chunk] + after);
    assert(before + seq![chunk] + after =~= before + (seq![chunk] + after));
    assert((seq![chunk] + after).drop_first() =~= after);
    lemma_usage_stays(s.after_chunk(chunk), after);
}

proof fn lemma_usage_stays(state: StreamStateView, chunks: Seq<JsonView>)
    requires
        forall|i: int| 0 <= i < chunks.len() ==> (#[trigger] chunks[i]).field("usage"@) is None,
    ensures
        after_chunks(state, chunks).input_tokens == state.input_tokens,
        after_chunks(state, chunks).output_tokens == state.output_tokens,
    decreases chunks.len(),
{
    if chunks.len() > 0 {
        assert(chunks[0].field("usage"@) is None);
        lemma_usage_stays(state.after_chunk(chunks[0]), chunks.drop_first());
    }
}

/// Reasoning is heard under either of its two names, and one that comes under
/// both at once is heard once.
pub proof fn law_reasoning_by_either_name(
    reasoning: Seq<char>,
    long_name: JsonView,
    short_name: JsonView,
    both_names: JsonView,
    text: Seq<char>,
)
    requires
        long_name.text_field("reasoning_content"@) == Some(text),
        long_name.field("reasoning"@) is None,
        short_name.field("reasoning_content"@) is None,
        short_name.text_field("reasoning"@) == Some(text),
        both_names.text_field("reasoning_content"@) == Some(text),
        both_names.text_field("reasoning"@) == Some(text),
    ensures
        crate::stream::after_reasoning(reasoning, long_name) == reasoning + text,
        crate::stream::after_reasoning(reasoning, short_name) == reasoning + text,
        crate::stream::after_reasoning(reasoning, both_names) == reasoning + text,
{
    assert(reasoning + Seq::<char>::empty() =~= reasoning);
    assert(reasoning + text + Seq::<char>::empty() =~= reasoning + text);
    if reasoning.len() + text.len() == 0 {
        assert(reasoning + text + text =~= reasoning + text);
    }
}

/// What a chunk adds to the reasoning: the text under `reasoning_content` where its
/// delta holds that key, and else the text under `reasoning`.
pub open spec fn reasoning_delta(chunk: JsonView) -> Seq<char> {
    if member(delta_in(chunk), "reasoning_content"@) is Some {
        words_at(delta_in(chunk), "reasoning_content"@)
    } else {
        words_at(delta_in(chunk), "reasoning"@)
    }
}

/// Whether a chunk holds both keys, no text under `reasoning_content` and some
/// under `reasoning`.
pub open spec fn only_second_name_speaks(chunk: JsonView) -> bool {
    &&& member(delta_in(chunk), "reasoning_content"@) is Some
    &&& words_at(delta_in(chunk), "reasoning_content"@).len() == 0
    &&& words_at(delta_in(chunk), "reasoning"@).len() > 0
}

/// The reasoning is what all chunks add to it, one after the other, however the
/// provider has cut it into chunks. Left out are streams in which a chunk that
/// speaks under the second name alone, though it holds both, comes before any
/// reasoning: there the second name is heard.
pub proof fn law_reasoning_adds_up(state: StreamStateView, chunks: Seq<JsonView>)
    requires
        forall|i: int|
            0 <= i < chunks.len() && only_second_name_speaks(#[trigger] chunks[i])
                ==> after_chunks(state, chunks.subrange(0, i)).reasoning.len() > 0,
    ensures
        after_chunks(state, chunks).reasoning == state.reasoning + chunks.map_values(
            |c: JsonView| reasoning_delta(c),
        ).flatten(),
    decreases chunks.len(),
{
    let deltas = chunks.map_values(|c: JsonView| reasoning_delta(c));
    if chunks.len() > 0 {
        let rest = chunks.drop_first();
        let next = state.after_chunk(chunks[0]);
        assert(chunks.subrange(0, 0) =~= Seq::empty());
        assert(next.reasoning =~= state.reasoning + deltas[0]);
        assert forall|i: int|
            0 <= i < rest.len() && only_second_name_speaks(#[trigger] rest[i]) implies after_chunks(
            next,
            rest.subrange(0, i),
        ).reasoning.len() > 0 by {
            assert(rest[i] == chunks[i + 1]);
            assert(chunks.subrange(0, i + 1).drop_first() =~= rest.subrange(0, i));
        }
        law_reasoning_adds_up(next, rest);
        assert(deltas.drop_first() =~= rest.map_values(|c: JsonView| reasoning_delta(c)));
    }
}

// The reply.

/// The text of the reply depends on text and refusal alone: reasoning does not
/// show in it, and what came before a stop of whatever kind is kept. A refusal
/// takes the place of all text.
pub proof fn law_content_of_the_reply(a: StreamStateView, b: StreamStateView)
    ensures
        a.text == b.text && a.refusal == b.refusal ==> a.response().content
            == b.response().content,
        a.refusal.len() > 0 ==> a.response().content == Some("[Model refused] "@ + a.refusal),
        a.refusal.len() == 0 && a.text.len() > 0 ==> a.response().content == Some(a.text),
        a.refusal.len() == 0 && a.text.len() == 0 ==> a.response().content is None,
{
}

/// What a stream that ends without a refusal replies is what was passed on
/// meanwhile.
pub proof fn law_reply_is_what_was_forwarded(events: Seq<StreamEventView>)
    ensures
        ({
            let all = run(StreamStateView::initial(), events);
            all.state.refusal.len() == 0 ==> all.state.response().content == (
            if all.forwarded.flatten().len() > 0 {
                Some(all.forwarded.flatten())
            } else {
                None
            })
        }),
{
    let all = run(StreamStateView::initial(), events);
    law_forwarded_text_is_the_text(StreamStateView::initial(), events);
    assert(StreamStateView::initial().text + all.forwarded.flatten()
        =~= all.forwarded.flatten());
}

/// Every tool call of the reply has a name and carries the reasoning of the whole
/// stream; where all have names, none is lost and each keeps its place.
pub proof fn law_tool_calls_of_the_reply(
    calls: Seq<PendingToolCallView>,
    arguments: Seq<Option<JsonView>>,
    reasoning: Option<Seq<char>>,
)
    requires
        arguments.len() == calls.len(),
    ensures
        ({
            let out = crate::stream::completed(calls, arguments, reasoning);
            &&& out.len() <= calls.len()
            &&& forall|i: int|
                0 <= i < out.len() ==> (#[trigger] out[i]).name.len() > 0 && out[i].reasoning
                    == reasoning
            &&& (forall|i: int| 0 <= i < calls.len() ==> (#[trigger] calls[i]).name.len() > 0)
                ==> {
                &&& out.len() == calls.len()
                &&& forall|i: int|
                    0 <= i < calls.len() ==> #[trigger] out[i] == calls[i].complete(
                        arguments[i],
                        reasoning,
                    )
            }
        }),
    decreases calls.len(),
{
    if calls.len() > 0 {
        law_tool_calls_of_the_reply(calls.drop_last(), arguments.drop_last(), reasoning);
        if forall|i: int| 0 <= i < calls.len() ==> (#[trigger] calls[i]).name.len() > 0 {
            assert(calls.last().name.len() > 0);
            assert forall|i: int| 0 <= i < calls.drop_last().len() implies (
            #[trigger] calls.drop_last()[i]).name.len() > 0 by {
                assert(calls[i].name.len() > 0);
            }
        }
    }
}

/// Whether `call` is what a pending call comes to, given what its arguments were read
/// as: the identifier, the name and the arguments are its own, and arguments that
/// are not JSON count as an object without members.
pub open spec fn comes_to(
    pending: PendingToolCallView,
    arguments: Option<JsonView>,
    reasoning: Seq<char>,
    call: ToolCallView,
) -> bool {
    &&& call.id == pending.id
    &&& call.name == pending.name
    &&& arguments matches Some(v) ==> call.arguments == v
    &&& arguments is None ==> call.arguments == JsonView::Object(Map::empty())
    &&& reasoning.len() == 0 ==> call.reasoning is None
    &&& reasoning.len() > 0 ==> call.reasoning == Some(reasoning)
}

/// The tool calls of the reply are the pending calls that have a name, all of them
/// and in their order. Each has the arguments that its own text is read as, whatever
/// the reasoning is and whatever else was received.
pub proof fn law_reply_has_every_named_call(state: StreamStateView)
    ensures
        ({
            let named = state.tool_calls.filter(|c: PendingToolCallView| c.name.len() > 0);
            let out = state.response().tool_calls;
            &&& out.len() == named.len()
            &&& forall|i: int|
                0 <= i < out.len() ==> comes_to(
                    named[i],
                    crate::wire::json_parse(named[i].arguments),
                    state.reasoning,
                    #[trigger] out[i],
                )
        }),
        ({
            let out = state.response().tool_calls;
            (forall|i: int|
                0 <= i < state.tool_calls.len() ==> (#[trigger] state.tool_calls[i]).name.len() > 0)
                ==> {
                &&& out.len() == state.tool_calls.len()
                &&& forall|i: int|
                    0 <= i < out.len() ==> comes_to(
                        state.tool_calls[i],
                        crate::wire::json_parse(state.tool_calls[i].arguments),
                        state.reasoning,
                        #[trigger] out[i],
                    )
            }
        }),
    decreases state.tool_calls.len(),
{
    let calls = state.tool_calls;
    let read = |c: PendingToolCallView| crate::wire::json_parse(c.arguments);
    reveal(Seq::filter);
    if calls.len() > 0 {
        let shorter = StreamStateView { tool_calls: calls.drop_last(), ..state };
        law_reply_has_every_named_call(shorter);
        assert(calls.map_values(read).drop_last() =~= calls.drop_last().map_values(read));
        let out = shorter.response().tool_calls;
        if calls.last().name.len() > 0 {
            assert(state.response().tool_calls.drop_last() =~= out);
        } else {
            assert(state.response().tool_calls == out);
        }
        if forall|i: int| 0 <= i < calls.len() ==> (#[trigger] calls[i]).name.len() > 0 {
            assert(calls[calls.len() - 1].name.len() > 0);
            assert forall|i: int| 0 <= i < calls.drop_last().len() implies (
            #[trigger] calls.drop_last()[i]).name.len() > 0 by {
                assert(calls[i].name.len() > 0);
            }
        }
    }
}

/// The same where the arguments were read beforehand: each named call gets those
/// that were read for it.
pub proof fn law_assembled_calls_get_their_arguments(
    state: StreamStateView,
    arguments: Seq<Option<JsonView>>,
)
    requires
        arguments.len() == state.tool_calls.len(),
    ensures
        ({
            let named = state.tool_calls.zip_with(arguments).filter(
                |c: (PendingToolCallView, Option<JsonView>)| c.0.name.len() > 0,
            );
            let out = state.assembled(arguments).tool_calls;
            &&& out.len() == named.len()
            &&& forall|i: int|
                0 <= i < out.len() ==> comes_to(
                    named[i].0,
                    named[i].1,
                    state.reasoning,
                    #[trigger] out[i],
                )
        }),
    decreases state.tool_calls.len(),
{
    let calls = state.tool_calls;
    reveal(Seq::filter);
    if calls.len() > 0 {
        let shorter = StreamStateView { tool_calls: calls.drop_last(), ..state };
        law_assembled_calls_get_their_arguments(shorter, arguments.drop_last());
        assert(calls.zip_with(arguments).drop_last() =~= calls.drop_last().zip_with(
            arguments.drop_last(),
        ));
        let out = shorter.assembled(arguments.drop_last()).tool_calls;
        if calls.last().name.len() > 0 {
            assert(state.assembled(arguments).tool_calls.drop_last() =~= out);
        } else {
            assert(state.assembled(arguments).tool_calls == out);
        }
    }
}

/// The rest of the reply is what the stream has left: the counts and the reason for
/// stopping are those of the state, nothing is said of a cache, and the text does not
/// depend on what the arguments of the tool calls were read as.
pub proof fn law_rest_of_the_reply(state: StreamStateView, arguments: Seq<Option<JsonView>>)
    ensures
        state.assembled(arguments).content == state.response().content,
        state.assembled(arguments).input_tokens == state.input_tokens,
        state.assembled(arguments).output_tokens == state.output_tokens,
        state.assembled(arguments).finish_reason == state.finish_reason,
        state.assembled(arguments).cache_read_input_tokens == 0,
        state.assembled(arguments).cache_creation_input_tokens == 0,
        state.response().input_tokens == state.input_tokens,
        state.response().output_tokens == state.output_tokens,
        state.response().finish_reason == state.finish_reason,
        state.response().cache_read_input_tokens == 0,
        state.response().cache_creation_input_tokens == 0,
{
}

/// Where nothing has come yet, there is nothing in the state.
pub proof fn law_nothing_at_first()
    ensures
        StreamStateView::initial().text.len() == 0,
        StreamStateView::initial().reasoning.len() == 0,
        StreamStateView::initial().refusal.len() == 0,
        StreamStateView::initial().tool_calls.len() == 0,
        StreamStateView::initial().finish_reason == FinishReason::Stop,
        StreamStateView::initial().input_tokens == 0,
        StreamStateView::initial().output_tokens == 0,
{
}

/// A call without a name is left out, and the calls on both sides of it stay as
/// they are.
pub proof fn law_unnamed_calls_are_left_out(
    before: Seq<PendingToolCallView>,
    arguments_before: Seq<Option<JsonView>>,
    after: Seq<PendingToolCallView>,
    arguments_after: Seq<Option<JsonView>>,
    unnamed: PendingToolCallView,
    arguments: Option<JsonView>,
    reasoning: Option<Seq<char>>,
)
    requires
        before.len() == arguments_before.len(),
        after.len() == arguments_after.len(),
        unnamed.name.len() == 0,
    ensures
        crate::stream::completed(
            before + seq![unnamed] + after,
            arguments_before + seq![arguments] + arguments_after,
            reasoning,
        ) == crate::stream::completed(before, arguments_before, reasoning)
            + crate::stream::completed(after, arguments_after, reasoning),
    decreases after.len(),
{
    let calls = before + seq![unnamed] + after;
    let read = arguments_before + seq![arguments] + arguments_after;
    if after.len() == 0 {
        assert(calls.drop_last() =~= before);
        assert(read.drop_last() =~= arguments_before);
    } else {
        law_unnamed_calls_are_left_out(
            before,
            arguments_before,
            after.drop_last(),
            arguments_after.drop_last(),
            unnamed,
            arguments,
            reasoning,
        );
        assert(calls.drop_last() =~= before + seq![unnamed] + after.drop_last());
        assert(read.drop_last() =~= arguments_before + seq![arguments]
            + arguments_after.drop_last());
    }
}

// Requests.

/// Every request asks for a stream and for the token counts at its end, and names
/// the model: its own one where it has one. Tools are sent where there are any,
/// and a rule on their choice goes with them only.
pub proof fn law_every_request_streams(
    request: ToolCompletionRequestView,
    model: Seq<char>,
    strict: bool,
)
    ensures
        ({
            let body = crate::request::request_body(request, model, strict);
            &&& body.field("stream"@) == Some(JsonView::Bool(true))
            &&& body.field("stream_options"@) == Some(
                JsonView::empty().with("include_usage"@, JsonView::Bool(true)),
            )
            &&& body.text_field("model"@) == Some(
                match request.model {
                    Some(own) => own,
                    None => model,
                },
            )
            &&& body.field("messages"@) == Some(
                JsonView::Array(crate::request::messages_json(request.messages)),
            )
            &&& body.field("tools"@) == (if request.tools.len() == 0 {
                None
            } else {
                Some(JsonView::Array(crate::request::tools_json(request.tools, strict)))
            })
            &&& body.text_field("tool_choice"@) == (if request.tools.len() == 0 {
                None
            } else {
                request.tool_choice
            })
            &&& body.field("temperature"@) == (match request.temperature {
                Some(t) => Some(t.json()),
                None => None,
            })
            &&& body.unsigned_field("max_tokens"@) == (match request.max_tokens {
                Some(max) => Some(max as u64),
                None => None,
            })
        }),
{
    lemma_body_names();
}

/// The messages keep their order, and only those of the user that hold neither
/// text nor parts are left out.
pub proof fn law_messages_keep_their_order(
    first: Seq<ChatMessageView>,
    second: Seq<ChatMessageView>,
    message: ChatMessageView,
)
    ensures
        crate::request::messages_json(first + second) == crate::request::messages_json(first)
            + crate::request::messages_json(second),
        crate::request::message_json(message) is None <==> message.role == Role::User
            && message.content.len() == 0 && message.content_parts.len() == 0,
    decreases second.len(),
{
    if second.len() == 0 {
        assert(first + second =~= first);
    } else {
        law_messages_keep_their_order(first, second.drop_last(), message);
        assert((first + second).drop_last() =~= first + second.drop_last());
    }
}

/// The names of the members of an object.
pub open spec fn names_in(v: JsonView) -> Set<Seq<char>> {
    v->Object_0.dom()
}

/// Whether a message says nothing that could be sent: one of the user without text
/// and without parts.
pub open spec fn says_nothing(message: ChatMessageView) -> bool {
    message.role == Role::User && message.content.len() == 0 && message.content_parts.len() == 0
}

/// Whether `sent` is a part with this text.
pub open spec fn is_text_part(sent: JsonView, text: Seq<char>) -> bool {
    &&& sent is Object
    &&& names_in(sent) == set!["type"@, "text"@]
    &&& string_at(Some(sent), "type"@) == Some("text"@)
    &&& string_at(Some(sent), "text"@) == Some(text)
}

/// Whether `sent` is a part with the image at this address.
pub open spec fn is_image_part(sent: JsonView, url: Seq<char>) -> bool {
    let image = member(Some(sent), "image_url"@);
    &&& sent is Object
    &&& names_in(sent) == set!["type"@, "image_url"@]
    &&& string_at(Some(sent), "type"@) == Some("image_url"@)
    &&& image matches Some(JsonView::Object(members)) && members.dom() == set!["url"@]
    &&& string_at(image, "url"@) == Some(url)
}

/// Whether `sent` are the parts of a message: its text, then its images in their
/// order, and nothing else.
pub open spec fn are_parts(sent: Seq<JsonView>, message: ChatMessageView) -> bool {
    let images = message.content_parts.filter(|p: ContentPartView| p is ImageUrl);
    &&& sent.len() == images.len() + 1
    &&& is_text_part(sent[0], message.content)
    &&& forall|i: int|
        0 <= i < images.len() ==> is_image_part(#[trigger] sent[i + 1], images[i]->ImageUrl_url)
}

/// Whether `sent` is a call of a function with this text as its arguments.
pub open spec fn is_function_call(
    sent: JsonView,
    id: Seq<char>,
    name: Seq<char>,
    arguments: Seq<char>,
) -> bool {
    let function = member(Some(sent), "function"@);
    &&& sent is Object
    &&& names_in(sent) == set!["id"@, "type"@, "function"@]
    &&& string_at(Some(sent), "id"@) == Some(id)
    &&& string_at(Some(sent), "type"@) == Some("function"@)
    &&& function matches Some(JsonView::Object(members)) && members.dom() == set![
        "name"@,
        "arguments"@,
    ]
    &&& string_at(function, "name"@) == Some(name)
    &&& string_at(function, "arguments"@) == Some(arguments)
}

/// Whether `sent` is a tool call as it goes back to the provider.
pub open spec fn is_sent_call(sent: JsonView, call: ToolCallView) -> bool {
    is_function_call(sent, call.id, call.name, crate::wire::json_text(call.arguments))
}

/// Whether `sent` is a message as the provider wants it: the role, what was said, and
/// with a role that has it the calls or the call that is answered. What the message
/// has of these is there, and nothing else.
pub open spec fn is_sent_message(sent: JsonView, message: ChatMessageView) -> bool {
    let content = member(Some(sent), "content"@);
    &&& sent is Object
    &&& string_at(Some(sent), "role"@) == Some(
        match message.role {
            Role::System => "system"@,
            Role::User => "user"@,
            Role::Assistant => "assistant"@,
            Role::Tool => "tool"@,
        },
    )
    &&& match message.role {
        Role::System => {
            &&& names_in(sent) == set!["role"@, "content"@]
            &&& content == Some(JsonView::Text(message.content))
        },
        Role::User => {
            &&& names_in(sent) == set!["role"@, "content"@]
            &&& message.content_parts.len() == 0 ==> content == Some(
                JsonView::Text(message.content),
            )
            &&& message.content_parts.len() > 0 ==> (content matches Some(JsonView::Array(parts))
                && are_parts(parts, message))
        },
        Role::Assistant => {
            let calls = member(Some(sent), "tool_calls"@);
            &&& names_in(sent).subset_of(set!["role"@, "content"@, "tool_calls"@])
            &&& message.content.len() > 0 ==> content == Some(JsonView::Text(message.content))
            &&& message.content.len() == 0 ==> content is None
            &&& message.tool_calls is None ==> calls is None
            &&& message.tool_calls matches Some(made) ==> (calls matches Some(
                JsonView::Array(entries),
            ) && entries.len() == made.len() && forall|i: int|
                0 <= i < made.len() ==> is_sent_call(#[trigger] entries[i], made[i]))
        },
        Role::Tool => {
            &&& names_in(sent) == set!["role"@, "content"@, "tool_call_id"@]
            &&& content == Some(JsonView::Text(message.content))
            &&& string_at(Some(sent), "tool_call_id"@) == Some(
                match message.tool_call_id {
                    Some(id) => id,
                    None => Seq::empty(),
                },
            )
        },
    }
}

/// The names in what is sent all differ.
proof fn lemma_names_differ()
    ensures
        "role"@ != "content"@ && "role"@ != "tool_calls"@ && "role"@ != "tool_call_id"@,
        "content"@ != "tool_calls"@ && "content"@ != "tool_call_id"@,
        "tool_calls"@ != "tool_call_id"@,
        "type"@ != "text"@ && "type"@ != "image_url"@,
        "id"@ != "type"@ && "id"@ != "function"@ && "type"@ != "function"@,
        "name"@ != "arguments"@ && "name"@ != "description"@ && "name"@ != "parameters"@,
        "description"@ != "parameters"@,
{
    reveal_strlit("role");
    reveal_strlit("content");
    reveal_strlit("tool_calls");
    reveal_strlit("tool_call_id");
    reveal_strlit("type");
    reveal_strlit("text");
    reveal_strlit("image_url");
    reveal_strlit("id");
    reveal_strlit("function");
    reveal_strlit("name");
    reveal_strlit("arguments");
    reveal_strlit("description");
    reveal_strlit("parameters");
    assert("role"@.len() == 4 && "content"@.len() == 7 && "tool_calls"@.len() == 10);
    assert("tool_call_id"@.len() == 12 && "type"@.len() == 4 && "text"@.len() == 4);
    assert("type"@[1] == 'y' && "text"@[1] == 'e');
    assert("image_url"@.len() == 9 && "id"@.len() == 2 && "function"@.len() == 8);
    assert("name"@.len() == 4 && "arguments"@.len() == 9);
    assert("description"@.len() == 11 && "parameters"@.len() == 10);
}

/// Every message of more than text carries its text and all its images.
pub proof fn law_parts_are_the_text_and_the_images(message: ChatMessageView)
    ensures
        are_parts(crate::request::parts_json(message), message),
    decreases message.content_parts.len(),
{
    lemma_names_differ();
    reveal(Seq::filter);
    let parts = message.content_parts;
    let sent = crate::request::parts_json(message);
    assert(names_in(sent[0]) =~= set!["type"@, "text"@]);
    if parts.len() > 0 {
        let shorter = ChatMessageView { content_parts: parts.drop_last(), ..message };
        law_parts_are_the_text_and_the_images(shorter);
        let before = crate::request::parts_json(shorter);
        let images = parts.filter(|p: ContentPartView| p is ImageUrl);
        match parts.last() {
            ContentPartView::ImageUrl { url } => {
                let image = crate::request::image_json(url);
                assert(sent =~= before.push(image));
                assert(names_in(image) =~= set!["type"@, "image_url"@]);
                assert(member(Some(image), "image_url"@)->Some_0->Object_0.dom() =~= set!["url"@]);
                assert(is_image_part(image, url));
                assert forall|i: int| 0 <= i < images.len() implies is_image_part(
                    #[trigger] sent[i + 1],
                    images[i]->ImageUrl_url,
                ) by {
                    if i < images.len() - 1 {
                        assert(sent[i + 1] == before[i + 1]);
                    }
                }
            },
            ContentPartView::Text { .. } => {
                assert(sent =~= before);
            },
        }
    }
}

/// A call is sent with its identifier, its name and the text of its arguments, each as
/// it is.
pub proof fn law_call_is_sent(id: Seq<char>, name: Seq<char>, arguments: Seq<char>)
    ensures
        is_function_call(
            crate::request::function_call_json(id, name, arguments),
            id,
            name,
            arguments,
        ),
{
    lemma_names_differ();
    let sent = crate::request::function_call_json(id, name, arguments);
    assert(names_in(sent) =~= set!["id"@, "type"@, "function"@]);
    assert(member(Some(sent), "function"@)->Some_0->Object_0.dom() =~= set![
        "name"@,
        "arguments"@,
    ]);
}

/// A message is sent, and sent with all that it says, unless it says nothing.
pub proof fn law_message_is_sent(message: ChatMessageView)
    ensures
        says_nothing(message) <==> crate::request::message_json(message) is None,
        crate::request::message_json(message) matches Some(sent) ==> is_sent_message(sent, message),
{
    lemma_names_differ();
    if let Some(sent) = crate::request::message_json(message) {
        match message.role {
            Role::System => {
                assert(names_in(sent) =~= set!["role"@, "content"@]);
            },
            Role::User => {
                law_parts_are_the_text_and_the_images(message);
                assert(names_in(sent) =~= set!["role"@, "content"@]);
            },
            Role::Assistant => {
                if let Some(made) = message.tool_calls {
                    let entries = member(Some(sent), "tool_calls"@)->Some_0->Array_0;
                    assert forall|i: int| 0 <= i < made.len() implies is_sent_call(
                        #[trigger] entries[i],
                        made[i],
                    ) by {
                        assert(entries[i] == crate::request::tool_call_json(made[i]));
                        law_call_is_sent(
                            made[i].id,
                            made[i].name,
                            crate::wire::json_text(made[i].arguments),
                        );
                    }
                }
            },
            Role::Tool => {
                assert(names_in(sent) =~= set!["role"@, "content"@, "tool_call_id"@]);
            },
        }
    }
}

/// Whether `sent` are the messages of a chat: those that say something, all of them
/// and in their order.
pub open spec fn are_sent_messages(sent: Seq<JsonView>, messages: Seq<ChatMessageView>) -> bool {
    let speaking = messages.filter(|m: ChatMessageView| !says_nothing(m));
    &&& sent.len() == speaking.len()
    &&& forall|i: int| 0 <= i < sent.len() ==> is_sent_message(#[trigger] sent[i], speaking[i])
}

/// Every message that says something is sent, whoever it is from, each at its place.
pub proof fn law_every_speaking_message_is_sent(messages: Seq<ChatMessageView>)
    ensures
        are_sent_messages(crate::request::messages_json(messages), messages),
        (forall|i: int| 0 <= i < messages.len() ==> !says_nothing(#[trigger] messages[i])) ==> {
            let sent = crate::request::messages_json(messages);
            &&& sent.len() == messages.len()
            &&& forall|i: int|
                0 <= i < sent.len() ==> is_sent_message(#[trigger] sent[i], messages[i])
        },
    decreases messages.len(),
{
    reveal(Seq::filter);
    if messages.len() > 0 {
        let before = messages.drop_last();
        law_every_speaking_message_is_sent(before);
        law_message_is_sent(messages.last());
        let sent = crate::request::messages_json(messages);
        if says_nothing(messages.last()) {
            assert(sent == crate::request::messages_json(before));
        } else {
            assert(sent.drop_last() =~= crate::request::messages_json(before));
        }
        if forall|i: int| 0 <= i < messages.len() ==> !says_nothing(#[trigger] messages[i]) {
            assert(!says_nothing(messages[messages.len() - 1]));
            assert forall|i: int| 0 <= i < before.len() implies !says_nothing(
                #[trigger] before[i],
            ) by {
                assert(!says_nothing(messages[i]));
            }
        }
    }
}

/// Whether `sent` is a tool as the provider wants it.
pub open spec fn is_sent_tool(sent: JsonView, tool: ToolDefinitionView, strict: bool) -> bool {
    let function = member(Some(sent), "function"@);
    &&& sent is Object
    &&& names_in(sent) == set!["type"@, "function"@]
    &&& string_at(Some(sent), "type"@) == Some("function"@)
    &&& function matches Some(JsonView::Object(members)) && members.dom() == set![
        "name"@,
        "description"@,
        "parameters"@,
    ]
    &&& string_at(function, "name"@) == Some(tool.name)
    &&& string_at(function, "description"@) == Some(tool.description)
    &&& strict ==> member(function, "parameters"@) == Some(tool.strict_parameters)
    &&& !strict ==> member(function, "parameters"@) == Some(tool.parameters)
}

/// Every tool is offered, each at its place, with its name, its description and the
/// schema that was asked for.
pub proof fn law_every_tool_is_offered(tools: Seq<ToolDefinitionView>, strict: bool)
    ensures
        crate::request::tools_json(tools, strict).len() == tools.len(),
        forall|i: int|
            0 <= i < tools.len() ==> is_sent_tool(
                #[trigger] crate::request::tools_json(tools, strict)[i],
                tools[i],
                strict,
            ),
{
    lemma_names_differ();
    assert forall|i: int| 0 <= i < tools.len() implies is_sent_tool(
        #[trigger] crate::request::tools_json(tools, strict)[i],
        tools[i],
        strict,
    ) by {
        let sent = crate::request::tools_json(tools, strict)[i];
        assert(sent == crate::request::tool_json(tools[i], strict));
        assert(names_in(sent) =~= set!["type"@, "function"@]);
        assert(member(Some(sent), "function"@)->Some_0->Object_0.dom() =~= set![
            "name"@,
            "description"@,
            "parameters"@,
        ]);
    }
}

/// The body of a request holds the whole request: every message that says something,
/// every tool, and the settings that were made. What was not set is not there, and a
/// rule on the choice of tools is not sent without tools.
pub proof fn law_body_holds_the_request(
    request: ToolCompletionRequestView,
    model: Seq<char>,
    strict: bool,
)
    ensures
        ({
            let body = Some(crate::request::request_body(request, model, strict));
            &&& body->Some_0 is Object
            &&& names_in(body->Some_0).subset_of(
                set![
                    "model"@,
                    "messages"@,
                    "stream"@,
                    "stream_options"@,
                    "tools"@,
                    "tool_choice"@,
                    "temperature"@,
                    "max_tokens"@,
                ],
            )
            &&& request.model matches Some(own) ==> string_at(body, "model"@) == Some(own)
            &&& request.model is None ==> string_at(body, "model"@) == Some(model)
            &&& member(body, "stream"@) == Some(JsonView::Bool(true))
            &&& member(body, "stream_options"@) matches Some(JsonView::Object(options))
                && options.dom() == set!["include_usage"@] && options["include_usage"@]
                == JsonView::Bool(true)
            &&& member(body, "messages"@) matches Some(JsonView::Array(sent)) && are_sent_messages(
                sent,
                request.messages,
            )
        }),
        ({
            let body = Some(crate::request::request_body(request, model, strict));
            &&& request.tools.len() == 0 ==> member(body, "tools"@) is None && member(
                body,
                "tool_choice"@,
            ) is None
            &&& request.tools.len() > 0 ==> {
                &&& member(body, "tools"@) matches Some(JsonView::Array(sent)) && sent.len()
                    == request.tools.len() && forall|i: int|
                    0 <= i < sent.len() ==> is_sent_tool(
                        #[trigger] sent[i],
                        request.tools[i],
                        strict,
                    )
                &&& request.tool_choice is None ==> member(body, "tool_choice"@) is None
                &&& request.tool_choice matches Some(choice) ==> string_at(body, "tool_choice"@)
                    == Some(choice)
            }
        }),
        ({
            let body = Some(crate::request::request_body(request, model, strict));
            &&& request.temperature is None ==> member(body, "temperature"@) is None
            &&& request.temperature matches Some(t) ==> member(body, "temperature"@) == Some(
                t.json(),
            )
            &&& request.max_tokens is None ==> member(body, "max_tokens"@) is None
            &&& request.max_tokens matches Some(max) ==> member(body, "max_tokens"@) == Some(
                JsonView::Number(NumberView::Int(max as int)),
            )
        }),
{
    let body = crate::request::request_body(request, model, strict);
    law_every_request_streams(request, model, strict);
    law_every_speaking_message_is_sent(request.messages);
    law_every_tool_is_offered(request.tools, strict);
    lemma_body_names();
    assert(member(Some(body), "stream_options"@)->Some_0->Object_0.dom() =~= set![
        "include_usage"@,
    ]);
}

/// The names in the body of a request all differ.
proof fn lemma_body_names()
    ensures
        "model"@ != "messages"@ && "model"@ != "stream"@ && "model"@ != "stream_options"@,
        "model"@ != "tools"@ && "model"@ != "tool_choice"@ && "model"@ != "temperature"@,
        "model"@ != "max_tokens"@ && "messages"@ != "stream"@ && "messages"@ != "stream_options"@,
        "messages"@ != "tools"@ && "messages"@ != "tool_choice"@ && "messages"@ != "temperature"@,
        "messages"@ != "max_tokens"@ && "stream"@ != "stream_options"@ && "stream"@ != "tools"@,
        "stream"@ != "tool_choice"@ && "stream"@ != "temperature"@ && "stream"@ != "max_tokens"@,
        "stream_options"@ != "tools"@ && "stream_options"@ != "tool_choice"@,
        "stream_options"@ != "temperature"@ && "stream_options"@ != "max_tokens"@,
        "tools"@ != "tool_choice"@ && "tools"@ != "temperature"@ && "tools"@ != "max_tokens"@,
        "tool_choice"@ != "temperature"@ && "tool_choice"@ != "max_tokens"@,
        "temperature"@ != "max_tokens"@,
{
    reveal_strlit("model");
    reveal_strlit("messages");
    reveal_strlit("stream");
    reveal_strlit("stream_options");
    reveal_strlit("tools");
    reveal_strlit("tool_choice");
    reveal_strlit("temperature");
    reveal_strlit("max_tokens");
    // Names of one length differ in their first or second letter.
    assert("model"@[0] == 'm' && "tools"@[0] == 't');
    assert("tool_choice"@[1] == 'o' && "temperature"@[1] == 'e');
    assert("model"@.len() == 5 && "messages"@.len() == 8 && "stream"@.len() == 6);
    assert("stream_options"@.len() == 14 && "tools"@.len() == 5 && "max_tokens"@.len() == 10);
    assert("tool_choice"@.len() == 11 && "temperature"@.len() == 11);
}

/// The tool calls of the model are sent back in their order, each with its
/// identifier, its type, its name and its arguments. The arguments are a JSON
/// string, whatever value they are, and the reasoning is not sent.
pub proof fn law_sent_tool_calls(message: ChatMessageView, i: int)
    requires
        message.role == Role::Assistant,
        message.tool_calls matches Some(calls) && 0 <= i < calls.len(),
    ensures
        ({
            let call = message.tool_calls->Some_0[i];
            let sent = crate::request::message_json(message)->Some_0.field(
                "tool_calls"@,
            )->Some_0.item(i);
            &&& sent matches Some(entry)
            &&& entry.text_field("id"@) == Some(call.id)
            &&& entry.text_field("type"@) == Some("function"@)
            &&& crate::stream::function_text(entry, "name"@) == Some(call.name)
            &&& crate::stream::function_text(entry, "arguments"@) == Some(
                crate::wire::json_text(call.arguments),
            )
            &&& entry.field("reasoning"@) is None
        }),
{
    reveal_strlit("id");
    reveal_strlit("type");
    reveal_strlit("function");
    reveal_strlit("name");
    reveal_strlit("arguments");
    reveal_strlit("reasoning");
    assert("id"@.len() == 2 && "type"@.len() == 4 && "function"@.len() == 8);
    assert("name"@.len() == 4 && "arguments"@.len() == 9 && "reasoning"@.len() == 9);
}

/// Where the arguments of the calls in a message come back, the string that is sent for
/// each is read as the very arguments, as far as reading gives values back.
pub proof fn law_sent_arguments_are_read_back(
    message: ChatMessageView,
    sent: Option<JsonView>,
    i: int,
)
    requires
        crate::request::arguments_come_back(message, sent),
        message.role == Role::Assistant,
        message.tool_calls matches Some(calls) && 0 <= i < calls.len() && crate::wire::reads_back(
            calls[i].arguments,
        ),
    ensures
        ({
            let call = element(member(sent, "tool_calls"@), i);
            &&& string_at(member(call, "function"@), "arguments"@) matches Some(text)
            &&& crate::wire::json_parse(text) == Some(message.tool_calls->Some_0[i].arguments)
        }),
{
    assert(crate::wire::reads_back(message.tool_calls->Some_0[i].arguments));
}

/// A base address that does not end in a slash is followed by the path of the
/// endpoint, and however many slashes are put at its end, the address of the
/// endpoint stays the same.
pub proof fn law_end_slashes_do_not_matter(base_url: Seq<char>, n: nat)
    ensures
        crate::request::completions_url_of(base_url + Seq::new(n, |i: int| '/'))
            == crate::request::completions_url_of(base_url),
        (base_url.len() == 0 || base_url.last() != '/') ==> crate::request::completions_url_of(
            base_url,
        ) == base_url + "/chat/completions"@,
    decreases n,
{
    let longer = base_url + Seq::new(n, |i: int| '/');
    if n == 0 {
        assert(longer =~= base_url);
    } else {
        law_end_slashes_do_not_matter(base_url, (n - 1) as nat);
        assert(longer.drop_last() =~= base_url + Seq::new((n - 1) as nat, |i: int| '/'));
    }
}

// Error answers.

/// What is quoted of a body is its start, and never more than the limit.
pub proof fn law_quote_is_a_short_start(body: Seq<char>)
    requires
        crate::response::can_truncate(body),
    ensures
        crate::response::truncated(body).is_prefix_of(body),
        vstd::utf8::encode_utf8(crate::response::truncated(body)).len()
            <= crate::response::QUOTED_BYTES,
{
    let bytes = vstd::utf8::encode_utf8(body);
    let cut = crate::response::QUOTED_BYTES as int;
    if bytes.len() > crate::response::QUOTED_BYTES {
        vstd::utf8::encode_utf8_valid_utf8(body);
        vstd::utf8::encode_utf8_decode_utf8(body);
        vstd::utf8::valid_utf8_split(bytes, cut);
        vstd::utf8::decode_utf8_split(bytes, cut);
        vstd::utf8::decode_utf8_encode_utf8(bytes.subrange(0, cut));
    }
}

/// Where a body has to be cut, exactly the limit is quoted; a shorter one is quoted
/// whole.
pub proof fn law_quote_is_as_long_as_it_may_be(body: Seq<char>)
    requires
        crate::response::can_truncate(body),
    ensures
        vstd::utf8::encode_utf8(body).len() <= 500 ==> crate::response::truncated(body) == body,
        vstd::utf8::encode_utf8(body).len() > 500 ==> crate::response::truncated(body).is_prefix_of(
            body,
        ) && vstd::utf8::encode_utf8(crate::response::truncated(body)).len() == 500,
{
    let bytes = vstd::utf8::encode_utf8(body);
    law_quote_is_a_short_start(body);
    if bytes.len() > 500 {
        vstd::utf8::encode_utf8_valid_utf8(body);
        vstd::utf8::valid_utf8_split(bytes, 500);
        vstd::utf8::decode_utf8_encode_utf8(bytes.subrange(0, 500));
    }
}

/// A body can be quoted where it is within the limit or some of its characters, from
/// the first on, fill the limit exactly.
pub proof fn law_what_can_be_quoted(body: Seq<char>)
    ensures
        crate::response::can_truncate(body) <==> vstd::utf8::encode_utf8(body).len() <= 500
            || exists|n: int|
            0 <= n <= body.len() && vstd::utf8::encode_utf8(#[trigger] body.subrange(0, n)).len()
                == 500,
{
    if crate::response::can_truncate(body) {
        law_quote_is_as_long_as_it_may_be(body);
        let quote = crate::response::truncated(body);
        if vstd::utf8::encode_utf8(body).len() > 500 {
            assert(body.subrange(0, quote.len() as int) =~= quote);
        }
    }
    if exists|n: int|
        0 <= n <= body.len() && vstd::utf8::encode_utf8(#[trigger] body.subrange(0, n)).len()
            == 500 {
        let n = choose|n: int|
            0 <= n <= body.len() && vstd::utf8::encode_utf8(#[trigger] body.subrange(0, n)).len()
                == 500;
        lemma_characters_end_at_boundaries(body, n);
    }
}

proof fn lemma_characters_end_at_boundaries(chars: Seq<char>, n: int)
    requires
        0 <= n <= chars.len(),
    ensures
        vstd::utf8::is_char_boundary(
            vstd::utf8::encode_utf8(chars),
            vstd::utf8::encode_utf8(chars.subrange(0, n)).len() as int,
        ),
        vstd::utf8::encode_utf8(chars.subrange(0, n)).len() <= vstd::utf8::encode_utf8(chars).len(),
    decreases n,
{
    let bytes = vstd::utf8::encode_utf8(chars);
    vstd::utf8::encode_utf8_valid_utf8(chars);
    if n == 0 {
        assert(chars.subrange(0, n) =~= Seq::empty());
    } else {
        let rest = chars.drop_first();
        lemma_characters_end_at_boundaries(rest, n - 1);
        assert(chars.subrange(0, n).drop_first() =~= rest.subrange(0, n - 1));
        vstd::utf8::encode_utf8_first_scalar(chars);
        assert(vstd::utf8::pop_first_scalar(bytes) =~= vstd::utf8::encode_utf8(rest));
    }
}

/// Whether `part` stands somewhere in `whole`.
pub open spec fn appears(part: Seq<char>, whole: Seq<char>) -> bool {
    exists|before: Seq<char>, after: Seq<char>| whole == #[trigger] (before + part + after)
}

/// A text is found exactly where something, if only nothing, stands before and after
/// it.
pub proof fn law_found_text_stands_between(part: Seq<char>, whole: Seq<char>)
    ensures
        crate::text::occurs_in(part, whole) <==> appears(part, whole),
{
    if crate::text::occurs_in(part, whole) {
        let at = choose|at: int| #[trigger] crate::text::occurs_at(part, whole, at);
        let before = whole.subrange(0, at);
        let after = whole.subrange(at + part.len(), whole.len() as int);
        assert(whole =~= before + part + after);
    }
    if appears(part, whole) {
        let (before, after) = choose|before: Seq<char>, after: Seq<char>|
            whole == #[trigger] (before + part + after);
        let at = before.len() as int;
        assert(whole.subrange(at, at + part.len()) =~= part);
        assert(crate::text::occurs_at(part, whole, at));
    }
}

/// Whether a message in lower case speaks of a chat that is too long.
pub open spec fn speaks_of_length(lowered: Seq<char>) -> bool {
    ||| appears("context length"@, lowered)
    ||| appears("maximum context"@, lowered)
    ||| appears("token limit"@, lowered)
}

/// The message in the body of an error.
pub open spec fn message_in(parsed: Option<JsonView>) -> Option<Seq<char>> {
    string_at(member(parsed, "error"@), "message"@)
}

/// The error for an answer, given its message in lower case: a chat that is too long
/// is reported as that, whatever the status, and anything else with the status and a
/// quote of the body.
pub proof fn law_error_by_message(status: u16, body: Seq<char>, lowered: Option<Seq<char>>)
    ensures
        ({
            let error = crate::response::response_error_of(status, body, lowered);
            let too_long = lowered matches Some(message) && speaks_of_length(message);
            &&& too_long <==> crate::response::about_context(lowered)
            &&& too_long ==> error == LlmErrorView::ContextLengthExceeded { used: 0, limit: 0 }
            &&& !too_long ==> error == LlmErrorView::RequestFailed {
                provider: "openai_streaming"@,
                reason: "HTTP "@ + crate::text::decimal_digits(status as nat) + ": "@
                    + crate::response::truncated(body),
            }
        }),
        lowered matches Some(message) ==> crate::response::names_context_limit(message)
            == speaks_of_length(message),
{
    if let Some(message) = lowered {
        law_found_text_stands_between("context length"@, message);
        law_found_text_stands_between("maximum context"@, message);
        law_found_text_stands_between("token limit"@, message);
    }
}

/// The error for an answer, by what its body is read as: the chat is reported as too
/// long exactly where the string under `message` of the object under `error` says so
/// in whatever case. Nothing else in the body matters.
pub proof fn law_error_by_body(status: u16, body: Seq<char>)
    ensures
        ({
            let error = crate::response::response_error_of(
                status,
                body,
                crate::response::lowered_message(body),
            );
            let message = message_in(crate::wire::json_parse(body));
            let too_long = message matches Some(m) && speaks_of_length(crate::text::lowercase(m));
            &&& too_long <==> crate::response::context_exceeded(body)
            &&& too_long <==> error is ContextLengthExceeded
            &&& too_long ==> error == LlmErrorView::ContextLengthExceeded { used: 0, limit: 0 }
            &&& !too_long ==> error == LlmErrorView::RequestFailed {
                provider: "openai_streaming"@,
                reason: "HTTP "@ + crate::text::decimal_digits(status as nat) + ": "@
                    + crate::response::truncated(body),
            }
        }),
{
    law_error_by_message(status, body, crate::response::lowered_message(body));
    law_message_of_an_error(crate::wire::json_parse(body));
}

/// The message of an error is the string under `message` of the object under
/// `error`, whatever other members there are.
pub proof fn law_message_of_an_error(parsed: Option<JsonView>)
    ensures
        crate::response::message_of(parsed) == message_in(parsed),
{
}

// Texts.

/// Whether a character is one of those that Unicode calls white space.
pub open spec fn blank(c: char) -> bool {
    let n = c as int;
    ||| 9 <= n <= 13
    ||| n == 32
    ||| n == 0x85
    ||| n == 0xa0
    ||| n == 0x1680
    ||| 0x2000 <= n <= 0x200a
    ||| n == 0x2028
    ||| n == 0x2029
    ||| n == 0x202f
    ||| n == 0x205f
    ||| n == 0x3000
}

/// Whether all characters of a text are white space.
pub open spec fn all_blank(s: Seq<char>) -> bool {
    forall|i: int| 0 <= i < s.len() ==> blank(#[trigger] s[i])
}

/// Trimming takes white space away from both ends, all of it and nothing else.
pub proof fn law_trimming(s: Seq<char>)
    ensures
        exists|before: Seq<char>, after: Seq<char>|
            s == #[trigger] (before + crate::text::trimmed(s) + after) && all_blank(before)
                && all_blank(after),
        crate::text::trimmed(s).len() > 0 ==> !blank(crate::text::trimmed(s).first()) && !blank(
            crate::text::trimmed(s).last(),
        ),
    decreases s.len(),
{
    let t = crate::text::trimmed(s);
    if s.len() > 0 && crate::text::white_space(s.first()) {
        let shorter = s.drop_first();
        law_trimming(shorter);
        let (before, after) = choose|before: Seq<char>, after: Seq<char>|
            shorter == #[trigger] (before + crate::text::trimmed(shorter) + after) && all_blank(
                before,
            ) && all_blank(after);
        let longer = seq![s.first()] + before;
        assert(t == crate::text::trimmed(shorter));
        assert(s =~= seq![s.first()] + shorter);
        assert(s =~= longer + t + after);
        assert(all_blank(longer));
    } else if s.len() > 0 && crate::text::white_space(s.last()) {
        let shorter = s.drop_last();
        law_trimming(shorter);
        let (before, after) = choose|before: Seq<char>, after: Seq<char>|
            shorter == #[trigger] (before + crate::text::trimmed(shorter) + after) && all_blank(
                before,
            ) && all_blank(after);
        let longer = after.push(s.last());
        assert(t == crate::text::trimmed(shorter));
        assert(s =~= shorter.push(s.last()));
        assert(s =~= before + t + longer);
        assert(all_blank(longer));
    } else {
        assert(s =~= Seq::<char>::empty() + t + Seq::<char>::empty());
    }
}

/// Taking slashes away from the end of a text takes all of them and nothing else.
pub proof fn law_end_slashes(s: Seq<char>)
    ensures
        ({
            let kept = crate::text::without_end_slashes(s);
            &&& kept.is_prefix_of(s)
            &&& forall|i: int| kept.len() <= i < s.len() ==> #[trigger] s[i] == '/'
            &&& kept.len() > 0 ==> kept.last() != '/'
        }),
    decreases s.len(),
{
    if s.len() > 0 && s.last() == '/' {
        law_end_slashes(s.drop_last());
        let kept = crate::text::without_end_slashes(s);
        assert forall|i: int| kept.len() <= i < s.len() implies #[trigger] s[i] == '/' by {
            if i < s.len() - 1 {
                assert(s.drop_last()[i] == '/');
            }
        }
    }
}

/// The number that decimal digits stand for.
pub open spec fn number_of(digits: Seq<char>) -> int
    decreases digits.len(),
{
    if digits.len() == 0 {
        0
    } else {
        10 * number_of(digits.drop_last()) + (digits.last() as int - '0' as int)
    }
}

/// A number is written in digits, without a zero too many, and they stand for it.
pub proof fn law_decimal_digits(n: nat)
    ensures
        ({
            let digits = crate::text::decimal_digits(n);
            &&& digits.len() > 0
            &&& forall|i: int| 0 <= i < digits.len() ==> '0' <= #[trigger] digits[i] <= '9'
            &&& number_of(digits) == n
            &&& n > 0 ==> digits.first() != '0'
            &&& n == 0 ==> digits.len() == 1
        }),
    decreases n,
{
    let digits = crate::text::decimal_digits(n);
    if n < 10 {
        assert(digits.drop_last() =~= Seq::empty());
        assert(number_of(digits.drop_last()) == 0);
    } else {
        law_decimal_digits(n / 10);
        assert(digits.drop_last() =~= crate::text::decimal_digits(n / 10));
    }
}

// What values stand for.

/// Looking into a JSON value finds what is there, and nothing in a value of another
/// kind.
pub proof fn law_looking_into_json(v: JsonView, key: Seq<char>, i: int)
    ensures
        v.field(key) == member(Some(v), key),
        v.item(i) == element(Some(v), i),
        v.text_field(key) == string_at(Some(v), key),
        v.unsigned_field(key) == count_at(Some(v), key),
        v matches JsonView::Text(s) ==> v.text() == Some(s),
        v !is Text ==> v.text() is None,
        v matches JsonView::Number(NumberView::Int(n)) ==> (0 <= n < 0x1_0000_0000_0000_0000
            ==> v.unsigned() == Some(n as u64)),
        v.unsigned() matches Some(u) ==> v == JsonView::Number(NumberView::Int(u as int)),
{
}

/// What is put into an object is found there under its name, and everything else in
/// the object stays.
pub proof fn law_members_are_put_in(
    object: JsonView,
    key: Seq<char>,
    value: JsonView,
    other: Seq<char>,
)
    requires
        object is Object,
    ensures
        member(Some(JsonView::empty()), other) is None,
        JsonView::empty() is Object,
        object.with(key, value) is Object,
        member(Some(object.with(key, value)), key) == Some(value),
        other != key ==> member(Some(object.with(key, value)), other) == member(
            Some(object),
            other,
        ),
{
}

/// A value stands for what it holds: an array for its elements, one by one, and an
/// object for its members, of which the last under a name counts.
pub proof fn law_json_stands_for_what_it_holds(j: Json)
    ensures
        match j {
            Json::Null => j@ == JsonView::Null,
            Json::Bool(b) => j@ == JsonView::Bool(b),
            Json::Number(n) => j@ == n.json(),
            Json::Text(s) => j@ == JsonView::Text(s@),
            Json::Array(items) => {
                &&& j@ matches JsonView::Array(trees)
                &&& trees.len() == items@.len()
                &&& forall|i: int| 0 <= i < items@.len() ==> #[trigger] trees[i] == items@[i]@
            },
            Json::Object(members) => {
                &&& j@ matches JsonView::Object(found)
                &&& forall|name: Seq<char>|
                    #[trigger] found.contains_key(name) ==> exists|i: int|
                        0 <= i < members@.len() && (#[trigger] members@[i]).0@ == name
                &&& forall|i: int|
                    0 <= i < members@.len() ==> found.contains_key((#[trigger] members@[i]).0@)
                &&& forall|i: int|
                    0 <= i < members@.len() && (forall|k: int|
                        i < k < members@.len() ==> (#[trigger] members@[k]).0@ != members@[i].0@)
                        ==> found[(#[trigger] members@[i]).0@] == members@[i].1@
            },
        },
{
    match j {
        Json::Array(items) => {
            crate::json::lemma_trees(items@);
        },
        Json::Object(members) => {
            lemma_last_member_counts(members@);
        },
        _ => {},
    }
}

proof fn lemma_last_member_counts(members: Seq<(String, Json)>)
    ensures
        ({
            let found = Json::members(members);
            &&& forall|name: Seq<char>|
                #[trigger] found.contains_key(name) ==> exists|i: int|
                    0 <= i < members.len() && (#[trigger] members[i]).0@ == name
            &&& forall|i: int|
                0 <= i < members.len() ==> found.contains_key((#[trigger] members[i]).0@)
            &&& forall|i: int|
                0 <= i < members.len() && (forall|k: int|
                    i < k < members.len() ==> (#[trigger] members[k]).0@ != members[i].0@)
                    ==> found[(#[trigger] members[i]).0@] == members[i].1@
        }),
    decreases members.len(),
{
    if members.len() > 0 {
        let shorter = members.subrange(0, members.len() - 1);
        let last = members[members.len() - 1];
        let found = Json::members(members);
        lemma_last_member_counts(shorter);
        assert forall|name: Seq<char>| #[trigger] found.contains_key(name) implies exists|i: int|
            0 <= i < members.len() && (#[trigger] members[i]).0@ == name by {
            if name == last.0@ {
                assert(members[members.len() - 1].0@ == name);
            } else {
                assert(Json::members(shorter).contains_key(name));
                let i = choose|i: int| 0 <= i < shorter.len() && (#[trigger] shorter[i]).0@ == name;
                assert(members[i].0@ == name);
            }
        }
        assert forall|i: int| 0 <= i < members.len() implies found.contains_key(
            (#[trigger] members[i]).0@,
        ) by {
            if i < shorter.len() {
                assert(shorter[i] == members[i]);
            }
        }
        assert forall|i: int|
            0 <= i < members.len() && (forall|k: int|
                i < k < members.len() ==> (#[trigger] members[k]).0@ != members[i].0@) implies found[(
        #[trigger] members[i]).0@] == members[i].1@ by {
            if i < shorter.len() {
                assert(shorter[i] == members[i]);
                assert(last.0@ != members[i].0@);
                assert forall|k: int| i < k < shorter.len() implies (#[trigger] shorter[k]).0@
                    != shorter[i].0@ by {
                    assert(members[k].0@ != members[i].0@);
                }
            }
        }
    }
}

/// A number stands for itself. The bits of a double-precision number that is not
/// finite, whose exponent bits are all set, stand for `null`.
pub proof fn law_numbers_stand_for_themselves(n: JsonNumber)
    ensures
        match n {
            JsonNumber::Unsigned(u) => n.json() == JsonView::Number(NumberView::Int(u as int)),
            JsonNumber::Signed(i) => n.json() == JsonView::Number(NumberView::Int(i as int)),
            JsonNumber::Float(bits) => {
                &&& bits & 0x7ff0_0000_0000_0000 == 0x7ff0_0000_0000_0000 ==> n.json()
                    == JsonView::Null
                &&& bits & 0x7ff0_0000_0000_0000 != 0x7ff0_0000_0000_0000 ==> n.json()
                    == JsonView::Number(NumberView::Float(bits))
            },
        },
{
    if let JsonNumber::Float(bits) = n {
        assert((bits & 0x7ff0_0000_0000_0000 == 0x7ff0_0000_0000_0000) == ((bits
            / 0x10_0000_0000_0000) % 0x800 == 0x7ff)) by (bit_vector);
    }
}

/// What may be missing stands for itself where it is there, and for nothing where it
/// is not.
pub proof fn law_what_may_be_missing(text: String, slice: &str, value: Json)
    ensures
        crate::provider::text_of(Some(text)) == Some(text@),
        crate::provider::text_of(None) is None,
        crate::json::found_text(Some(slice)) == Some(slice@),
        crate::json::found_text(None) is None,
        crate::json::found(Some(&value)) == Some(value@),
        crate::json::found(None) is None,
        crate::wire::parsed(Some(value)) == Some(value@),
        crate::wire::parsed(None) is None,
{
}

/// A list stands for what its elements stand for, one by one.
pub proof fn law_lists_stand_for_their_elements(
    values: Seq<Json>,
    calls: Seq<ToolCall>,
    pending: Seq<PendingToolCall>,
    read: Seq<Option<Json>>,
)
    ensures
        Json::trees(values).len() == values.len(),
        forall|i: int| 0 <= i < values.len() ==> #[trigger] Json::trees(values)[i] == values[i]@,
        crate::provider::tool_calls_of(calls).len() == calls.len(),
        forall|i: int|
            0 <= i < calls.len() ==> #[trigger] crate::provider::tool_calls_of(calls)[i]
                == calls[i]@,
        crate::stream::pending_of(pending).len() == pending.len(),
        forall|i: int|
            0 <= i < pending.len() ==> #[trigger] crate::stream::pending_of(pending)[i]
                == pending[i]@,
        crate::stream::parsed_all(read).len() == read.len(),
        forall|i: int|
            0 <= i < read.len() ==> #[trigger] crate::stream::parsed_all(read)[i]
                == crate::wire::parsed(read[i]),
{
    crate::json::lemma_trees(values);
}

/// A message, a part of one, a tool call and a tool stand for their fields.
pub proof fn law_chats_stand_for_their_fields(
    message: ChatMessage,
    part: ContentPart,
    call: ToolCall,
    tool: ToolDefinition,
)
    ensures
        message@.role == message.role,
        message@.content == message.content@,
        message@.content_parts.len() == message.content_parts@.len(),
        forall|i: int|
            0 <= i < message.content_parts@.len() ==> #[trigger] message@.content_parts[i]
                == message.content_parts@[i]@,
        message@.tool_call_id == crate::provider::text_of(message.tool_call_id),
        message@.name == crate::provider::text_of(message.name),
        message.tool_calls matches Some(calls) ==> message@.tool_calls == Some(
            crate::provider::tool_calls_of(calls@),
        ),
        message.tool_calls is None ==> message@.tool_calls is None,
        part matches ContentPart::Text { text } ==> part@ == (ContentPartView::Text {
            text: text@,
        }),
        part matches ContentPart::ImageUrl { image_url } ==> part@ == (ContentPartView::ImageUrl {
            url: image_url.url@,
        }),
        call@.id == call.id@,
        call@.name == call.name@,
        call@.arguments == call.arguments@,
        call@.reasoning == crate::provider::text_of(call.reasoning),
        tool@.name == tool.name@,
        tool@.description == tool.description@,
        tool@.parameters == tool.parameters@,
        tool@.strict_parameters == tool.strict_parameters@,
{
}

/// A request and a reply stand for their fields.
pub proof fn law_exchanges_stand_for_their_fields(
    request: ToolCompletionRequest,
    reply: ToolCompletionResponse,
)
    ensures
        request@.messages.len() == request.messages@.len(),
        forall|i: int|
            0 <= i < request.messages@.len() ==> #[trigger] request@.messages[i]
                == request.messages@[i]@,
        request@.tools.len() == request.tools@.len(),
        forall|i: int|
            0 <= i < request.tools@.len() ==> #[trigger] request@.tools[i] == request.tools@[i]@,
        request@.model == crate::provider::text_of(request.model),
        request@.max_tokens == request.max_tokens,
        request@.temperature == request.temperature,
        request@.tool_choice == crate::provider::text_of(request.tool_choice),
        reply@.content == crate::provider::text_of(reply.content),
        reply@.tool_calls == crate::provider::tool_calls_of(reply.tool_calls@),
        reply@.input_tokens == reply.input_tokens,
        reply@.output_tokens == reply.output_tokens,
        reply@.finish_reason == reply.finish_reason,
        reply@.cache_read_input_tokens == reply.cache_read_input_tokens,
        reply@.cache_creation_input_tokens == reply.cache_creation_input_tokens,
{
}

/// What a stream is made of stands for its fields.
pub proof fn law_streams_stand_for_their_fields(
    pending: PendingToolCall,
    state: StreamState,
    event: StreamEvent,
    step: StreamStep,
    error: LlmError,
)
    ensures
        pending@.id == pending.id@,
        pending@.name == pending.name@,
        pending@.arguments == pending.arguments@,
        state@.text == state.text@,
        state@.reasoning == state.reasoning@,
        state@.refusal == state.refusal@,
        state@.tool_calls == crate::stream::pending_of(state.tool_calls@),
        state@.finish_reason == state.finish_reason,
        state@.input_tokens == state.input_tokens,
        state@.output_tokens == state.output_tokens,
        match event {
            StreamEvent::Message { event: name, data } => event@ == (StreamEventView::Message {
                event: name@,
                data: data@,
            }),
            StreamEvent::Broken { reason } => event@ == (StreamEventView::Broken {
                reason: reason@,
            }),
            StreamEvent::Closed => event@ is Closed,
            StreamEvent::TimedOut => event@ is TimedOut,
        },
        match step {
            StreamStep::Continue => step@ is Continue,
            StreamStep::Forward(text) => step@ == StreamStepView::Forward(text@),
            StreamStep::Done => step@ is Done,
            StreamStep::Fail(e) => step@ == StreamStepView::Fail(e@),
            StreamStep::OutOfReach => step@ is OutOfReach,
        },
        match error {
            LlmError::RequestFailed { provider, reason } => error@ == (
            LlmErrorView::RequestFailed { provider: provider@, reason: reason@ }),
            LlmError::ContextLengthExceeded { used, limit } => error@ == (
            LlmErrorView::ContextLengthExceeded { used, limit }),
            LlmError::InvalidResponse { provider, reason } => error@ == (
            LlmErrorView::InvalidResponse { provider: provider@, reason: reason@ }),
        },
{
}

/// A message of text alone has its role and its text and nothing else, and a failed
/// request is reported under the name of the streaming endpoint.
pub proof fn law_plain_messages_and_failures(role: Role, text: Seq<char>)
    ensures
        ({
            let message = ChatMessageView::plain(role, text);
            &&& message.role == role
            &&& message.content == text
            &&& message.content_parts.len() == 0
            &&& message.tool_call_id is None
            &&& message.name is None
            &&& message.tool_calls is None
        }),
        LlmErrorView::request_failed(text) == (LlmErrorView::RequestFailed {
            provider: "openai_streaming"@,
            reason: text,
        }),
{
}

/// An event may take thirty seconds to come, the whole exchange five minutes, and an
/// error quotes five hundred bytes.
pub proof fn law_limits()
    ensures
        crate::stream::IDLE_TIMEOUT_SECS == 30,
        crate::request::REQUEST_TIMEOUT_SECS == 5 * 60,
        crate::response::QUOTED_BYTES == 500,
{
}

} // verus!
