//! The reply of a streaming chat completion, put together event by event.

use crate::error::{LlmError, LlmErrorView};
use crate::json::{Json, JsonView};
use crate::provider::{
    FinishReason, ToolCall, ToolCallView, ToolCompletionResponse, ToolCompletionResponseView,
};
use crate::text::{concat, decimal, same_text, trim};
use crate::wire::parse_json;
use vstd::prelude::*;

verus! {

/// A tool call of which not all pieces have come yet.
#[derive(Debug)]
pub struct PendingToolCall {
    pub id: String,
    pub name: String,
    pub arguments: String,
}

/// What a [`PendingToolCall`] stands for.
#[verifier::ext_equal]
pub struct PendingToolCallView {
    pub id: Seq<char>,
    pub name: Seq<char>,
    pub arguments: Seq<char>,
}

impl View for PendingToolCall {
    type V = PendingToolCallView;

    open spec fn view(&self) -> PendingToolCallView {
        PendingToolCallView { id: self.id@, name: self.name@, arguments: self.arguments@ }
    }
}

/// What each of a sequence of pending tool calls stands for.
pub open spec fn pending_of(calls: Seq<PendingToolCall>) -> Seq<PendingToolCallView> {
    calls.map_values(|c: PendingToolCall| c@)
}

/// What the events so far add up to.
#[derive(Debug)]
pub struct StreamState {
    pub text: String,
    pub reasoning: String,
    pub refusal: String,
    pub tool_calls: Vec<PendingToolCall>,
    pub finish_reason: FinishReason,
    pub input_tokens: u32,
    pub output_tokens: u32,
}

/// What a [`StreamState`] stands for.
#[verifier::ext_equal]
pub struct StreamStateView {
    pub text: Seq<char>,
    pub reasoning: Seq<char>,
    pub refusal: Seq<char>,
    pub tool_calls: Seq<PendingToolCallView>,
    pub finish_reason: FinishReason,
    pub input_tokens: u32,
    pub output_tokens: u32,
}

impl View for StreamState {
    type V = StreamStateView;

    open spec fn view(&self) -> StreamStateView {
        StreamStateView {
            text: self.text@,
            reasoning: self.reasoning@,
            refusal: self.refusal@,
            tool_calls: pending_of(self.tool_calls@),
            finish_reason: self.finish_reason,
            input_tokens: self.input_tokens,
            output_tokens: self.output_tokens,
        }
    }
}

// What a chunk says.

/// The text, or no characters where there is none.
pub open spec fn or_empty(s: Option<Seq<char>>) -> Seq<char> {
    match s {
        Some(t) => t,
        None => Seq::empty(),
    }
}

/// The low 32 bits of a count, which is zero where it is not given.
pub open spec fn low_word(n: Option<u64>) -> u32 {
    match n {
        Some(n) => (n % 0x1_0000_0000) as u32,
        None => 0,
    }
}

/// The first of the choices of a chunk.
pub open spec fn first_choice(chunk: JsonView) -> Option<JsonView> {
    match chunk.field("choices"@) {
        Some(choices) => choices.item(0),
        None => None,
    }
}

/// What the first choice of a chunk adds to the reply.
pub open spec fn delta_of(chunk: JsonView) -> Option<JsonView> {
    match first_choice(chunk) {
        Some(choice) => choice.field("delta"@),
        None => None,
    }
}

/// The pieces of tool calls that a delta brings.
pub open spec fn tool_deltas(delta: JsonView) -> Seq<JsonView> {
    match delta.field("tool_calls"@) {
        Some(JsonView::Array(items)) => items,
        _ => Seq::empty(),
    }
}

/// Why the model stopped, by the word that the provider uses.
pub open spec fn finish_reason_of(word: Seq<char>) -> FinishReason {
    if word == "stop"@ {
        FinishReason::Stop
    } else if word == "length"@ {
        FinishReason::Length
    } else if word == "tool_calls"@ {
        FinishReason::ToolUse
    } else if word == "content_filter"@ {
        FinishReason::ContentFilter
    } else {
        FinishReason::Unknown
    }
}

/// The place of the tool call that a piece belongs to.
pub open spec fn slot_of(piece: JsonView) -> usize {
    match piece.unsigned_field("index"@) {
        Some(n) => n as usize,
        None => 0,
    }
}

/// The string under `key` of the function that a piece speaks of.
pub open spec fn function_text(piece: JsonView, key: Seq<char>) -> Option<Seq<char>> {
    match piece.field("function"@) {
        Some(function) => function.text_field(key),
        None => None,
    }
}

impl PendingToolCallView {
    pub open spec fn empty() -> PendingToolCallView {
        PendingToolCallView { id: Seq::empty(), name: Seq::empty(), arguments: Seq::empty() }
    }

    /// The call with a piece more: a later identifier or name takes the place of
    /// an earlier one, and arguments are added at the end.
    pub open spec fn with_piece(self, piece: JsonView) -> PendingToolCallView {
        PendingToolCallView {
            id: match piece.text_field("id"@) {
                Some(id) => id,
                None => self.id,
            },
            name: match function_text(piece, "name"@) {
                Some(name) => name,
                None => self.name,
            },
            arguments: self.arguments + or_empty(function_text(piece, "arguments"@)),
        }
    }
}

/// The calls, with empty ones added until there is one at `slot`.
pub open spec fn reaching(calls: Seq<PendingToolCallView>, slot: int) -> Seq<PendingToolCallView> {
    if slot < calls.len() {
        calls
    } else {
        calls + Seq::new(
            (slot + 1 - calls.len()) as nat,
            |i: int| PendingToolCallView::empty(),
        )
    }
}

/// The calls after one piece.
pub open spec fn after_piece(calls: Seq<PendingToolCallView>, piece: JsonView) -> Seq<
    PendingToolCallView,
> {
    let slot = slot_of(piece) as int;
    let calls = reaching(calls, slot);
    calls.update(slot, calls[slot].with_piece(piece))
}

/// The calls after several pieces.
pub open spec fn after_pieces(calls: Seq<PendingToolCallView>, pieces: Seq<JsonView>) -> Seq<
    PendingToolCallView,
>
    decreases pieces.len(),
{
    if pieces.len() == 0 {
        calls
    } else {
        after_piece(after_pieces(calls, pieces.drop_last()), pieces.last())
    }
}

/// Whether every piece names a place that a list of calls can reach: one more than
/// the place is a length.
pub open spec fn slots_fit(pieces: Seq<JsonView>) -> bool {
    forall|i: int| 0 <= i < pieces.len() ==> #[trigger] slot_of(pieces[i]) < usize::MAX
}

/// Whether the chunk can be taken in: see [`slots_fit`].
pub open spec fn chunk_fits(chunk: JsonView) -> bool {
    match delta_of(chunk) {
        Some(delta) => slots_fit(tool_deltas(delta)),
        None => true,
    }
}

/// The reasoning after a delta. A provider that says `reasoning` instead of
/// `reasoning_content` is heard; one that says both is not heard twice, unless
/// there was no reasoning at all.
pub open spec fn after_reasoning(reasoning: Seq<char>, delta: JsonView) -> Seq<char> {
    let first = reasoning + or_empty(delta.text_field("reasoning_content"@));
    if first.len() == 0 || delta.field("reasoning_content"@) is None {
        first + or_empty(delta.text_field("reasoning"@))
    } else {
        first
    }
}

/// The text that a chunk adds to the reply.
pub open spec fn text_delta(chunk: JsonView) -> Seq<char> {
    match delta_of(chunk) {
        Some(delta) => or_empty(delta.text_field("content"@)),
        None => Seq::empty(),
    }
}

/// The text that is passed on at once: what the chunk adds, if it adds any.
pub open spec fn forwarded(chunk: JsonView) -> Option<Seq<char>> {
    if text_delta(chunk).len() > 0 {
        Some(text_delta(chunk))
    } else {
        None
    }
}

impl StreamStateView {
    /// Before the first event.
    pub open spec fn initial() -> StreamStateView {
        StreamStateView {
            text: Seq::empty(),
            reasoning: Seq::empty(),
            refusal: Seq::empty(),
            tool_calls: Seq::empty(),
            finish_reason: FinishReason::Stop,
            input_tokens: 0,
            output_tokens: 0,
        }
    }

    /// The state with the token counts of a chunk that reports usage.
    pub open spec fn after_usage(self, chunk: JsonView) -> StreamStateView {
        match chunk.field("usage"@) {
            Some(usage) => StreamStateView {
                input_tokens: low_word(usage.unsigned_field("prompt_tokens"@)),
                output_tokens: low_word(usage.unsigned_field("completion_tokens"@)),
                ..self
            },
            None => self,
        }
    }

    /// The state with the reason for stopping that a choice gives.
    pub open spec fn after_finish_reason(self, choice: JsonView) -> StreamStateView {
        match choice.text_field("finish_reason"@) {
            Some(word) => StreamStateView { finish_reason: finish_reason_of(word), ..self },
            None => self,
        }
    }

    /// The state with what a delta adds.
    pub open spec fn after_delta(self, delta: JsonView) -> StreamStateView {
        StreamStateView {
            text: self.text + or_empty(delta.text_field("content"@)),
            reasoning: after_reasoning(self.reasoning, delta),
            refusal: self.refusal + or_empty(delta.text_field("refusal"@)),
            tool_calls: after_pieces(self.tool_calls, tool_deltas(delta)),
            ..self
        }
    }

    /// The state after a chunk.
    pub open spec fn after_chunk(self, chunk: JsonView) -> StreamStateView {
        let counted = self.after_usage(chunk);
        match first_choice(chunk) {
            Some(choice) => {
                let reasoned = counted.after_finish_reason(choice);
                match choice.field("delta"@) {
                    Some(delta) => reasoned.after_delta(delta),
                    None => reasoned,
                }
            },
            None => counted,
        }
    }
}

// Taking a chunk in.

impl PendingToolCall {
    fn empty() -> (r: PendingToolCall)
        ensures
            r@ == PendingToolCallView::empty(),
    {
        PendingToolCall { id: String::new(), name: String::new(), arguments: String::new() }
    }

    /// Adds a piece to the call.
    fn add_piece(&mut self, piece: &Json)
        ensures
            final(self)@ == old(self)@.with_piece(piece@),
    {
        if let Some(id) = piece.get_str("id") {
            self.id = id.to_string();
        }
        if let Some(function) = piece.get("function") {
            if let Some(name) = function.get_str("name") {
                self.name = name.to_string();
            }
            if let Some(arguments) = function.get_str("arguments") {
                self.arguments.append(arguments);
            }
        }
        assert(self@ =~= old(self)@.with_piece(piece@));
    }
}

/// Adds a piece to the call at its place, for which empty calls are put in where
/// the list is too short.
fn add_piece_at_slot(calls: &mut Vec<PendingToolCall>, piece: &Json)
    requires
        slot_of(piece@) < usize::MAX,
    ensures
        pending_of(final(calls)@) == after_piece(pending_of(old(calls)@), piece@),
{
    let slot: usize = match piece.get_u64("index") {
        Some(n) => n as usize,
        None => 0,
    };
    let ghost before = pending_of(calls@);
    while calls.len() <= slot
        invariant
            slot < usize::MAX,
            before.len() <= calls@.len(),
            calls@.len() <= before.len() || calls@.len() <= slot + 1,
            forall|i: int| 0 <= i < before.len() ==> #[trigger] calls@[i]@ == before[i],
            forall|i: int|
                before.len() <= i < calls@.len() ==> #[trigger] calls@[i]@
                    == PendingToolCallView::empty(),
        decreases slot + 1 - calls@.len(),
    {
        calls.push(PendingToolCall::empty());
    }
    assert(pending_of(calls@) =~= reaching(before, slot as int));
    let pending: &mut PendingToolCall = &mut calls[slot];
    pending.add_piece(piece);
    assert(pending_of(calls@) =~= after_piece(before, piece@));
}

/// The low 32 bits of a count, which is zero where it is not given.
fn token_count(n: Option<u64>) -> (r: u32)
    ensures
        r == low_word(n),
{
    match n {
        Some(n) => {
            assert(n as u32 == (n % 0x1_0000_0000) as u32) by (bit_vector);
            #[verifier::truncate]
            (n as u32)
        },
        None => 0,
    }
}

/// Why the model stopped, by the word that the provider uses.
fn finish_reason(word: &str) -> (r: FinishReason)
    ensures
        r == finish_reason_of(word@),
{
    if same_text(word, "stop") {
        FinishReason::Stop
    } else if same_text(word, "length") {
        FinishReason::Length
    } else if same_text(word, "tool_calls") {
        FinishReason::ToolUse
    } else if same_text(word, "content_filter") {
        FinishReason::ContentFilter
    } else {
        FinishReason::Unknown
    }
}

impl StreamState {
    /// Before the first event.
    pub fn new() -> (r: StreamState)
        ensures
            r@ == StreamStateView::initial(),
    {
        let r: StreamState = StreamState {
            text: String::new(),
            reasoning: String::new(),
            refusal: String::new(),
            tool_calls: Vec::new(),
            finish_reason: FinishReason::Stop,
            input_tokens: 0,
            output_tokens: 0,
        };
        assert(r@.tool_calls =~= Seq::empty());
        r
    }

    /// Adds what a delta says to the state. Gives the text that it adds, if it
    /// adds any.
    fn add_delta(&mut self, delta: &Json) -> (r: Option<String>)
        requires
            slots_fit(tool_deltas(delta@)),
        ensures
            final(self)@ == old(self)@.after_delta(delta@),
            crate::provider::text_of(r) == (if or_empty(delta@.text_field("content"@)).len() > 0 {
                delta@.text_field("content"@)
            } else {
                None
            }),
    {
        let mut added: Option<String> = None;
        if let Some(content) = delta.get_str("content") {
            if !content.is_empty() {
                self.text.append(content);
                added = Some(content.to_string());
            }
        }
        assert(self.text@ =~= old(self).text@ + or_empty(delta@.text_field("content"@)));

        if let Some(reasoning) = delta.get_str("reasoning_content") {
            self.reasoning.append(reasoning);
        }
        if let Some(reasoning) = delta.get_str("reasoning") {
            if self.reasoning.as_str().is_empty() || delta.get("reasoning_content").is_none() {
                self.reasoning.append(reasoning);
            }
        }
        assert(self.reasoning@ =~= after_reasoning(old(self).reasoning@, delta@));

        if let Some(refusal) = delta.get_str("refusal") {
            self.refusal.append(refusal);
        }
        assert(self.refusal@ =~= old(self).refusal@ + or_empty(delta@.text_field("refusal"@)));

        if let Some(calls) = delta.get("tool_calls") {
            if let Some(pieces) = calls.as_array() {
                self.add_pieces(pieces);
            }
        }
        added
    }

    /// Adds pieces of tool calls, one after the other.
    fn add_pieces(&mut self, pieces: &Vec<Json>)
        requires
            slots_fit(Json::trees(pieces@)),
        ensures
            final(self)@ == (StreamStateView {
                tool_calls: after_pieces(old(self)@.tool_calls, Json::trees(pieces@)),
                ..old(self)@
            }),
    {
        let ghost all = Json::trees(pieces@);
        let ghost before = self@;
        proof {
            crate::json::lemma_trees(pieces@);
        }
        let mut i: usize = 0;
        assert(all.subrange(0, 0) =~= Seq::empty());
        while i < pieces.len()
            invariant
                i <= pieces@.len(),
                all == Json::trees(pieces@),
                all.len() == pieces@.len(),
                forall|k: int| 0 <= k < all.len() ==> #[trigger] all[k] == pieces@[k]@,
                slots_fit(all),
                self@ == (StreamStateView {
                    tool_calls: after_pieces(before.tool_calls, all.subrange(0, i as int)),
                    ..before
                }),
            decreases pieces@.len() - i,
        {
            let ghost longer = all.subrange(0, i + 1);
            assert(longer.drop_last() =~= all.subrange(0, i as int));
            assert(longer.last() == all[i as int]);
            assert(slot_of(all[i as int]) < usize::MAX);
            add_piece_at_slot(&mut self.tool_calls, &pieces[i]);
            i += 1;
        }
        assert(all.subrange(0, all.len() as int) =~= all);
    }
}

/// Takes a chunk in. Gives the text that is to be passed on, if there is any.
pub fn handle_chunk(parsed: &Json, state: &mut StreamState) -> (r: Option<String>)
    requires
        chunk_fits(parsed@),
    ensures
        final(state)@ == old(state)@.after_chunk(parsed@),
        crate::provider::text_of(r) == forwarded(parsed@),
{
    if let Some(usage) = parsed.get("usage") {
        state.input_tokens = token_count(usage.get_u64("prompt_tokens"));
        state.output_tokens = token_count(usage.get_u64("completion_tokens"));
    }
    let choice: Option<&Json> = match parsed.get("choices") {
        Some(choices) => choices.get_index(0),
        None => None,
    };
    match choice {
        Some(choice) => {
            if let Some(word) = choice.get_str("finish_reason") {
                state.finish_reason = finish_reason(word);
            }
            match choice.get("delta") {
                Some(delta) => state.add_delta(delta),
                None => None,
            }
        },
        None => None,
    }
}

// The loop over the events.

/// How long the next event may take to come, in seconds.
pub const IDLE_TIMEOUT_SECS: u64 = 30;

/// What comes of waiting for the next event.
#[derive(Debug)]
pub enum StreamEvent {
    /// A server-sent event.
    Message { event: String, data: String },
    /// The stream broke.
    Broken { reason: String },
    /// The stream is at its end.
    Closed,
    /// Nothing came in time.
    TimedOut,
}

/// What a [`StreamEvent`] stands for.
#[verifier::ext_equal]
pub enum StreamEventView {
    Message { event: Seq<char>, data: Seq<char> },
    Broken { reason: Seq<char> },
    Closed,
    TimedOut,
}

impl View for StreamEvent {
    type V = StreamEventView;

    open spec fn view(&self) -> StreamEventView {
        match *self {
            StreamEvent::Message { event, data } => StreamEventView::Message {
                event: event@,
                data: data@,
            },
            StreamEvent::Broken { reason } => StreamEventView::Broken { reason: reason@ },
            StreamEvent::Closed => StreamEventView::Closed,
            StreamEvent::TimedOut => StreamEventView::TimedOut,
        }
    }
}

/// What is to be done after an event.
#[derive(Debug)]
pub enum StreamStep {
    /// Wait for the next event.
    Continue,
    /// Pass the text on, then wait for the next event.
    Forward(String),
    /// The reply is complete.
    Done,
    /// Give up with this error.
    Fail(LlmError),
    /// Give up: a piece belongs to a tool call at a place that no list reaches.
    OutOfReach,
}

/// What a [`StreamStep`] stands for.
#[verifier::ext_equal]
pub enum StreamStepView {
    Continue,
    Forward(Seq<char>),
    Done,
    Fail(LlmErrorView),
    OutOfReach,
}

impl View for StreamStep {
    type V = StreamStepView;

    open spec fn view(&self) -> StreamStepView {
        match *self {
            StreamStep::Continue => StreamStepView::Continue,
            StreamStep::Forward(text) => StreamStepView::Forward(text@),
            StreamStep::Done => StreamStepView::Done,
            StreamStep::Fail(e) => StreamStepView::Fail(e@),
            StreamStep::OutOfReach => StreamStepView::OutOfReach,
        }
    }
}

impl StreamStateView {
    /// The state after a payload, given what it was read as, and what is to be
    /// done then. A payload that is not JSON is passed over.
    pub open spec fn after_payload(self, parsed: Option<JsonView>) -> (
        StreamStateView,
        StreamStepView,
    ) {
        match parsed {
            None => (self, StreamStepView::Continue),
            Some(chunk) => if !chunk_fits(chunk) {
                (self, StreamStepView::OutOfReach)
            } else {
                (
                    self.after_chunk(chunk),
                    match forwarded(chunk) {
                        Some(text) => StreamStepView::Forward(text),
                        None => StreamStepView::Continue,
                    },
                )
            },
        }
    }

    /// The state after an event, and what is to be done then.
    pub open spec fn after_event(self, event: StreamEventView) -> (
        StreamStateView,
        StreamStepView,
    ) {
        match event {
            StreamEventView::Message { event, data } => if event == "error"@ {
                (
                    self,
                    StreamStepView::Fail(
                        LlmErrorView::request_failed("SSE error event: "@ + data),
                    ),
                )
            } else {
                let payload = crate::text::trimmed(data);
                if payload.len() == 0 {
                    (self, StreamStepView::Continue)
                } else if payload == "[DONE]"@ {
                    (self, StreamStepView::Done)
                } else {
                    self.after_payload(crate::wire::json_parse(payload))
                }
            },
            StreamEventView::Broken { reason } => (
                self,
                StreamStepView::Fail(LlmErrorView::request_failed("SSE stream error: "@ + reason)),
            ),
            StreamEventView::Closed => (self, StreamStepView::Done),
            StreamEventView::TimedOut => (
                self,
                StreamStepView::Fail(
                    LlmErrorView::request_failed(
                        "Timed out waiting for SSE event after "@ + crate::text::decimal_digits(
                            IDLE_TIMEOUT_SECS as nat,
                        ) + "s"@,
                    ),
                ),
            ),
        }
    }
}

/// Whether the chunk can be taken in.
fn chunk_in_reach(chunk: &Json) -> (r: bool)
    ensures
        r == chunk_fits(chunk@),
{
    let choice: Option<&Json> = match chunk.get("choices") {
        Some(choices) => choices.get_index(0),
        None => None,
    };
    let delta: Option<&Json> = match choice {
        Some(choice) => choice.get("delta"),
        None => None,
    };
    let calls: Option<&Json> = match delta {
        Some(delta) => delta.get("tool_calls"),
        None => None,
    };
    let pieces: Option<&Vec<Json>> = match calls {
        Some(calls) => calls.as_array(),
        None => None,
    };
    match pieces {
        Some(pieces) => {
            proof {
                crate::json::lemma_trees(pieces@);
            }
            let ghost all = Json::trees(pieces@);
            let mut i: usize = 0;
            while i < pieces.len()
                invariant
                    i <= pieces@.len(),
                    all.len() == pieces@.len(),
                    forall|k: int| 0 <= k < all.len() ==> #[trigger] all[k] == pieces@[k]@,
                    chunk_fits(chunk@) == slots_fit(all),
                    forall|k: int| 0 <= k < i ==> #[trigger] slot_of(all[k]) < usize::MAX,
                decreases pieces@.len() - i,
            {
                assert(all[i as int] == pieces@[i as int]@);
                if let Some(n) = pieces[i].get_u64("index") {
                    if n as usize == usize::MAX {
                        assert(slot_of(all[i as int]) == usize::MAX);
                        return false;
                    }
                }
                i += 1;
            }
            true
        },
        None => true,
    }
}

/// Takes a payload in, given what it was read as, and tells what is to be done
/// then.
pub fn handle_payload(state: &mut StreamState, parsed: Option<Json>) -> (r: StreamStep)
    ensures
        (final(state)@, r@) == old(state)@.after_payload(crate::wire::parsed(parsed)),
{
    match parsed {
        None => StreamStep::Continue,
        Some(chunk) => if !chunk_in_reach(&chunk) {
            StreamStep::OutOfReach
        } else {
            match handle_chunk(&chunk, state) {
                Some(text) => StreamStep::Forward(text),
                None => StreamStep::Continue,
            }
        },
    }
}

/// Takes an event in and tells what is to be done then.
pub fn handle_event(state: &mut StreamState, event: &StreamEvent) -> (r: StreamStep)
    ensures
        (final(state)@, r@) == old(state)@.after_event(event@),
{
    match event {
        StreamEvent::Message { event, data } => {
            if same_text(event.as_str(), "error") {
                let reason: String = concat("SSE error event: ", data.as_str());
                return StreamStep::Fail(LlmError::request_failed(reason));
            }
            let payload: &str = trim(data.as_str());
            if payload.is_empty() {
                return StreamStep::Continue;
            }
            if same_text(payload, "[DONE]") {
                return StreamStep::Done;
            }
            handle_payload(state, parse_json(payload))
        },
        StreamEvent::Broken { reason } => {
            let reason: String = concat("SSE stream error: ", reason.as_str());
            StreamStep::Fail(LlmError::request_failed(reason))
        },
        StreamEvent::Closed => StreamStep::Done,
        StreamEvent::TimedOut => {
            let mut reason: String = concat(
                "Timed out waiting for SSE event after ",
                decimal(IDLE_TIMEOUT_SECS).as_str(),
            );
            reason.append("s");
            StreamStep::Fail(LlmError::request_failed(reason))
        },
    }
}

// The reply.

impl StreamStateView {
    /// What tool calls say of why they were made.
    pub open spec fn reasoning_given(self) -> Option<Seq<char>> {
        if self.reasoning.len() == 0 {
            None
        } else {
            Some(self.reasoning)
        }
    }

    /// The text of the reply. A refusal comes before all other text.
    pub open spec fn content(self) -> Option<Seq<char>> {
        if self.refusal.len() > 0 {
            Some("[Model refused] "@ + self.refusal)
        } else if self.text.len() == 0 {
            None
        } else {
            Some(self.text)
        }
    }

    /// The reply, given what the arguments of each tool call were read as.
    pub open spec fn assembled(self, arguments: Seq<Option<JsonView>>) -> ToolCompletionResponseView {
        ToolCompletionResponseView {
            content: self.content(),
            tool_calls: completed(self.tool_calls, arguments, self.reasoning_given()),
            input_tokens: self.input_tokens,
            output_tokens: self.output_tokens,
            finish_reason: self.finish_reason,
            cache_read_input_tokens: 0,
            cache_creation_input_tokens: 0,
        }
    }

    /// The reply.
    pub open spec fn response(self) -> ToolCompletionResponseView {
        self.assembled(
            self.tool_calls.map_values(
                |c: PendingToolCallView| crate::wire::json_parse(c.arguments),
            ),
        )
    }
}

impl PendingToolCallView {
    /// The tool call, given what its arguments were read as. Arguments that are
    /// not JSON count as none.
    pub open spec fn complete(
        self,
        arguments: Option<JsonView>,
        reasoning: Option<Seq<char>>,
    ) -> ToolCallView {
        ToolCallView {
            id: self.id,
            name: self.name,
            arguments: match arguments {
                Some(v) => v,
                None => JsonView::empty(),
            },
            reasoning,
        }
    }
}

/// The tool calls that have a name, in their order.
pub open spec fn completed(
    calls: Seq<PendingToolCallView>,
    arguments: Seq<Option<JsonView>>,
    reasoning: Option<Seq<char>>,
) -> Seq<ToolCallView>
    decreases calls.len(),
{
    if calls.len() == 0 {
        Seq::empty()
    } else {
        let before = completed(calls.drop_last(), arguments.drop_last(), reasoning);
        if calls.last().name.len() == 0 {
            before
        } else {
            before.push(calls.last().complete(arguments.last(), reasoning))
        }
    }
}

/// What each of a sequence of texts was read as.
pub open spec fn parsed_all(arguments: Seq<Option<Json>>) -> Seq<Option<JsonView>> {
    arguments.map_values(|a: Option<Json>| crate::wire::parsed(a))
}

/// Makes the reply of the state, given what the arguments of each tool call were
/// read as.
pub fn assemble_response(state: StreamState, arguments: Vec<Option<Json>>) -> (r:
    ToolCompletionResponse)
    requires
        arguments@.len() == state.tool_calls@.len(),
    ensures
        r@ == state@.assembled(parsed_all(arguments@)),
{
    let StreamState {
        text,
        reasoning,
        refusal,
        tool_calls,
        finish_reason,
        input_tokens,
        output_tokens,
    } = state;
    let reasoning_opt: Option<String> = if reasoning.as_str().is_empty() {
        None
    } else {
        Some(reasoning)
    };
    let mut calls: Vec<ToolCall> = Vec::new();
    let mut i: usize = 0;
    let ghost pending = pending_of(tool_calls@);
    let ghost read = parsed_all(arguments@);
    assert(crate::provider::tool_calls_of(calls@) =~= completed(
        pending.subrange(0, 0),
        read.subrange(0, 0),
        state@.reasoning_given(),
    ));
    while i < tool_calls.len()
        invariant
            i <= tool_calls@.len(),
            arguments@.len() == tool_calls@.len(),
            pending == pending_of(tool_calls@),
            read == parsed_all(arguments@),
            crate::provider::text_of(reasoning_opt) == state@.reasoning_given(),
            crate::provider::tool_calls_of(calls@) == completed(
                pending.subrange(0, i as int),
                read.subrange(0, i as int),
                state@.reasoning_given(),
            ),
        decreases tool_calls@.len() - i,
    {
        let ghost before = calls@;
        proof {
            let longer = pending.subrange(0, i + 1);
            assert(longer.drop_last() =~= pending.subrange(0, i as int));
            assert(read.subrange(0, i + 1).drop_last() =~= read.subrange(0, i as int));
            assert(longer.last() == tool_calls@[i as int]@);
        }
        if !tool_calls[i].name.as_str().is_empty() {
            let given: Json = match &arguments[i] {
                Some(v) => v.clone(),
                None => Json::object(),
            };
            calls.push(
                ToolCall {
                    id: tool_calls[i].id.clone(),
                    name: tool_calls[i].name.clone(),
                    arguments: given,
                    reasoning: reasoning_opt.clone(),
                },
            );
            assert(crate::provider::tool_calls_of(calls@)
                =~= crate::provider::tool_calls_of(before).push(calls@.last()@));
        }
        i += 1;
    }
    assert(pending.subrange(0, pending.len() as int) =~= pending);
    assert(read.subrange(0, read.len() as int) =~= read);
    let content: Option<String> = if !refusal.as_str().is_empty() {
        Some(concat("[Model refused] ", refusal.as_str()))
    } else if text.as_str().is_empty() {
        None
    } else {
        Some(text)
    };
    ToolCompletionResponse {
        content,
        tool_calls: calls,
        input_tokens,
        output_tokens,
        finish_reason,
        cache_read_input_tokens: 0,
        cache_creation_input_tokens: 0,
    }
}

/// Makes the reply of the state that the last event left.
pub fn finish_stream(state: StreamState) -> (r: ToolCompletionResponse)
    ensures
        r@ == state@.response(),
{
    let mut arguments: Vec<Option<Json>> = Vec::new();
    let mut i: usize = 0;
    while i < state.tool_calls.len()
        invariant
            i <= state.tool_calls@.len(),
            arguments@.len() == i,
            forall|k: int|
                0 <= k < i ==> crate::wire::parsed(#[trigger] arguments@[k])
                    == crate::wire::json_parse(state.tool_calls@[k].arguments@),
        decreases state.tool_calls@.len() - i,
    {
        arguments.push(parse_json(state.tool_calls[i].arguments.as_str()));
        i += 1;
    }
    assert(parsed_all(arguments@) =~= state@.tool_calls.map_values(
        |c: PendingToolCallView| crate::wire::json_parse(c.arguments),
    ));
    assemble_response(state, arguments)
}

} // verus!
