//! What each moment of a run does, in terms of what went in and what comes out.

use vstd::prelude::*;

use crate::agent::agent_loop;
use crate::agent::agent_loop::{LoopView, PhaseView};
use crate::agent::types::{
    ActionView, AgentErrorView, AgentEventView, CallView, ConfigView, DecisionView, InputView,
};
use crate::types::{
    AssistantView, ContentView, EventView, MessageView, StopReason, StreamErrorView,
    ToolResultView, ToolView,
};

verus! {

/// Whether an answer holds a tool call.
pub open spec fn holds_call(content: Seq<ContentView>) -> bool {
    exists|k: int| 0 <= k < content.len() && #[trigger] content[k] is ToolCall
}

/// Whether two states differ in nothing but the transcript, the open calls and
/// where they stand.
pub open spec fn same_run(one: LoopView, other: LoopView) -> bool {
    &&& one.config == other.config
    &&& one.turn == other.turn
    &&& one.allowed == other.allowed
}

/// The calls of an answer are those of its pieces, piece by piece: each call
/// with its id, its name and its arguments, and nothing for any other piece.
pub proof fn law_calls_are_read_piece_by_piece(
    a: Seq<ContentView>,
    b: Seq<ContentView>,
    piece: ContentView,
)
    ensures
        agent_loop::calls_of(a + b) == agent_loop::calls_of(a) + agent_loop::calls_of(b),
        agent_loop::calls_of(seq![piece]) == match piece {
            ContentView::ToolCall { id, name, arguments } => seq![
                CallView { id, name, args: arguments },
            ],
            _ => Seq::empty(),
        },
    decreases b.len(),
{
    assert(seq![piece].drop_last() =~= Seq::empty());
    assert(agent_loop::calls_of(Seq::empty()) =~= Seq::empty());
    if let ContentView::ToolCall { id, name, arguments } = piece {
        assert(Seq::<CallView>::empty().push(CallView { id, name, args: arguments }) =~= seq![
            CallView { id, name, args: arguments },
        ]);
    }
    if b.len() == 0 {
        assert(a + b =~= a);
        assert(agent_loop::calls_of(a) + agent_loop::calls_of(b) =~= agent_loop::calls_of(a));
    } else {
        law_calls_are_read_piece_by_piece(a, b.drop_last(), piece);
        assert((a + b).drop_last() =~= a + b.drop_last());
        assert(agent_loop::calls_of(a + b) =~= agent_loop::calls_of(a) + agent_loop::calls_of(b));
    }
}

proof fn lemma_holds_call(content: Seq<ContentView>)
    ensures
        agent_loop::calls_of(content).len() > 0 <==> holds_call(content),
    decreases content.len(),
{
    if content.len() > 0 {
        let front = content.drop_last();
        lemma_holds_call(front);
        assert(content[content.len() - 1] == content.last());
        if holds_call(content) {
            let k = choose|k: int| 0 <= k < content.len() && #[trigger] content[k] is ToolCall;
            if k < front.len() {
                assert(front[k] is ToolCall);
            }
        }
        if holds_call(front) {
            let k = choose|k: int| 0 <= k < front.len() && #[trigger] front[k] is ToolCall;
            assert(content[k] is ToolCall);
        }
    }
}

/// The tool of a call is the last one of its name, and there is none only where
/// no tool has that name.
pub proof fn law_tool_is_the_last_of_its_name(tools: Seq<ToolView>, name: Seq<char>)
    ensures
        match agent_loop::tool_named(tools, name) {
            Some(at) => 0 <= at < tools.len() && tools[at].name == name && forall|j: int|
                at < j < tools.len() ==> (#[trigger] tools[j]).name != name,
            None => forall|j: int| 0 <= j < tools.len() ==> (#[trigger] tools[j]).name != name,
        },
    decreases tools.len(),
{
    if tools.len() > 0 {
        let front = tools.drop_last();
        law_tool_is_the_last_of_its_name(front, name);
        assert(forall|j: int| 0 <= j < front.len() ==> #[trigger] tools[j] == front[j]);
        assert(tools[tools.len() - 1] == tools.last());
    }
}

/// A run starts from its messages, before its first turn, with nothing allowed
/// and no call open. It tells the message that it starts from, where there is
/// one, and that it starts.
pub proof fn law_run_starts_from_its_messages(config: ConfigView, messages: Seq<MessageView>)
    ensures
        ({
            let start = LoopView::fresh(config, messages);
            &&& start.config == config
            &&& start.messages == messages
            &&& start.turn == 0
            &&& start.allowed.len() == 0
            &&& start.waiting.len() == 0
            &&& start.phase == PhaseView::Ready
        }),
        agent_loop::first_events(messages).last() == AgentEventView::AgentStart,
        messages.len() == 0 ==> agent_loop::first_events(messages).len() == 1,
        messages.len() > 0 ==> agent_loop::first_events(messages).len() == 2
            && agent_loop::first_events(messages)[0] == (AgentEventView::UserMessage {
            message: messages[messages.len() - 1],
        }),
{
}

/// What a run awaits where it stands.
pub proof fn law_what_is_awaited(state: LoopView, input: InputView)
    ensures
        state.awaits(input) == match input {
            InputView::Continue => state.phase is Ready || state.phase is Calling,
            InputView::Event(_) | InputView::StreamFailed(_) | InputView::StreamEnded =>
            state.phase is Answering,
            InputView::Requirement(_) => state.phase is Checking,
            InputView::Permission(_) => state.phase is Asking,
            InputView::ToolReturned { .. } | InputView::ToolFailed(_) => state.phase is Executing,
        },
{
}

/// Between two turns the model is asked, as long as there are turns left, and
/// the run ends at the limit otherwise.
pub proof fn law_turns_are_taken(state: LoopView, now: u64)
    requires
        state.phase == PhaseView::Ready,
    ensures
        ({
            let (next, moment) = state.step(InputView::Continue, now);
            &&& next.config == state.config
            &&& next.messages == state.messages
            &&& next.allowed == state.allowed
            &&& state.turn < state.config.max_turns ==> {
                &&& moment.action is CallModel
                &&& moment.events == seq![AgentEventView::TurnStart]
                &&& next.turn == state.turn + 1
                &&& next.phase == PhaseView::Answering
            }
            &&& state.turn >= state.config.max_turns ==> {
                &&& moment.events == seq![AgentEventView::AgentEnd { messages: state.messages }]
                &&& moment.action matches ActionView::Finish(run) && run.messages == state.messages
                    && run.stopped_at_turn_limit
                &&& next.turn == state.turn
                &&& next.phase == PhaseView::Over
            }
        }),
{
    assert(Seq::<AgentEventView>::empty().push(
        AgentEventView::AgentEnd { messages: state.messages },
    ) =~= seq![AgentEventView::AgentEnd { messages: state.messages }]);
}

/// An answer goes into the transcript as it is. Where it stopped for its calls
/// and holds any, its calls are next; in every other case the run ends with it.
pub proof fn law_answer_decides(
    state: LoopView,
    reason: StopReason,
    message: AssistantView,
    now: u64,
)
    requires
        state.phase == PhaseView::Answering,
    ensures
        ({
            let (next, moment) = state.step(
                InputView::Event(EventView::Done { reason, message }),
                now,
            );
            let answer = MessageView::Assistant(message);
            let told = AgentEventView::AssistantMessage { message: answer };
            &&& same_run(next, state)
            &&& next.messages == state.messages.push(answer)
            &&& reason == StopReason::ToolUse && holds_call(message.content) ==> {
                &&& moment.action == ActionView::Continue
                &&& moment.events == seq![told]
                &&& next.phase == PhaseView::Calling
                &&& next.waiting == agent_loop::calls_of(message.content)
                &&& next.all_terminate
            }
            &&& !(reason == StopReason::ToolUse && holds_call(message.content)) ==> {
                &&& moment.action matches ActionView::Finish(run) && run.messages
                    == next.messages && (run.stopped_at_turn_limit <==> state.turn
                    >= state.config.max_turns)
                &&& moment.events == seq![
                    told,
                    AgentEventView::TurnEnd,
                    AgentEventView::AgentEnd { messages: next.messages },
                ]
                &&& next.phase == PhaseView::Over
            }
        }),
{
    lemma_holds_call(message.content);
    let (next, moment) = state.step(InputView::Event(EventView::Done { reason, message }), now);
    let told = AgentEventView::AssistantMessage { message: MessageView::Assistant(message) };
    assert(seq![told, AgentEventView::TurnEnd].push(
        AgentEventView::AgentEnd { messages: next.messages },
    ) =~= seq![
        told,
        AgentEventView::TurnEnd,
        AgentEventView::AgentEnd { messages: next.messages },
    ]);
}

/// Every other event of an answer but an error leaves the run as it is and the
/// answer is read on; text and thinking are passed on at once.
pub proof fn law_answer_is_read_on(state: LoopView, event: EventView, now: u64)
    requires
        state.phase == PhaseView::Answering,
        !(event is Done),
        !(event is Error),
    ensures
        ({
            let (next, moment) = state.step(InputView::Event(event), now);
            &&& next == state
            &&& moment.action == ActionView::ReadStream
            &&& moment.events == match event {
                EventView::TextDelta { delta, .. } => seq![AgentEventView::TextDelta { delta }],
                EventView::ThinkingDelta { delta, .. } => seq![
                    AgentEventView::ThinkingDelta { delta },
                ],
                _ => Seq::empty(),
            }
        }),
{
}

/// A run fails where its answer does, with the reason of the answer, and leaves
/// the transcript as it is.
pub proof fn law_failed_answer_fails_the_run(
    state: LoopView,
    error: StreamErrorView,
    reason: StopReason,
    message: AssistantView,
    now: u64,
)
    requires
        state.phase == PhaseView::Answering,
    ensures
        ({
            let (next, moment) = state.step(InputView::StreamFailed(error), now);
            &&& moment.action == ActionView::Fail(AgentErrorView::Provider(error))
            &&& moment.events.len() == 0
            &&& next == (LoopView { phase: PhaseView::Over, ..state })
        }),
        ({
            let (next, moment) = state.step(InputView::StreamEnded, now);
            &&& moment.action == ActionView::Fail(
                AgentErrorView::Other("provider stream produced no terminal event"@),
            )
            &&& moment.events.len() == 0
            &&& next == (LoopView { phase: PhaseView::Over, ..state })
        }),
        ({
            let (next, moment) = state.step(
                InputView::Event(EventView::Error { reason, error: message }),
                now,
            );
            &&& message.error_message matches Some(text) ==> moment.action == ActionView::Fail(
                AgentErrorView::Other(text),
            )
            &&& message.error_message is None ==> moment.action == ActionView::Fail(
                AgentErrorView::Other("provider error"@),
            )
            &&& moment.events.len() == 0
            &&& next == (LoopView { phase: PhaseView::Over, ..state })
        }),
{
}

/// The calls of a turn are taken from the front. The tool of a call is asked
/// about it first, where there is one; a call of no tool is answered at once.
pub proof fn law_calls_are_taken_in_order(state: LoopView, now: u64)
    requires
        state.phase == PhaseView::Calling,
        state.waiting.len() > 0,
    ensures
        ({
            let call = state.waiting[0];
            let (next, moment) = state.step(InputView::Continue, now);
            let known = exists|j: int|
                0 <= j < state.config.tools.len() && (#[trigger] state.config.tools[j]).name
                    == call.name;
            &&& same_run(next, state)
            &&& next.waiting == state.waiting.skip(1)
            &&& known ==> {
                &&& moment.events.len() == 0
                &&& next.phase == PhaseView::Checking(call)
                &&& next.messages == state.messages
                &&& next.all_terminate == state.all_terminate
                &&& moment.action matches ActionView::CheckTool { tool } && is_last_named(
                    state.config.tools,
                    call.name,
                    tool,
                )
            }
            &&& !known ==> {
                let content = seq![ContentView::Text { text: "unknown tool: "@ + call.name }];
                &&& moment.action == ActionView::Continue
                &&& next.phase == PhaseView::Calling
                &&& !next.all_terminate
                &&& moment.events == seq![
                    AgentEventView::ToolExecutionStart {
                        tool_call_id: call.id,
                        tool_name: call.name,
                        args: call.args,
                    },
                    AgentEventView::ToolExecutionEnd {
                        tool_call_id: call.id,
                        tool_name: call.name,
                        is_error: true,
                        content,
                    },
                ]
                &&& next.messages == state.messages.push(
                    MessageView::ToolResult(
                        ToolResultView {
                            tool_call_id: call.id,
                            tool_name: call.name,
                            content,
                            is_error: true,
                            timestamp: now,
                        },
                    ),
                )
            }
        }),
{
    let call = state.waiting[0];
    let (next, moment) = state.step(InputView::Continue, now);
    law_tool_is_the_last_of_its_name(state.config.tools, call.name);
    assert(state.waiting.skip(1) =~= state.waiting.drop_first());
    if agent_loop::tool_named(state.config.tools, call.name) is None {
        assert(moment.events =~= seq![moment.events[0], moment.events[1]]);
    }
}

/// Whether a tool is the last one of its name.
pub open spec fn is_last_named(tools: Seq<ToolView>, name: Seq<char>, at: int) -> bool {
    &&& 0 <= at < tools.len()
    &&& tools[at].name == name
    &&& forall|j: int| at < j < tools.len() ==> (#[trigger] tools[j]).name != name
}

/// A call begins by telling so, and by handing out its id and its arguments as
/// the model gave them.
pub open spec fn begins(
    state: LoopView,
    call: CallView,
    input: InputView,
    now: u64,
) -> bool {
    let (next, moment) = state.step(input, now);
    &&& moment.events == seq![
        AgentEventView::ToolExecutionStart {
            tool_call_id: call.id,
            tool_name: call.name,
            args: call.args,
        },
    ]
    &&& moment.action matches ActionView::Execute { tool, id, args } && is_last_named(
        state.config.tools,
        call.name,
        tool,
    ) && id == call.id && args == call.args
    &&& next.phase == PhaseView::Executing(call)
    &&& next.messages == state.messages
    &&& next.waiting == state.waiting
    &&& next.all_terminate == state.all_terminate
    &&& next.turn == state.turn
    &&& next.config == state.config
}

/// A call whose tool wants it permitted is put to the user with its arguments,
/// unless the tool is allowed for the run; every other call begins.
pub proof fn law_checked_call_is_asked_or_begins(
    state: LoopView,
    call: CallView,
    required: bool,
    now: u64,
)
    requires
        state.phase == PhaseView::Checking(call),
        exists|j: int|
            0 <= j < state.config.tools.len() && (#[trigger] state.config.tools[j]).name
                == call.name,
    ensures
        ({
            let (next, moment) = state.step(InputView::Requirement(required), now);
            &&& next.allowed == state.allowed
            &&& required && !state.allowed.contains(call.name) ==> {
                &&& moment.action == (ActionView::AskPermission {
                    name: call.name,
                    args: call.args,
                })
                &&& moment.events.len() == 0
                &&& next == (LoopView { phase: PhaseView::Asking(call), ..state })
            }
            &&& !(required && !state.allowed.contains(call.name)) ==> begins(
                state,
                call,
                InputView::Requirement(required),
                now,
            )
        }),
{
    law_tool_is_the_last_of_its_name(state.config.tools, call.name);
}

/// A call that is permitted begins, for once or for the rest of the run; one
/// that is denied does not, and the denial is told and goes back to the model.
pub proof fn law_decision_counts(
    state: LoopView,
    call: CallView,
    reason: Seq<char>,
    now: u64,
)
    requires
        state.phase == PhaseView::Asking(call),
        exists|j: int|
            0 <= j < state.config.tools.len() && (#[trigger] state.config.tools[j]).name
                == call.name,
    ensures
        begins(state, call, InputView::Permission(DecisionView::Allow), now),
        state.step(InputView::Permission(DecisionView::Allow), now).0.allowed == state.allowed,
        begins(state, call, InputView::Permission(DecisionView::AllowSession), now),
        state.step(InputView::Permission(DecisionView::AllowSession), now).0.allowed
            == state.allowed.push(call.name),
        ({
            let (next, moment) = state.step(
                InputView::Permission(DecisionView::Deny { reason }),
                now,
            );
            &&& same_run(next, state)
            &&& next.waiting == state.waiting
            &&& next.phase == PhaseView::Calling
            &&& !next.all_terminate
            &&& moment.action == ActionView::Continue
            &&& moment.events == seq![
                AgentEventView::PermissionDenied { tool_name: call.name, reason },
            ]
            &&& next.messages == state.messages.push(
                MessageView::ToolResult(
                    ToolResultView {
                        tool_call_id: call.id,
                        tool_name: call.name,
                        content: seq![
                            ContentView::Text { text: "permission denied: "@ + reason },
                        ],
                        is_error: true,
                        timestamp: now,
                    },
                ),
            )
        }),
{
    law_tool_is_the_last_of_its_name(state.config.tools, call.name);
}

/// What a tool gives back, and that it failed, is told and goes into the
/// transcript under the id and the name of its call. The run is to end with the
/// turn only as long as every call asks for it.
pub proof fn law_result_is_kept(
    state: LoopView,
    call: CallView,
    content: Seq<ContentView>,
    terminate: bool,
    reason: Seq<char>,
    now: u64,
)
    requires
        state.phase == PhaseView::Executing(call),
    ensures
        result_is_kept(
            state,
            InputView::ToolReturned { content, terminate },
            call,
            content,
            false,
            state.all_terminate && terminate,
            now,
        ),
        result_is_kept(
            state,
            InputView::ToolFailed(reason),
            call,
            seq![ContentView::Text { text: "tool error: "@ + reason }],
            true,
            false,
            now,
        ),
{
    let end = state.step(InputView::ToolReturned { content, terminate }, now).1.events;
    assert(end =~= seq![end[0]]);
    let end = state.step(InputView::ToolFailed(reason), now).1.events;
    assert(end =~= seq![end[0]]);
}

/// Whether a result is told and goes into the transcript.
pub open spec fn result_is_kept(
    state: LoopView,
    input: InputView,
    call: CallView,
    content: Seq<ContentView>,
    is_error: bool,
    all_terminate: bool,
    now: u64,
) -> bool {
    let (next, moment) = state.step(input, now);
    &&& same_run(next, state)
    &&& next.waiting == state.waiting
    &&& next.phase == PhaseView::Calling
    &&& next.all_terminate == all_terminate
    &&& moment.action == ActionView::Continue
    &&& moment.events == seq![
        AgentEventView::ToolExecutionEnd {
            tool_call_id: call.id,
            tool_name: call.name,
            is_error,
            content,
        },
    ]
    &&& next.messages == state.messages.push(
        MessageView::ToolResult(
            ToolResultView {
                tool_call_id: call.id,
                tool_name: call.name,
                content,
                is_error,
                timestamp: now,
            },
        ),
    )
}

/// After its last call a turn ends, and the run with it where every call asked
/// for that; otherwise the next turn is due.
pub proof fn law_turn_ends_after_its_calls(state: LoopView, now: u64)
    requires
        state.phase == PhaseView::Calling,
        state.waiting.len() == 0,
    ensures
        ({
            let (next, moment) = state.step(InputView::Continue, now);
            &&& same_run(next, state)
            &&& next.messages == state.messages
            &&& state.all_terminate ==> {
                &&& next.phase == PhaseView::Over
                &&& moment.events == seq![
                    AgentEventView::TurnEnd,
                    AgentEventView::AgentEnd { messages: state.messages },
                ]
                &&& moment.action matches ActionView::Finish(run) && run.messages == state.messages
                    && (run.stopped_at_turn_limit <==> state.turn >= state.config.max_turns)
            }
            &&& !state.all_terminate ==> {
                &&& next.phase == PhaseView::Ready
                &&& moment.events == seq![AgentEventView::TurnEnd]
                &&& moment.action == ActionView::Continue
            }
        }),
{
    assert(seq![AgentEventView::TurnEnd].push(
        AgentEventView::AgentEnd { messages: state.messages },
    ) =~= seq![
        AgentEventView::TurnEnd,
        AgentEventView::AgentEnd { messages: state.messages },
    ]);
}

} // verus!
