//! What holds of every run, whatever the model, the tools and the user answer.

use vstd::prelude::*;

use crate::agent::agent_loop;
use crate::agent::agent_loop::{LoopView, PhaseView};
use crate::agent::types::{
    ActionView, AgentEventView, CallView, ConfigView, DecisionView, InputView, MomentView,
};
use crate::types::{ContentView, EventView, MessageView, ThinkingLevel, ToolResultView};

verus! {

/// The state of a run after some inputs, each with the time of its arrival.
pub open spec fn after(start: LoopView, inputs: Seq<(InputView, u64)>) -> LoopView
    decreases inputs.len(),
{
    if inputs.len() == 0 {
        start
    } else {
        after(start, inputs.drop_last()).step(inputs.last().0, inputs.last().1).0
    }
}

/// What a run tells and hands out on the last of some inputs.
pub open spec fn moment(start: LoopView, inputs: Seq<(InputView, u64)>) -> MomentView {
    after(start, inputs.drop_last()).step(inputs.last().0, inputs.last().1).1
}

/// All that a run tells on some inputs.
pub open spec fn told(start: LoopView, inputs: Seq<(InputView, u64)>) -> Seq<AgentEventView>
    decreases inputs.len(),
{
    if inputs.len() == 0 {
        Seq::empty()
    } else {
        told(start, inputs.drop_last()) + moment(start, inputs).events
    }
}

/// Whether each input comes when the run awaits it.
pub open spec fn accepted(start: LoopView, inputs: Seq<(InputView, u64)>) -> bool
    decreases inputs.len(),
{
    inputs.len() == 0 || (accepted(start, inputs.drop_last()) && after(
        start,
        inputs.drop_last(),
    ).awaits(inputs.last().0))
}

/// How many turns began.
pub open spec fn turn_starts(events: Seq<AgentEventView>) -> nat
    decreases events.len(),
{
    if events.len() == 0 {
        0
    } else {
        turn_starts(events.drop_last()) + if events.last() is TurnStart {
            1nat
        } else {
            0nat
        }
    }
}

/// The tool results at the end of a transcript.
pub open spec fn last_results(messages: Seq<MessageView>) -> Seq<ToolResultView>
    decreases messages.len(),
{
    if messages.len() == 0 {
        Seq::empty()
    } else {
        match messages.last() {
            MessageView::ToolResult(result) => last_results(messages.drop_last()).push(result),
            _ => Seq::empty(),
        }
    }
}

/// The calls of the answer that stands before the tool results at the end of a
/// transcript.
pub open spec fn last_calls(messages: Seq<MessageView>) -> Seq<CallView>
    decreases messages.len(),
{
    if messages.len() == 0 {
        Seq::empty()
    } else {
        match messages.last() {
            MessageView::ToolResult(_) => last_calls(messages.drop_last()),
            MessageView::Assistant(message) => agent_loop::calls_of(message.content),
            MessageView::User { .. } => Seq::empty(),
        }
    }
}

/// The id and the name of each call.
pub open spec fn labels(calls: Seq<CallView>) -> Seq<(Seq<char>, Seq<char>)> {
    calls.map_values(|call: CallView| (call.id, call.name))
}

/// The id and the name of the call of each result.
pub open spec fn result_labels(results: Seq<ToolResultView>) -> Seq<(Seq<char>, Seq<char>)> {
    results.map_values(|result: ToolResultView| (result.tool_call_id, result.tool_name))
}

/// The calls of a turn that have no result yet, in their order.
pub open spec fn open_calls(state: LoopView) -> Seq<CallView> {
    match state.phase {
        PhaseView::Checking(call) => seq![call] + state.waiting,
        PhaseView::Asking(call) => seq![call] + state.waiting,
        PhaseView::Executing(call) => seq![call] + state.waiting,
        PhaseView::Calling => state.waiting,
        _ => Seq::empty(),
    }
}

/// Whether the calls of the last answer are those that have a result, followed
/// by those that have none yet.
pub open spec fn calls_are_kept(state: LoopView) -> bool {
    kept_open(state.messages, open_calls(state))
}

/// Whether some calls, whole as the last answer made them, are those that have
/// no result yet.
pub open spec fn kept_open(messages: Seq<MessageView>, open: Seq<CallView>) -> bool {
    &&& labels(last_calls(messages)) == result_labels(last_results(messages)) + labels(open)
    &&& last_calls(messages) == last_calls(messages).take(last_results(messages).len() as int)
        + open
}

/// Whether a run is at the calls of a turn, or between two turns.
pub open spec fn amid_calls(state: LoopView) -> bool {
    match state.phase {
        PhaseView::Calling | PhaseView::Checking(_) | PhaseView::Asking(_)
        | PhaseView::Executing(_) => true,
        PhaseView::Ready => state.turn > 0,
        _ => false,
    }
}

/// Whether none of the tool results at the end of a transcript is an error.
pub open spec fn no_errors(messages: Seq<MessageView>) -> bool {
    forall|i: int|
        0 <= i < last_results(messages).len() ==> !(#[trigger] last_results(messages)[i]).is_error
}

/// One step: the configuration stays, the transcript and the allowances grow by
/// one at most, and so does the number of turns, up to its limit.
proof fn lemma_step(state: LoopView, input: InputView, now: u64)
    ensures
        ({
            let (next, moment) = state.step(input, now);
            &&& next.config == state.config
            &&& next.messages == state.messages || (next.messages.len() == state.messages.len() + 1
                && next.messages.drop_last() == state.messages)
            &&& next.allowed == state.allowed || (input == InputView::Permission(
                DecisionView::AllowSession,
            ) && state.phase is Asking && next.allowed == state.allowed.push(
                state.phase->Asking_0.name,
            ))
            &&& moment.action is CallModel ==> state.turn < state.config.max_turns && next.turn
                == state.turn + 1 && moment.events == seq![AgentEventView::TurnStart]
            &&& !(moment.action is CallModel) ==> next.turn == state.turn && forall|i: int|
                0 <= i < moment.events.len() ==> !(#[trigger] moment.events[i] is TurnStart)
        }),
{
    let (next, moment) = state.step(input, now);
    if next.messages != state.messages {
        assert(next.messages.drop_last() =~= state.messages);
    }
}

/// The transcript only grows: what a run starts from, and every message that
/// was added, stays where it is.
pub proof fn law_transcript_only_grows(
    start: LoopView,
    inputs: Seq<(InputView, u64)>,
    more: Seq<(InputView, u64)>,
)
    ensures
        after(start, inputs).messages.is_prefix_of(after(start, inputs + more).messages),
        after(start, inputs + more).config == start.config,
    decreases inputs.len() + more.len(),
{
    let all = inputs + more;
    if more.len() == 0 {
        assert(all =~= inputs);
        if inputs.len() > 0 {
            law_transcript_only_grows(start, inputs.drop_last(), Seq::empty());
            assert(inputs.drop_last() + Seq::<(InputView, u64)>::empty() =~= inputs.drop_last());
            lemma_step(
                after(start, inputs.drop_last()),
                inputs.last().0,
                inputs.last().1,
            );
        }
    } else {
        law_transcript_only_grows(start, inputs, more.drop_last());
        assert(all.drop_last() =~= inputs + more.drop_last());
        let state = after(start, all.drop_last());
        lemma_step(state, all.last().0, all.last().1);
        let next = after(start, all);
        if next.messages != state.messages {
            assert(forall|i: int|
                0 <= i < state.messages.len() ==> state.messages[i]
                    == #[trigger] next.messages.drop_last()[i]);
        }
    }
}

proof fn lemma_turn_starts_add(a: Seq<AgentEventView>, b: Seq<AgentEventView>)
    ensures
        turn_starts(a + b) == turn_starts(a) + turn_starts(b),
    decreases b.len(),
{
    if b.len() == 0 {
        assert(a + b =~= a);
    } else {
        lemma_turn_starts_add(a, b.drop_last());
        assert((a + b).drop_last() =~= a + b.drop_last());
    }
}

proof fn lemma_no_turn_starts(events: Seq<AgentEventView>)
    requires
        forall|i: int| 0 <= i < events.len() ==> !(#[trigger] events[i] is TurnStart),
    ensures
        turn_starts(events) == 0,
    decreases events.len(),
{
    if events.len() > 0 {
        lemma_no_turn_starts(events.drop_last());
    }
}

/// The model is asked once in each turn, and there are no more turns than the
/// configuration allows.
pub proof fn law_turns_are_limited(
    config: ConfigView,
    messages: Seq<MessageView>,
    inputs: Seq<(InputView, u64)>,
)
    ensures
        turn_starts(told(LoopView::fresh(config, messages), inputs)) == after(
            LoopView::fresh(config, messages),
            inputs,
        ).turn,
        after(LoopView::fresh(config, messages), inputs).turn <= config.max_turns,
    decreases inputs.len(),
{
    let start = LoopView::fresh(config, messages);
    if inputs.len() > 0 {
        let front = inputs.drop_last();
        law_turns_are_limited(config, messages, front);
        law_transcript_only_grows(start, front, Seq::empty());
        assert(front + Seq::<(InputView, u64)>::empty() =~= front);
        lemma_step(after(start, front), inputs.last().0, inputs.last().1);
        let events = moment(start, inputs).events;
        lemma_turn_starts_add(told(start, front), events);
        if moment(start, inputs).action is CallModel {
            assert(events.drop_last() =~= Seq::empty());
            assert(turn_starts(events.drop_last()) == 0);
        } else {
            lemma_no_turn_starts(events);
        }
    }
}

/// The model is asked with the whole transcript, the prompt and the tools of the
/// configuration, and its options, in every turn. The level of thinking of the
/// run counts where the options name none.
pub proof fn law_model_sees_the_transcript(start: LoopView, inputs: Seq<(InputView, u64)>)
    requires
        inputs.len() > 0,
        moment(start, inputs).action is CallModel,
    ensures
        moment(start, inputs).action matches ActionView::CallModel { turn, context, options } && {
            let asked = start.config.stream_options;
            &&& turn == after(start, inputs).turn
            &&& context.system_prompt == Some(start.config.system_prompt)
            &&& context.messages == after(start, inputs).messages
            &&& context.tools == start.config.tools
            &&& options.api_key == asked.api_key
            &&& options.base_url == asked.base_url
            &&& options.headers == asked.headers
            &&& options.temperature == asked.temperature
            &&& options.max_tokens == asked.max_tokens
            &&& options.cache_retention == asked.cache_retention
            &&& asked.reasoning is Some ==> options.reasoning == asked.reasoning
            &&& asked.reasoning is None && start.config.thinking_level != ThinkingLevel::Off
                ==> options.reasoning == Some(start.config.thinking_level)
            &&& asked.reasoning is None && start.config.thinking_level == ThinkingLevel::Off
                ==> options.reasoning is None
        },
        moment(start, inputs).action == (ActionView::CallModel {
            turn: after(start, inputs).turn,
            context: agent_loop::context_of(start.config, after(start, inputs).messages),
            options: agent_loop::options_of(start.config),
        }),
{
    let front = inputs.drop_last();
    law_transcript_only_grows(start, front, Seq::empty());
    assert(front + Seq::<(InputView, u64)>::empty() =~= front);
}

/// The text and the thinking that arrived, each piece with whether it is text.
pub open spec fn deltas_heard(inputs: Seq<(InputView, u64)>) -> Seq<(bool, Seq<char>)>
    decreases inputs.len(),
{
    if inputs.len() == 0 {
        Seq::empty()
    } else {
        match inputs.last().0 {
            InputView::Event(EventView::TextDelta { delta, .. }) => deltas_heard(
                inputs.drop_last(),
            ).push((true, delta)),
            InputView::Event(EventView::ThinkingDelta { delta, .. }) => deltas_heard(
                inputs.drop_last(),
            ).push((false, delta)),
            _ => deltas_heard(inputs.drop_last()),
        }
    }
}

/// The text and the thinking that was told, each piece with whether it is text.
pub open spec fn deltas_told(events: Seq<AgentEventView>) -> Seq<(bool, Seq<char>)>
    decreases events.len(),
{
    if events.len() == 0 {
        Seq::empty()
    } else {
        match events.last() {
            AgentEventView::TextDelta { delta } => deltas_told(events.drop_last()).push(
                (true, delta),
            ),
            AgentEventView::ThinkingDelta { delta } => deltas_told(events.drop_last()).push(
                (false, delta),
            ),
            _ => deltas_told(events.drop_last()),
        }
    }
}

proof fn lemma_deltas_add(a: Seq<AgentEventView>, b: Seq<AgentEventView>)
    ensures
        deltas_told(a + b) == deltas_told(a) + deltas_told(b),
    decreases b.len(),
{
    if b.len() == 0 {
        assert(a + b =~= a);
        assert(deltas_told(a) + Seq::<(bool, Seq<char>)>::empty() =~= deltas_told(a));
    } else {
        lemma_deltas_add(a, b.drop_last());
        assert((a + b).drop_last() =~= a + b.drop_last());
        assert(deltas_told(a + b) =~= deltas_told(a) + deltas_told(b));
    }
}

/// The text and the thinking of the model are passed on as they arrive, all of
/// them and in their order.
pub proof fn law_deltas_are_passed_on(start: LoopView, inputs: Seq<(InputView, u64)>)
    requires
        accepted(start, inputs),
    ensures
        deltas_told(told(start, inputs)) == deltas_heard(inputs),
    decreases inputs.len(),
{
    if inputs.len() > 0 {
        let front = inputs.drop_last();
        law_deltas_are_passed_on(start, front);
        let events = moment(start, inputs).events;
        lemma_deltas_add(told(start, front), events);
        reveal_with_fuel(deltas_told, 4);
        let heard = deltas_heard(front);
        assert(heard + Seq::<(bool, Seq<char>)>::empty() =~= heard);
        if events.len() == 1 {
            assert(events.drop_last() =~= Seq::empty());
            match events[0] {
                AgentEventView::TextDelta { delta } => {
                    assert(heard + seq![(true, delta)] =~= heard.push((true, delta)));
                },
                AgentEventView::ThinkingDelta { delta } => {
                    assert(heard + seq![(false, delta)] =~= heard.push((false, delta)));
                },
                _ => {},
            }
        }
    }
}

/// A run that ends well says so last of all, and hands out the transcript that
/// it tells; it has stopped at the limit where it has used every turn.
pub proof fn law_end_is_told_last(
    config: ConfigView,
    messages: Seq<MessageView>,
    inputs: Seq<(InputView, u64)>,
)
    requires
        accepted(LoopView::fresh(config, messages), inputs),
    ensures
        ({
            let start = LoopView::fresh(config, messages);
            let events = told(start, inputs);
            let finished = inputs.len() > 0 && moment(start, inputs).action is Finish;
            &&& finished ==> {
                let run = moment(start, inputs).action->Finish_0;
                &&& run.messages == after(start, inputs).messages
                &&& run.stopped_at_turn_limit <==> after(start, inputs).turn == config.max_turns
                &&& events.len() > 0
                &&& events.last() == (AgentEventView::AgentEnd { messages: run.messages })
            }
            &&& forall|i: int|
                0 <= i < events.len() && #[trigger] events[i] is AgentEnd ==> finished && i
                    == events.len() - 1
        }),
    decreases inputs.len(),
{
    let start = LoopView::fresh(config, messages);
    if inputs.len() > 0 {
        let front = inputs.drop_last();
        law_end_is_told_last(config, messages, front);
        law_turns_are_limited(config, messages, front);
        law_transcript_only_grows(start, front, Seq::empty());
        assert(front + Seq::<(InputView, u64)>::empty() =~= front);
        let state = after(start, front);
        let before = told(start, front);
        let events = told(start, inputs);
        lemma_not_over(start, front, inputs.last().0);
        let now = moment(start, inputs);
        assert forall|i: int| 0 <= i < events.len() && #[trigger] events[i] is AgentEnd implies
            now.action is Finish && i == events.len() - 1 by {
            if i < before.len() {
                assert(events[i] == before[i]);
            } else {
                assert(events[i] == now.events[i - before.len()]);
            }
        }
    }
}

/// A run that still takes an input has not ended.
proof fn lemma_not_over(start: LoopView, inputs: Seq<(InputView, u64)>, next: InputView)
    requires
        after(start, inputs).awaits(next),
    ensures
        inputs.len() > 0 ==> !(moment(start, inputs).action is Finish),
        inputs.len() > 0 ==> !(moment(start, inputs).action is Fail),
{
}

/// A run that ends takes no more inputs, and a run that fails tells nothing
/// more.
pub proof fn law_end_is_final(
    start: LoopView,
    inputs: Seq<(InputView, u64)>,
    next: InputView,
)
    requires
        inputs.len() > 0,
        moment(start, inputs).action is Finish || moment(start, inputs).action is Fail,
    ensures
        !after(start, inputs).awaits(next),
        moment(start, inputs).action is Fail ==> moment(start, inputs).events.len() == 0,
{
}

/// The result that tells the model of an error.
pub open spec fn error_result(call: CallView, text: Seq<char>, now: u64) -> MessageView {
    MessageView::ToolResult(
        ToolResultView {
            tool_call_id: call.id,
            tool_name: call.name,
            content: seq![ContentView::Text { text }],
            is_error: true,
            timestamp: now,
        },
    )
}

/// A call that is denied is not run: the denial goes into the transcript as its
/// result, with the reason, and the run goes on to the next call.
pub proof fn law_denial_goes_back(
    state: LoopView,
    call: CallView,
    reason: Seq<char>,
    now: u64,
)
    requires
        state.phase == PhaseView::Asking(call),
    ensures
        ({
            let (next, moment) = state.step(
                InputView::Permission(DecisionView::Deny { reason }),
                now,
            );
            &&& moment.action == ActionView::Continue
            &&& next.phase == PhaseView::Calling
            &&& next.waiting == state.waiting
            &&& next.messages == state.messages.push(
                error_result(call, "permission denied: "@ + reason, now),
            )
        }),
{
}

/// A tool that fails, and a tool that is not there, do not end the run: the
/// error goes into the transcript as the result of the call.
pub proof fn law_failure_goes_back(
    state: LoopView,
    call: CallView,
    reason: Seq<char>,
    now: u64,
)
    ensures
        state.phase == PhaseView::Executing(call) ==> {
            let (next, moment) = state.step(InputView::ToolFailed(reason), now);
            &&& moment.action == ActionView::Continue
            &&& next.phase == PhaseView::Calling
            &&& next.waiting == state.waiting
            &&& next.messages == state.messages.push(
                error_result(call, "tool error: "@ + reason, now),
            )
        },
        state.phase == PhaseView::Calling && state.waiting.len() > 0 && call == state.waiting[0]
            && agent_loop::tool_named(state.config.tools, call.name) is None ==> {
            let (next, moment) = state.step(InputView::Continue, now);
            &&& moment.action == ActionView::Continue
            &&& next.phase == PhaseView::Calling
            &&& next.waiting == state.waiting.drop_first()
            &&& next.messages == state.messages.push(
                error_result(call, "unknown tool: "@ + call.name, now),
            )
        },
{
}

/// `tool_named` finds a tool of that name, if there is one.
proof fn lemma_tool_named(config: ConfigView, name: Seq<char>, n: nat)
    requires
        n <= config.tools.len(),
    ensures
        agent_loop::tool_named(config.tools.take(n as int), name) matches Some(tool) ==> 0 <= tool
            < n && config.tools[tool].name == name,
    decreases n,
{
    let tools = config.tools.take(n as int);
    if n > 0 {
        assert(tools.drop_last() =~= config.tools.take(n - 1));
        lemma_tool_named(config, name, (n - 1) as nat);
    }
}

/// The call of a tool that is asked about or at work.
pub open spec fn current_call(state: LoopView) -> Option<CallView> {
    match state.phase {
        PhaseView::Checking(call) => Some(call),
        PhaseView::Asking(call) => Some(call),
        PhaseView::Executing(call) => Some(call),
        _ => None,
    }
}

/// Whether a call has to be permitted is asked of the tool that the
/// configuration has under the name of the call, for every call anew.
pub proof fn law_tool_is_asked_itself(state: LoopView, input: InputView, now: u64)
    requires
        state.awaits(input),
        state.step(input, now).1.action is CheckTool,
    ensures
        ({
            let tool = state.step(input, now).1.action->CheckTool_tool;
            let next = state.step(input, now).0;
            &&& state.waiting.len() > 0
            &&& next.phase == PhaseView::Checking(state.waiting[0])
            &&& 0 <= tool < state.config.tools.len()
            &&& state.config.tools[tool].name == state.waiting[0].name
        }),
{
    assert(state.config.tools.take(state.config.tools.len() as int) =~= state.config.tools);
    lemma_tool_named(state.config, state.waiting[0].name, state.config.tools.len());
}

/// A tool is only used where the configuration has it under the name of the
/// call, and where it said of this call that it needs no permission, or was
/// permitted for this call, or for the run.
pub proof fn law_tool_is_permitted(state: LoopView, input: InputView, now: u64)
    requires
        state.awaits(input),
        state.step(input, now).1.action is Execute,
    ensures
        ({
            let tool = state.step(input, now).1.action->Execute_tool;
            let next = state.step(input, now).0;
            &&& next.phase is Executing
            &&& current_call(next) == current_call(state)
            &&& 0 <= tool < state.config.tools.len()
            &&& state.config.tools[tool].name == next.phase->Executing_0.name
            &&& {
                ||| state.phase is Checking && input == InputView::Requirement(false)
                ||| state.phase is Asking && input == InputView::Permission(DecisionView::Allow)
                ||| next.allowed.contains(next.phase->Executing_0.name)
            }
        }),
{
    let next = state.step(input, now).0;
    let name = next.phase->Executing_0.name;
    assert(state.config.tools.take(state.config.tools.len() as int) =~= state.config.tools);
    assert(state.phase is Calling ==> agent_loop::tool_named(
        state.config.tools,
        state.waiting[0].name,
    ) is None);
    lemma_tool_named(state.config, name, state.config.tools.len());
    if input == InputView::Permission(DecisionView::AllowSession) {
        assert(next.allowed.last() == name);
        assert(next.allowed.contains(name));
    }
}

proof fn lemma_asked(state: LoopView, input: InputView, now: u64)
    requires
        state.awaits(input),
        state.step(input, now).1.action is AskPermission,
    ensures
        ({
            let name = state.step(input, now).1.action->AskPermission_name;
            &&& input == InputView::Requirement(true)
            &&& state.phase matches PhaseView::Checking(call) && call.name == name
            &&& !state.allowed.contains(name)
        }),
{
}

/// A call that is checked is one of a tool that the configuration has.
proof fn lemma_checked_is_there(start: LoopView, inputs: Seq<(InputView, u64)>)
    requires
        !(start.phase is Checking),
        accepted(start, inputs),
    ensures
        after(start, inputs).phase matches PhaseView::Checking(call) ==> agent_loop::tool_named(
            start.config.tools,
            call.name,
        ) is Some,
{
    if inputs.len() > 0 {
        let front = inputs.drop_last();
        law_transcript_only_grows(start, front, Seq::empty());
        assert(front + Seq::<(InputView, u64)>::empty() =~= front);
    }
}

/// Permission is only asked for a tool that the configuration has, that said of
/// this call that it has to be permitted, and that is not allowed for the run.
pub proof fn law_asked_where_needed(
    config: ConfigView,
    messages: Seq<MessageView>,
    inputs: Seq<(InputView, u64)>,
)
    requires
        accepted(LoopView::fresh(config, messages), inputs),
        inputs.len() > 0,
        moment(LoopView::fresh(config, messages), inputs).action is AskPermission,
    ensures
        ({
            let start = LoopView::fresh(config, messages);
            let name = moment(start, inputs).action->AskPermission_name;
            let before = after(start, inputs.drop_last());
            &&& agent_loop::tool_named(config.tools, name) is Some
            &&& before.phase matches PhaseView::Checking(call) && call.name == name
            &&& inputs.last().0 == InputView::Requirement(true)
            &&& !before.allowed.contains(name)
        }),
{
    let start = LoopView::fresh(config, messages);
    let front = inputs.drop_last();
    lemma_asked(after(start, front), inputs.last().0, inputs.last().1);
    lemma_checked_is_there(start, front);
}

/// Whether a call of a tool is waiting for permission.
pub open spec fn asks_for(state: LoopView, name: Seq<char>) -> bool {
    state.phase matches PhaseView::Asking(call) && call.name == name
}

/// A tool is allowed for the run only by an answer that allowed it.
pub proof fn law_allowance_was_given(
    config: ConfigView,
    messages: Seq<MessageView>,
    inputs: Seq<(InputView, u64)>,
    name: Seq<char>,
)
    requires
        after(LoopView::fresh(config, messages), inputs).allowed.contains(name),
    ensures
        exists|k: int|
            #![trigger inputs[k]]
            0 <= k < inputs.len() && inputs[k].0 == InputView::Permission(
                DecisionView::AllowSession,
            ) && asks_for(after(LoopView::fresh(config, messages), inputs.take(k)), name),
    decreases inputs.len(),
{
    let start = LoopView::fresh(config, messages);
    if inputs.len() > 0 {
        let front = inputs.drop_last();
        let state = after(start, front);
        lemma_step(state, inputs.last().0, inputs.last().1);
        assert(inputs.take(inputs.len() - 1) =~= front);
        if state.allowed.contains(name) {
            law_allowance_was_given(config, messages, front, name);
            let k = choose|k: int|
                #![trigger front[k]]
                0 <= k < front.len() && front[k].0 == InputView::Permission(
                    DecisionView::AllowSession,
                ) && asks_for(after(start, front.take(k)), name);
            assert(inputs[k] == front[k]);
            assert(inputs.take(k) =~= front.take(k));
        } else {
            let next = after(start, inputs);
            let i = choose|i: int| 0 <= i < next.allowed.len() && next.allowed[i] == name;
            if i < state.allowed.len() {
                assert(state.allowed[i] == name);
            }
            assert(inputs[inputs.len() - 1] == inputs.last());
        }
    }
}

/// What is allowed for the run stays allowed.
proof fn lemma_allowed_stays(
    start: LoopView,
    inputs: Seq<(InputView, u64)>,
    k: int,
    name: Seq<char>,
)
    requires
        0 <= k <= inputs.len(),
        after(start, inputs.take(k)).allowed.contains(name),
    ensures
        after(start, inputs).allowed.contains(name),
    decreases inputs.len(),
{
    if k == inputs.len() {
        assert(inputs.take(k) =~= inputs);
    } else {
        let front = inputs.drop_last();
        assert(front.take(k) =~= inputs.take(k));
        lemma_allowed_stays(start, front, k, name);
        let state = after(start, front);
        let next = after(start, inputs);
        lemma_step(state, inputs.last().0, inputs.last().1);
        let i = choose|i: int| 0 <= i < state.allowed.len() && state.allowed[i] == name;
        assert(next.allowed[i] == name);
    }
}

/// Once a tool is allowed for the run, permission for it is never asked again.
pub proof fn law_never_asked_again(
    start: LoopView,
    inputs: Seq<(InputView, u64)>,
    k: int,
    name: Seq<char>,
)
    requires
        0 <= k < inputs.len(),
        accepted(start, inputs),
        after(start, inputs.take(k)).allowed.contains(name),
    ensures
        !(moment(start, inputs).action matches ActionView::AskPermission { name: asked, .. }
            && asked == name),
{
    let front = inputs.drop_last();
    assert(front.take(k) =~= inputs.take(k));
    lemma_allowed_stays(start, front, k, name);
    if moment(start, inputs).action is AskPermission {
        lemma_asked(after(start, front), inputs.last().0, inputs.last().1);
    }
}

proof fn lemma_result_added(messages: Seq<MessageView>, result: ToolResultView)
    ensures
        last_results(messages.push(MessageView::ToolResult(result))) == last_results(messages).push(
            result,
        ),
        last_calls(messages.push(MessageView::ToolResult(result))) == last_calls(messages),
        result_labels(last_results(messages).push(result)) == result_labels(
            last_results(messages),
        ).push((result.tool_call_id, result.tool_name)),
{
    let more = messages.push(MessageView::ToolResult(result));
    assert(more.drop_last() =~= messages);
    assert(result_labels(last_results(messages).push(result)) =~= result_labels(
        last_results(messages),
    ).push((result.tool_call_id, result.tool_name)));
}

/// One call more in front.
proof fn lemma_labels_first(call: CallView, rest: Seq<CallView>)
    ensures
        labels(seq![call] + rest) == seq![(call.id, call.name)] + labels(rest),
{
    assert(labels(seq![call] + rest) =~= seq![(call.id, call.name)] + labels(rest));
}

/// A call that gets its result goes over from the open calls to the results.
proof fn lemma_settled(
    state: LoopView,
    call: CallView,
    content: Seq<ContentView>,
    is_error: bool,
    terminate: bool,
    now: u64,
)
    requires
        kept_open(state.messages, seq![call] + state.waiting),
        state.all_terminate ==> no_errors(state.messages),
        terminate ==> !is_error,
    ensures
        calls_are_kept(state.settled(call, content, is_error, terminate, now)),
        state.settled(call, content, is_error, terminate, now).all_terminate ==> no_errors(
            state.settled(call, content, is_error, terminate, now).messages,
        ),
{
    let result = ToolResultView {
        tool_call_id: call.id,
        tool_name: call.name,
        content,
        is_error,
        timestamp: now,
    };
    let next = state.settled(call, content, is_error, terminate, now);
    lemma_result_added(state.messages, result);
    lemma_labels_first(call, state.waiting);
    assert(labels(last_calls(next.messages)) =~= result_labels(last_results(next.messages))
        + labels(next.waiting));
    let calls = last_calls(next.messages);
    let n = last_results(state.messages).len() as int;
    assert(calls.len() == labels(calls).len());
    assert(calls == calls.take(n) + (seq![call] + state.waiting));
    assert(calls[n] == (calls.take(n) + (seq![call] + state.waiting))[n]);
    assert(calls.take(n + 1) =~= calls.take(n).push(call));
    assert(calls =~= calls.take(n + 1) + state.waiting);
    if next.all_terminate {
        let results = last_results(next.messages);
        assert forall|i: int| 0 <= i < results.len() implies !(#[trigger] results[i]).is_error by {
            if i < results.len() - 1 {
                assert(results[i] == last_results(state.messages)[i]);
            }
        }
    }
}

/// Where a call begins, it is the first of the open ones.
proof fn lemma_execute(state: LoopView, call: CallView, now: u64)
    requires
        kept_open(state.messages, seq![call] + state.waiting),
        state.all_terminate ==> no_errors(state.messages),
    ensures
        calls_are_kept(state.execute(call, now).0),
        state.execute(call, now).0.all_terminate ==> no_errors(state.execute(call, now).0.messages),
{
    if agent_loop::tool_named(state.config.tools, call.name) is None {
        lemma_settled(
            state,
            call,
            agent_loop::one_text("unknown tool: "@ + call.name),
            true,
            false,
            now,
        );
    }
}

/// What one step keeps of the calls of a turn.
proof fn lemma_calls_step(state: LoopView, input: InputView, now: u64)
    requires
        state.awaits(input),
        amid_calls(state) ==> calls_are_kept(state),
        amid_calls(state) && !(state.phase is Ready) && state.all_terminate ==> no_errors(
            state.messages,
        ),
    ensures
        ({
            let next = state.step(input, now).0;
            &&& amid_calls(next) ==> calls_are_kept(next)
            &&& amid_calls(next) && !(next.phase is Ready) && next.all_terminate ==> no_errors(
                next.messages,
            )
        }),
{
    let next = state.step(input, now).0;
    match state.phase {
        PhaseView::Ready => {},
        PhaseView::Answering => {
            if next.phase is Calling {
                assert(next.messages.last() is Assistant);
                assert(labels(last_calls(next.messages)) =~= result_labels(
                    last_results(next.messages),
                ) + labels(next.waiting));
                assert(last_calls(next.messages) =~= last_calls(next.messages).take(0)
                    + next.waiting);
            }
        },
        PhaseView::Calling => {
            if state.waiting.len() == 0 {
                assert(labels(state.waiting) =~= labels(Seq::empty()));
                assert(state.waiting =~= Seq::empty());
            } else {
                let call = state.waiting[0];
                let rest = LoopView { waiting: state.waiting.drop_first(), ..state };
                assert(seq![call] + rest.waiting =~= state.waiting);
                if agent_loop::tool_named(state.config.tools, call.name) is None {
                    lemma_execute(rest, call, now);
                }
            }
        },
        PhaseView::Checking(call) => {
            lemma_execute(state, call, now);
        },
        PhaseView::Asking(call) => {
            match input->Permission_0 {
                DecisionView::Allow => {
                    lemma_execute(state, call, now);
                },
                DecisionView::AllowSession => {
                    lemma_execute(
                        LoopView { allowed: state.allowed.push(call.name), ..state },
                        call,
                        now,
                    );
                },
                DecisionView::Deny { reason } => {
                    lemma_settled(
                        state,
                        call,
                        agent_loop::one_text("permission denied: "@ + reason),
                        true,
                        false,
                        now,
                    );
                },
            }
        },
        PhaseView::Executing(call) => {
            match input {
                InputView::ToolReturned { content, terminate } => {
                    lemma_settled(state, call, content, false, terminate, now);
                },
                InputView::ToolFailed(reason) => {
                    lemma_settled(
                        state,
                        call,
                        agent_loop::one_text("tool error: "@ + reason),
                        true,
                        false,
                        now,
                    );
                },
                _ => {},
            }
        },
        PhaseView::Over => {},
    }
}

proof fn lemma_calls(config: ConfigView, messages: Seq<MessageView>, inputs: Seq<(InputView, u64)>)
    requires
        accepted(LoopView::fresh(config, messages), inputs),
    ensures
        ({
            let state = after(LoopView::fresh(config, messages), inputs);
            &&& amid_calls(state) ==> calls_are_kept(state)
            &&& amid_calls(state) && !(state.phase is Ready) && state.all_terminate ==> no_errors(
                state.messages,
            )
        }),
    decreases inputs.len(),
{
    if inputs.len() > 0 {
        lemma_calls(config, messages, inputs.drop_last());
        lemma_calls_step(
            after(LoopView::fresh(config, messages), inputs.drop_last()),
            inputs.last().0,
            inputs.last().1,
        );
    }
}

/// Every call of an answer gets one result, with its id and its name, in the
/// order of the calls: at any time those that have one come first, and none is
/// open between two turns.
pub proof fn law_every_call_is_answered(
    config: ConfigView,
    messages: Seq<MessageView>,
    inputs: Seq<(InputView, u64)>,
)
    requires
        accepted(LoopView::fresh(config, messages), inputs),
        amid_calls(after(LoopView::fresh(config, messages), inputs)),
    ensures
        ({
            let state = after(LoopView::fresh(config, messages), inputs);
            &&& labels(last_calls(state.messages)) == result_labels(last_results(state.messages))
                + labels(open_calls(state))
            &&& open_calls(state) == last_calls(state.messages).skip(
                last_results(state.messages).len() as int,
            )
            &&& state.phase is Ready ==> labels(last_calls(state.messages)) == result_labels(
                last_results(state.messages),
            )
        }),
{
    lemma_calls(config, messages, inputs);
    let state = after(LoopView::fresh(config, messages), inputs);
    let calls = last_calls(state.messages);
    assert(calls.len() == labels(calls).len());
    assert(open_calls(state) =~= calls.skip(last_results(state.messages).len() as int));
    if state.phase is Ready {
        assert(result_labels(last_results(state.messages)) + labels(Seq::empty())
            =~= result_labels(last_results(state.messages)));
    }
}

/// A run that ends well after a turn leaves no call open: its transcript ends in
/// an answer that ended it, or in the results of all the calls of the last
/// answer. Where it ends in results before the last turn, none of them is an
/// error: a call that failed, or was denied, goes back to the model.
pub proof fn law_finished_run_is_answered(
    config: ConfigView,
    messages: Seq<MessageView>,
    inputs: Seq<(InputView, u64)>,
)
    requires
        accepted(LoopView::fresh(config, messages), inputs),
        inputs.len() > 0,
        moment(LoopView::fresh(config, messages), inputs).action is Finish,
        after(LoopView::fresh(config, messages), inputs).turn > 0,
    ensures
        ({
            let end = after(LoopView::fresh(config, messages), inputs);
            ||| end.messages.len() > 0 && end.messages.last() is Assistant
            ||| labels(last_calls(end.messages)) == result_labels(last_results(end.messages)) && (
            end.turn < config.max_turns ==> no_errors(end.messages))
        }),
{
    let start = LoopView::fresh(config, messages);
    let front = inputs.drop_last();
    let state = after(start, front);
    lemma_calls(config, messages, front);
    law_transcript_only_grows(start, front, Seq::empty());
    assert(front + Seq::<(InputView, u64)>::empty() =~= front);
    let end = after(start, inputs);
    if amid_calls(state) {
        assert(open_calls(state) =~= Seq::empty());
        assert(result_labels(last_results(state.messages)) + labels(Seq::empty())
            =~= result_labels(last_results(state.messages)));
    } else {
        assert(end.messages.last() is Assistant);
    }
}

} // verus!
