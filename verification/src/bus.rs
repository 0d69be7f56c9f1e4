//! Session events and the hook table of plugins.
//!
//! The journal is authoritative; events are projections of it. Hooks are per-event handler
//! lists, evaluated in the order of registration, and interceptors that change or block tool
//! calls.

use crate::json::Json;
use crate::text;
use crate::tools::ToolOutput;
use vstd::prelude::*;

verus! {

/// Why a compaction was started.
#[derive(Debug, Clone, Copy, PartialEq, Eq, Structural)]
pub enum CompactionReason {
    Manual,
    Threshold,
    Overflow,
}

/// A message's fingerprint; the full content stays in the journal.
#[derive(Debug, Clone)]
pub struct MessageMeta {
    pub id: String,
    pub role: String,
    pub usage_total: Option<u64>,
    pub stop_reason: Option<String>,
}

/// What a session tells its subscribers.
#[derive(Debug, Clone)]
pub enum Event {
    MessageStart { message: MessageMeta },
    /// streaming: text or thinking deltas
    MessageUpdate { message_id: String, delta: String, is_thinking: bool },
    MessageEnd { message: MessageMeta },
    ToolExecutionStart { tool_call_id: String, tool_name: String },
    ToolExecutionUpdate { tool_call_id: String, partial: String },
    ToolExecutionEnd {
        tool_call_id: String,
        tool_name: String,
        result: ToolOutput,
        is_error: bool,
    },
    TurnStart { index: u32 },
    TurnEnd { index: u32 },
    AgentStart,
    AgentEnd,
    AgentSettled,
    CompactionStart { reason: CompactionReason },
    CompactionEnd { entry_id: String, tokens_before: u64 },
    QueueUpdate { steering: usize, follow_up: usize },
    ModelSelect { provider: String, model_id: String },
}

/// The name under which handlers register for an event.
pub open spec fn event_name(ev: Event) -> Seq<char> {
    match ev {
        Event::MessageStart { .. } => "message_start"@,
        Event::MessageUpdate { .. } => "message_update"@,
        Event::MessageEnd { .. } => "message_end"@,
        Event::ToolExecutionStart { .. } => "tool_execution_start"@,
        Event::ToolExecutionUpdate { .. } => "tool_execution_update"@,
        Event::ToolExecutionEnd { .. } => "tool_execution_end"@,
        Event::TurnStart { .. } => "turn_start"@,
        Event::TurnEnd { .. } => "turn_end"@,
        Event::AgentStart => "agent_start"@,
        Event::AgentEnd => "agent_end"@,
        Event::AgentSettled => "agent_settled"@,
        Event::CompactionStart { .. } => "compaction_start"@,
        Event::CompactionEnd { .. } => "compaction_end"@,
        Event::QueueUpdate { .. } => "queue_update"@,
        Event::ModelSelect { .. } => "model_select"@,
    }
}

/// The name under which handlers register for an event.
pub fn event_name_of(ev: &Event) -> (r: &'static str)
    ensures
        r@ == event_name(*ev),
{
    match ev {
        Event::MessageStart { .. } => "message_start",
        Event::MessageUpdate { .. } => "message_update",
        Event::MessageEnd { .. } => "message_end",
        Event::ToolExecutionStart { .. } => "tool_execution_start",
        Event::ToolExecutionUpdate { .. } => "tool_execution_update",
        Event::ToolExecutionEnd { .. } => "tool_execution_end",
        Event::TurnStart { .. } => "turn_start",
        Event::TurnEnd { .. } => "turn_end",
        Event::AgentStart => "agent_start",
        Event::AgentEnd => "agent_end",
        Event::AgentSettled => "agent_settled",
        Event::CompactionStart { .. } => "compaction_start",
        Event::CompactionEnd { .. } => "compaction_end",
        Event::QueueUpdate { .. } => "queue_update",
        Event::ModelSelect { .. } => "model_select",
    }
}

/// What a handler says to an event.
#[derive(Debug, Clone, Copy, PartialEq, Eq, Structural)]
pub enum HookAction {
    /// Go on with the next handler, then with the default behaviour.
    Continue,
    /// The event is blocked.
    Blocked,
    /// The event was fully handled; the default behaviour is skipped.
    Handled,
}

/// The handlers registered under a name, in order of registration.
pub open spec fn handlers_for<H>(s: Seq<(Seq<char>, H)>, name: Seq<char>) -> Seq<H>
    decreases s.len(),
{
    if s.len() == 0 {
        Seq::empty()
    } else {
        let rest = handlers_for(s.drop_last(), name);
        if s.last().0 == name {
            rest.push(s.last().1)
        } else {
            rest
        }
    }
}

/// Whether `r` can come of running the handlers on an event: they run in order, up to the
/// first that does not say `Continue`, whose word is the outcome.
pub open spec fn outcome<H: Fn(&Event) -> HookAction>(hs: Seq<H>, ev: Event, r: HookAction) -> bool
    decreases hs.len(),
{
    if hs.len() == 0 {
        r == HookAction::Continue
    } else {
        exists|a: HookAction| #[trigger]
            call_ensures(hs[0], (&ev,), a) && (if a == HookAction::Continue {
                outcome(hs.drop_first(), ev, r)
            } else {
                r == a
            })
    }
}

/// Whether `r` can come of passing a tool call through the interceptors: each gets the
/// arguments that the one before gave; the first that gives none blocks the call.
pub open spec fn interception<I: Fn(&str, &Json) -> Option<Json>>(
    is: Seq<I>,
    name: &str,
    args: Json,
    r: Option<Json>,
) -> bool
    decreases is.len(),
{
    if is.len() == 0 {
        r == Some(args)
    } else {
        exists|o: Option<Json>| #[trigger]
            call_ensures(is[0], (name, &args), o) && (match o {
                Some(next) => interception(is.drop_first(), name, next, r),
                None => r is None,
            })
    }
}

/// Hook table: handler lists per event, and tool-call interceptors.
pub struct Hooks<H, I> {
    handlers: Vec<(String, H)>,
    tool_interceptors: Vec<I>,
}

/// What a hook table holds, in order of registration.
pub struct HooksView<H, I> {
    pub handlers: Seq<(Seq<char>, H)>,
    pub interceptors: Seq<I>,
}

impl<H, I> View for Hooks<H, I> {
    type V = HooksView<H, I>;

    closed spec fn view(&self) -> HooksView<H, I> {
        HooksView {
            handlers: self.handlers@.map_values(|p: (String, H)| (p.0@, p.1)),
            interceptors: self.tool_interceptors@,
        }
    }
}

impl<H: Fn(&Event) -> HookAction, I: Fn(&str, &Json) -> Option<Json>> Hooks<H, I> {
    /// Whether every handler can be called on any event, and every interceptor on any call.
    pub open spec fn callable(&self) -> bool {
        &&& forall|i: int, ev: Event|
            0 <= i < self@.handlers.len() ==> #[trigger] call_requires(
                self@.handlers[i].1,
                (&ev,),
            )
        &&& forall|i: int, name: &str, args: Json|
            0 <= i < self@.interceptors.len() ==> #[trigger] call_requires(
                self@.interceptors[i],
                (name, &args),
            )
    }

    /// A table without hooks.
    pub fn new() -> (r: Self)
        ensures
            r@.handlers == Seq::<(Seq<char>, H)>::empty(),
            r@.interceptors == Seq::<I>::empty(),
            r.callable(),
    {
        let r = Hooks { handlers: Vec::new(), tool_interceptors: Vec::new() };
        assert(r@.handlers =~= Seq::empty());
        assert(r@.interceptors =~= Seq::empty());
        r
    }

    /// Registers a handler for a named event, behind the others.
    pub fn on(&mut self, event_name: &str, handler: H)
        ensures
            final(self)@ == (HooksView {
                handlers: old(self)@.handlers.push((event_name@, handler)),
                ..old(self)@
            }),
    {
        let ghost before = self@.handlers;
        self.handlers.push((event_name.to_owned(), handler));
        assert(self@.handlers =~= before.push((event_name@, handler)));
    }

    /// Registers an interceptor behind the others.
    pub fn on_tool_call(&mut self, interceptor: I)
        ensures
            final(self)@ == (HooksView {
                interceptors: old(self)@.interceptors.push(interceptor),
                ..old(self)@
            }),
    {
        self.tool_interceptors.push(interceptor);
    }

    /// Runs the handlers of an event and returns the final action.
    pub fn run_handlers(&self, event: &Event) -> (r: HookAction)
        requires
            self.callable(),
        ensures
            outcome(handlers_for(self@.handlers, event_name(*event)), *event, r),
    {
        let name = event_name_of(event);
        let ghost all = self@.handlers;
        let ghost hs = handlers_for(all, name@);
        let ghost mut done: int = 0;
        let mut i: usize = 0;
        assert(all.take(0) =~= Seq::<(Seq<char>, H)>::empty());
        assert(hs.skip(0) =~= hs);
        while i < self.handlers.len()
            invariant
                i <= self.handlers@.len(),
                self.callable(),
                all == self@.handlers,
                all.len() == self.handlers@.len(),
                hs == handlers_for(all, name@),
                done == handlers_for(all.take(i as int), name@).len(),
                done <= hs.len(),
                forall|r: HookAction|
                    outcome(hs.skip(done), *event, r) ==> #[trigger] outcome(hs, *event, r),
                name@ == event_name(*event),
            decreases self.handlers@.len() - i,
        {
            proof {
                assert(all.take(i + 1).drop_last() =~= all.take(i as int));
                assert(all.take(i + 1).last() == all[i as int]);
                assert(all[i as int] == (self.handlers@[i as int].0@, self.handlers@[i as int].1));
                lemma_handlers_prefix(all, name@, i + 1);
            }
            if text::str_eq(self.handlers[i].0.as_str(), name) {
                let ghost h = self.handlers@[i as int].1;
                proof {
                    assert(handlers_for(all.take(i + 1), name@).len() == done + 1);
                    assert(handlers_for(all.take(i + 1), name@)[done] == h);
                    assert(hs[done] == h);
                    assert(hs.skip(done)[0] == h);
                    assert(hs.skip(done).drop_first() =~= hs.skip(done + 1));
                    assert(call_requires(all[i as int].1, (event,)));
                }
                let handler = &self.handlers[i].1;
                let action = handler(event);
                assert(call_ensures(h, (event,), action));
                match action {
                    HookAction::Continue => {
                        assert forall|r: HookAction| outcome(
                            hs.skip(done + 1),
                            *event,
                            r,
                        ) implies #[trigger] outcome(hs, *event, r) by {
                            assert(outcome(hs.skip(done), *event, r));
                        }
                        proof {
                            done = done + 1;
                        }
                    },
                    _ => {
                        assert(outcome(hs.skip(done), *event, action));
                        return action;
                    },
                }
            }
            i += 1;
        }
        assert(all.take(all.len() as int) =~= all);
        assert(outcome(hs.skip(done), *event, HookAction::Continue));
        HookAction::Continue
    }

    /// Passes a tool call through the interceptors: the arguments to run it with, or `None`
    /// where it is blocked.
    pub fn run_tool_interceptors(&self, tool_name: &str, args: &Json) -> (r: Option<Json>)
        requires
            self.callable(),
        ensures
            exists|start: Json|
                start@ == args@ && #[trigger] interception(
                    self@.interceptors,
                    tool_name,
                    start,
                    r,
                ),
    {
        let mut current = args.clone();
        let ghost start = current;
        let ghost is = self@.interceptors;
        let mut i: usize = 0;
        assert(is.skip(0) =~= is);
        while i < self.tool_interceptors.len()
            invariant
                i <= self.tool_interceptors@.len(),
                self.callable(),
                is == self@.interceptors,
                is == self.tool_interceptors@,
                start@ == args@,
                forall|r: Option<Json>|
                    interception(is.skip(i as int), tool_name, current, r)
                        ==> #[trigger] interception(is, tool_name, start, r),
            decreases self.tool_interceptors@.len() - i,
        {
            proof {
                assert(is.skip(i as int)[0] == is[i as int]);
                assert(is.skip(i as int).drop_first() =~= is.skip(i + 1));
                assert(call_requires(is[i as int], (tool_name, &current)));
            }
            let ghost before = current;
            let interceptor = &self.tool_interceptors[i];
            let o = interceptor(tool_name, &current);
            assert(call_ensures(is[i as int], (tool_name, &before), o));
            match o {
                Some(next) => {
                    current = next;
                    assert forall|r: Option<Json>| interception(
                        is.skip(i + 1),
                        tool_name,
                        current,
                        r,
                    ) implies #[trigger] interception(is, tool_name, start, r) by {
                        assert(interception(is.skip(i as int), tool_name, before, r));
                    }
                },
                None => {
                    let ghost none = None::<Json>;
                    assert(interception(is.skip(i as int), tool_name, before, none));
                    assert(interception(is, tool_name, start, none));
                    return None;
                },
            }
            i += 1;
        }
        proof {
            assert(interception(is.skip(i as int), tool_name, current, Some(current)));
            assert(interception(is, tool_name, start, Some(current)));
        }
        Some(current)
    }

    /// Drops all handlers and interceptors.
    pub fn reload(&mut self)
        ensures
            final(self)@.handlers == Seq::<(Seq<char>, H)>::empty(),
            final(self)@.interceptors == Seq::<I>::empty(),
            final(self).callable(),
    {
        self.handlers = Vec::new();
        self.tool_interceptors = Vec::new();
        assert(self@.handlers =~= Seq::empty());
        assert(self@.interceptors =~= Seq::empty());
    }

    /// Whether handlers are registered for an event.
    pub fn has_handlers(&self, event_name: &str) -> (r: bool)
        ensures
            r == (handlers_for(self@.handlers, event_name@).len() > 0),
    {
        let ghost all = self@.handlers;
        let mut i: usize = 0;
        assert(all.take(0) =~= Seq::<(Seq<char>, H)>::empty());
        while i < self.handlers.len()
            invariant
                i <= self.handlers@.len(),
                all == self@.handlers,
                all.len() == self.handlers@.len(),
                handlers_for(all.take(i as int), event_name@).len() == 0,
            decreases self.handlers@.len() - i,
        {
            proof {
                assert(all.take(i + 1).drop_last() =~= all.take(i as int));
                assert(all.take(i + 1).last() == all[i as int]);
                assert(all[i as int] == (self.handlers@[i as int].0@, self.handlers@[i as int].1));
            }
            if text::str_eq(self.handlers[i].0.as_str(), event_name) {
                proof {
                    lemma_handlers_prefix(all, event_name@, i + 1);
                }
                return true;
            }
            i += 1;
        }
        assert(all.take(all.len() as int) =~= all);
        false
    }

    /// Whether interceptors are registered.
    pub fn has_tool_hooks(&self) -> (r: bool)
        ensures
            r == (self@.interceptors.len() > 0),
    {
        self.tool_interceptors.len() > 0
    }
}

impl<H: Fn(&Event) -> HookAction, I: Fn(&str, &Json) -> Option<Json>> Default for Hooks<H, I> {
    fn default() -> (r: Self)
        ensures
            r@.handlers == Seq::<(Seq<char>, H)>::empty(),
            r@.interceptors == Seq::<I>::empty(),
            r.callable(),
    {
        Hooks::new()
    }
}

/// The handlers among the first registrations are the first handlers.
proof fn lemma_handlers_prefix<H>(s: Seq<(Seq<char>, H)>, name: Seq<char>, n: int)
    requires
        0 <= n <= s.len(),
    ensures
        handlers_for(s.take(n), name).len() <= handlers_for(s, name).len(),
        forall|k: int|
            0 <= k < handlers_for(s.take(n), name).len() ==> #[trigger] handlers_for(
                s.take(n),
                name,
            )[k] == handlers_for(s, name)[k],
    decreases s.len() - n,
{
    if n == s.len() {
        assert(s.take(n) =~= s);
    } else {
        lemma_handlers_prefix(s, name, n + 1);
        let longer = handlers_for(s.take(n + 1), name);
        let shorter = handlers_for(s.take(n), name);
        assert(s.take(n + 1).drop_last() =~= s.take(n));
        assert forall|k: int| 0 <= k < shorter.len() implies #[trigger] shorter[k] == handlers_for(
            s,
            name,
        )[k] by {
            assert(longer[k] == shorter[k]);
        }
    }
}

// ---- laws -----------------------------------------------------------------------------------------

/// A handler that does not continue keeps all handlers behind it from running: they make no
/// difference to the outcome.
pub proof fn stopped_chain_ignores_the_rest<H: Fn(&Event) -> HookAction>(
    h: H,
    rest: Seq<H>,
    other: Seq<H>,
    ev: Event,
    r: HookAction,
)
    requires
        forall|a: HookAction| #[trigger] call_ensures(h, (&ev,), a) ==> a != HookAction::Continue,
        outcome(seq![h] + rest, ev, r),
    ensures
        r != HookAction::Continue,
        outcome(seq![h] + other, ev, r),
{
    assert((seq![h] + rest)[0] == h);
    assert((seq![h] + other)[0] == h);
}

/// Without handlers an event goes through.
pub proof fn no_handlers_continue<H: Fn(&Event) -> HookAction>(ev: Event, r: HookAction)
    requires
        outcome(Seq::<H>::empty(), ev, r),
    ensures
        r == HookAction::Continue,
{
}

/// Without interceptors a tool call keeps its arguments.
pub proof fn no_interceptors_keep_arguments<I: Fn(&str, &Json) -> Option<Json>>(
    name: &str,
    args: Json,
    r: Option<Json>,
)
    requires
        interception(Seq::<I>::empty(), name, args, r),
    ensures
        r == Some(args),
{
}

/// An interceptor that always blocks blocks every tool call, whatever stands behind it.
pub proof fn blocking_interceptor_blocks<I: Fn(&str, &Json) -> Option<Json>>(
    i: I,
    rest: Seq<I>,
    name: &str,
    args: Json,
    r: Option<Json>,
)
    requires
        forall|o: Option<Json>| #[trigger] call_ensures(i, (name, &args), o) ==> o is None,
        interception(seq![i] + rest, name, args, r),
    ensures
        r is None,
{
    assert((seq![i] + rest)[0] == i);
}

/// Registering a handler puts it behind the handlers of the same event and leaves those of
/// other events alone.
pub proof fn registration_keeps_order<H>(
    s: Seq<(Seq<char>, H)>,
    name: Seq<char>,
    h: H,
    other: Seq<char>,
)
    requires
        other != name,
    ensures
        handlers_for(s.push((name, h)), name) == handlers_for(s, name).push(h),
        handlers_for(s.push((name, h)), other) == handlers_for(s, other),
{
    assert(s.push((name, h)).drop_last() =~= s);
}

/// Every event goes by its own name.
pub proof fn events_have_their_names(ev: Event)
    ensures
        ev is MessageStart ==> event_name(ev) == "message_start"@,
        ev is MessageUpdate ==> event_name(ev) == "message_update"@,
        ev is MessageEnd ==> event_name(ev) == "message_end"@,
        ev is ToolExecutionStart ==> event_name(ev) == "tool_execution_start"@,
        ev is ToolExecutionUpdate ==> event_name(ev) == "tool_execution_update"@,
        ev is ToolExecutionEnd ==> event_name(ev) == "tool_execution_end"@,
        ev is TurnStart ==> event_name(ev) == "turn_start"@,
        ev is TurnEnd ==> event_name(ev) == "turn_end"@,
        ev is AgentStart ==> event_name(ev) == "agent_start"@,
        ev is AgentEnd ==> event_name(ev) == "agent_end"@,
        ev is AgentSettled ==> event_name(ev) == "agent_settled"@,
        ev is CompactionStart ==> event_name(ev) == "compaction_start"@,
        ev is CompactionEnd ==> event_name(ev) == "compaction_end"@,
        ev is QueueUpdate ==> event_name(ev) == "queue_update"@,
        ev is ModelSelect ==> event_name(ev) == "model_select"@,
{
}

/// A handler that says to go on leaves the event to those behind it; one that does not has the
/// last word.
pub proof fn handlers_run_in_order<H: Fn(&Event) -> HookAction>(
    h: H,
    rest: Seq<H>,
    ev: Event,
    a: HookAction,
    r: HookAction,
)
    requires
        forall|b: HookAction| #[trigger] call_ensures(h, (&ev,), b) <==> b == a,
    ensures
        a == HookAction::Continue ==> (outcome(seq![h] + rest, ev, r) <==> outcome(rest, ev, r)),
        a != HookAction::Continue ==> (outcome(seq![h] + rest, ev, r) <==> r == a),
{
    let all = seq![h] + rest;
    assert(all[0] == h);
    assert(all.drop_first() =~= rest);
    assert(call_ensures(h, (&ev,), a));
}

/// Arguments pass from interceptor to interceptor: what the first gives is what the next one
/// gets, and where it gives none the call is blocked.
pub proof fn interceptors_pass_arguments_on<I: Fn(&str, &Json) -> Option<Json>>(
    i: I,
    rest: Seq<I>,
    name: &str,
    args: Json,
    next: Option<Json>,
    r: Option<Json>,
)
    requires
        forall|o: Option<Json>| #[trigger] call_ensures(i, (name, &args), o) <==> o == next,
    ensures
        next matches Some(a) ==> (interception(seq![i] + rest, name, args, r) <==> interception(
            rest,
            name,
            a,
            r,
        )),
        next is None ==> (interception(seq![i] + rest, name, args, r) <==> r is None),
{
    let all = seq![i] + rest;
    assert(all[0] == i);
    assert(all.drop_first() =~= rest);
    assert(call_ensures(i, (name, &args), next));
}

} // verus!
