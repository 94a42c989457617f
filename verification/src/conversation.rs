//! Cache-safe, append-only conversation state.
//!
//! The Interactions API caches implicitly: a request whose rendered prefix
//! matches an earlier one reads it from cache (measured 2026-09-24: 4,081 of
//! 10,185 input tokens cached on an identical repeat). The prefix is the
//! system instruction, then the tools, then the steps, so a [`Conversation`]
//! fixes the first two at construction and only ever appends to the third.
//! There is no method that edits, removes or reorders history.
//!
//! It also holds the one ordering rule the API states for stateless use: every
//! function call the model made is answered before the model is asked again.

use vstd::prelude::*;

use crate::content::{FunctionOutput, InputContent};
use crate::step::{FunctionCall, FunctionCallV, FunctionResult, ModelStep, Step, StepView, UserInput};
use crate::text::same_text;
use crate::tools::{tool_name, AllowedTools, Tool};
use crate::turn::{calls_in, Turn};
use crate::values::ToolChoiceMode;

verus! {

/// A refused change to a conversation, returned before anything is appended.
#[derive(Debug, Clone, PartialEq, Eq)]
pub enum ConversationError {
    /// Two tools declare the same name.
    DuplicateToolName(String),
    /// The model called functions that have no result yet; their ids.
    UnansweredCalls(Vec<String>),
    /// No pending call has this id.
    UnknownCall(String),
    /// No declared tool has this name.
    UnknownTool(String),
}

/// Whether the tool at `j` has a name that an earlier tool already has.
pub open spec fn duplicate_at(tools: Seq<Tool>, j: int) -> bool {
    &&& tool_name(tools[j]) is Some
    &&& exists|i: int| 0 <= i < j && #[trigger] tool_name(tools[i]) == tool_name(tools[j])
}

/// Whether no two named tools share a name.
pub open spec fn names_distinct(tools: Seq<Tool>) -> bool {
    forall|j: int| 0 <= j < tools.len() ==> !#[trigger] duplicate_at(tools, j)
}

/// The position of the first call with this id.
pub open spec fn first_with_id(calls: Seq<FunctionCallV>, id: Seq<char>) -> Option<int>
    decreases calls.len(),
{
    if calls.len() == 0 {
        None
    } else if calls[0].id == id {
        Some(0)
    } else {
        match first_with_id(calls.drop_first(), id) {
            Some(i) => Some(i + 1),
            None => None,
        }
    }
}

/// `first_with_id` names the first call with the id, or `None` when there is none.
pub proof fn lemma_first_with_id(calls: Seq<FunctionCallV>, id: Seq<char>)
    ensures
        match first_with_id(calls, id) {
            Some(i) => 0 <= i < calls.len() && calls[i].id == id && forall|j: int|
                0 <= j < i ==> #[trigger] calls[j].id != id,
            None => forall|j: int| 0 <= j < calls.len() ==> #[trigger] calls[j].id != id,
        },
    decreases calls.len(),
{
    if calls.len() > 0 && calls[0].id != id {
        lemma_first_with_id(calls.drop_first(), id);
        match first_with_id(calls.drop_first(), id) {
            Some(i) => {
                assert forall|j: int| 0 <= j < i + 1 implies #[trigger] calls[j].id != id by {
                    if j > 0 {
                        assert(calls[j] == calls.drop_first()[j - 1]);
                    }
                }
            },
            None => {
                assert forall|j: int| 0 <= j < calls.len() implies #[trigger] calls[j].id != id by {
                    if j > 0 {
                        assert(calls[j] == calls.drop_first()[j - 1]);
                    }
                }
            },
        }
    }
}

/// The calls, without the first one with this id.
pub open spec fn answer(calls: Seq<FunctionCallV>, id: Seq<char>) -> Seq<FunctionCallV> {
    match first_with_id(calls, id) {
        Some(i) => calls.remove(i),
        None => calls,
    }
}

/// The function calls of a history that no function result has answered yet,
/// in call order: each model call joins them, and each result removes the
/// first one with its call id.
pub open spec fn unanswered(history: Seq<Step>) -> Seq<FunctionCallV>
    decreases history.len(),
{
    if history.len() == 0 {
        Seq::empty()
    } else {
        let before = unanswered(history.drop_last());
        match history.last() {
            Step::Model(m) => match m.says() {
                StepView::FunctionCall(c) => before.push(c@),
                _ => before,
            },
            Step::FunctionResult(r) => answer(before, r.answered_id()),
            Step::UserInput(_) => before,
        }
    }
}

/// Whether a step is a model's function call with this id and name.
pub open spec fn calls_with(step: Step, id: Seq<char>, name: Seq<char>) -> bool {
    step matches Step::Model(m) && (m.says() matches StepView::FunctionCall(c) && c.id@ == id && c.name@ == name)
}

/// Whether every function result of a history answers an earlier call of
/// the model with the result's call id and name.
pub open spec fn results_answer_calls(history: Seq<Step>) -> bool {
    forall|j: int|
        0 <= j < history.len() && #[trigger] history[j] is FunctionResult ==> exists|i: int|
            0 <= i < j && #[trigger] calls_with(
                history[i],
                history[j]->FunctionResult_0.answered_id(),
                history[j]->FunctionResult_0.answered_name(),
            )
}

/// Every call still waiting was made by a step of the history.
pub proof fn lemma_unanswered_called(history: Seq<Step>, k: int)
    requires
        0 <= k < unanswered(history).len(),
    ensures
        exists|i: int|
            0 <= i < history.len() && #[trigger] calls_with(
                history[i],
                unanswered(history)[k].id,
                unanswered(history)[k].name,
            ),
    decreases history.len(),
{
    let d = history.drop_last();
    let before = unanswered(d);
    let c = unanswered(history)[k];
    let n = history.len() - 1;
    match history.last() {
        Step::Model(m) => match m.says() {
            StepView::FunctionCall(call) => {
                if k < before.len() {
                    lemma_unanswered_called(d, k);
                    let i = choose|i: int| 0 <= i < d.len() && #[trigger] calls_with(d[i], before[k].id, before[k].name);
                    assert(history[i] == d[i]);
                } else {
                    assert(calls_with(history[n], c.id, c.name));
                }
            },
            _ => {
                lemma_unanswered_called(d, k);
                let i = choose|i: int| 0 <= i < d.len() && #[trigger] calls_with(d[i], before[k].id, before[k].name);
                assert(history[i] == d[i]);
            },
        },
        Step::FunctionResult(r) => {
            let id = r.answered_id();
            lemma_first_with_id(before, id);
            match first_with_id(before, id) {
                Some(p) => {
                    before.remove_ensures(p);
                    let kk = if k < p { k } else { k + 1 };
                    assert(c == before[kk]);
                    lemma_unanswered_called(d, kk);
                    let i = choose|i: int| 0 <= i < d.len() && #[trigger] calls_with(d[i], before[kk].id, before[kk].name);
                    assert(history[i] == d[i]);
                },
                None => {
                    lemma_unanswered_called(d, k);
                    let i = choose|i: int| 0 <= i < d.len() && #[trigger] calls_with(d[i], before[k].id, before[k].name);
                    assert(history[i] == d[i]);
                },
            }
        },
        Step::UserInput(_) => {
            lemma_unanswered_called(d, k);
            let i = choose|i: int| 0 <= i < d.len() && #[trigger] calls_with(d[i], before[k].id, before[k].name);
            assert(history[i] == d[i]);
        },
    }
}

/// Appending a step that is not a function result keeps every result
/// answering an earlier call.
proof fn lemma_answers_push(history: Seq<Step>, step: Step)
    requires
        results_answer_calls(history),
        !(step is FunctionResult),
    ensures
        results_answer_calls(history.push(step)),
{
    let h = history.push(step);
    assert forall|j: int| 0 <= j < h.len() && #[trigger] h[j] is FunctionResult implies exists|i: int|
        0 <= i < j && #[trigger] calls_with(h[i], h[j]->FunctionResult_0.answered_id(), h[j]->FunctionResult_0.answered_name()) by {
        assert(h[j] == history[j]);
        let i = choose|i: int|
            0 <= i < j && #[trigger] calls_with(
                history[i],
                history[j]->FunctionResult_0.answered_id(),
                history[j]->FunctionResult_0.answered_name(),
            );
        assert(h[i] == history[i]);
    }
}

/// Whether the next step belongs to the model: the history ends with the
/// caller's step and no call is waiting.
pub open spec fn awaits(history: Seq<Step>, waiting: Seq<FunctionCallV>) -> bool {
    &&& waiting.len() == 0
    &&& history.len() > 0
    &&& (history.last() is UserInput || history.last() is FunctionResult)
}

/// The model's steps as history entries.
pub open spec fn as_history(steps: Seq<ModelStep>) -> Seq<Step> {
    Seq::new(steps.len(), |i: int| Step::Model(steps[i]))
}

/// The forms of a list of calls.
pub open spec fn calls_view(calls: Seq<FunctionCall>) -> Seq<FunctionCallV> {
    Seq::new(calls.len(), |i: int| calls[i]@)
}

/// System instruction, tools and history: the part of a request that stays put.
#[derive(Debug, PartialEq)]
pub struct Conversation {
    system_instruction: Option<String>,
    tools: Vec<Tool>,
    steps: Vec<Step>,
    pending: Vec<FunctionCall>,
}

impl Conversation {
    /// The system instruction.
    pub closed spec fn instruction(&self) -> Option<String> {
        self.system_instruction
    }

    /// The declared tools.
    pub closed spec fn declared(&self) -> Seq<Tool> {
        self.tools@
    }

    /// The history, oldest first.
    pub closed spec fn history(&self) -> Seq<Step> {
        self.steps@
    }

    /// The calls still waiting for a result, in call order.
    pub closed spec fn waiting(&self) -> Seq<FunctionCallV> {
        calls_view(self.pending@)
    }

    /// Tool names are distinct, the waiting calls are exactly the calls of
    /// the history that have no result yet, and every result answers an
    /// earlier call with its id and name.
    #[verifier::type_invariant]
    closed spec fn consistent(&self) -> bool {
        &&& names_distinct(self.tools@)
        &&& calls_view(self.pending@) == unanswered(self.steps@)
        &&& results_answer_calls(self.steps@)
    }

    /// A conversation with its system instruction, if any, and its tools, both
    /// fixed for its lifetime.
    ///
    /// Refused with the first name that a tool repeats.
    pub fn new(system_instruction: Option<String>, tools: Vec<Tool>) -> (r: Result<Self, ConversationError>)
        ensures
            match r {
                Ok(c) => {
                    &&& names_distinct(tools@)
                    &&& c.instruction() == system_instruction
                    &&& c.declared() == tools@
                    &&& c.history() == Seq::<Step>::empty()
                    &&& c.waiting() == Seq::<FunctionCallV>::empty()
                },
                Err(e) => exists|j: int|
                    {
                        &&& 0 <= j < tools@.len()
                        &&& duplicate_at(tools@, j)
                        &&& forall|k: int| 0 <= k < j ==> !#[trigger] duplicate_at(tools@, k)
                        &&& e matches ConversationError::DuplicateToolName(n) && Some(n@) == tool_name(
                            tools@[j],
                        )
                    },
            },
    {
        let mut j: usize = 0;
        while j < tools.len()
            invariant
                j <= tools@.len(),
                forall|k: int| 0 <= k < j ==> !#[trigger] duplicate_at(tools@, k),
            decreases tools.len() - j,
        {
            if let Some(name) = tools[j].name() {
                let mut i: usize = 0;
                while i < j
                    invariant
                        i <= j < tools@.len(),
                        tool_name(tools@[j as int]) == Some(name@),
                        forall|k: int| 0 <= k < j ==> !#[trigger] duplicate_at(tools@, k),
                        forall|k: int| 0 <= k < i ==> #[trigger] tool_name(tools@[k]) != Some(name@),
                    decreases j - i,
                {
                    if let Some(other) = tools[i].name() {
                        if same_text(other, name) {
                            let e = ConversationError::DuplicateToolName(name.to_owned());
                            proof {
                                assert(duplicate_at(tools@, j as int));
                                assert({
                                    &&& 0 <= j < tools@.len()
                                    &&& duplicate_at(tools@, j as int)
                                    &&& forall|k: int| 0 <= k < j ==> !#[trigger] duplicate_at(tools@, k)
                                    &&& e matches ConversationError::DuplicateToolName(n) && Some(n@) == tool_name(
                                        tools@[j as int],
                                    )
                                });
                            }
                            return Err(e);
                        }
                    }
                    i = i + 1;
                }
                proof {
                    if duplicate_at(tools@, j as int) {
                        let i = choose|i: int| 0 <= i < j && #[trigger] tool_name(tools@[i]) == tool_name(tools@[j as int]);
                        assert(tool_name(tools@[i]) != Some(name@));
                    }
                }
            }
            j = j + 1;
        }
        let steps: Vec<Step> = Vec::new();
        let pending: Vec<FunctionCall> = Vec::new();
        proof {
            assert(calls_view(pending@) =~= Seq::<FunctionCallV>::empty());
            assert(unanswered(steps@) == Seq::<FunctionCallV>::empty());
            assert(names_distinct(tools@));
        }
        let c = Conversation { system_instruction, tools, steps, pending };
        Ok(c)
    }

    /// The system instruction.
    pub fn system_instruction(&self) -> (r: Option<&str>)
        ensures
            match r {
                Some(s) => self.instruction() matches Some(i) && s@ == i@,
                None => self.instruction() is None,
            },
    {
        match &self.system_instruction {
            Some(s) => Some(s.as_str()),
            None => None,
        }
    }

    /// The declared tools, in declaration order; no two share a name.
    pub fn tools(&self) -> (r: &[Tool])
        ensures
            r@ == self.declared(),
            names_distinct(r@),
    {
        proof {
            use_type_invariant(self);
        }
        self.tools.as_slice()
    }

    /// The history, oldest first. Every function result in it answers an
    /// earlier call of the model with the result's call id and name.
    pub fn steps(&self) -> (r: &[Step])
        ensures
            r@ == self.history(),
            results_answer_calls(r@),
    {
        proof {
            use_type_invariant(self);
        }
        self.steps.as_slice()
    }

    /// The model's function calls that still need a result, in call order:
    /// exactly the calls of the history that no result has answered.
    pub fn pending_calls(&self) -> (r: &[FunctionCall])
        ensures
            calls_view(r@) == self.waiting(),
            self.waiting() == unanswered(self.history()),
    {
        proof {
            use_type_invariant(self);
        }
        self.pending.as_slice()
    }

    /// Whether the next step belongs to the model: the history ends with the
    /// caller's step and no call is waiting.
    pub fn awaits_model(&self) -> (r: bool)
        ensures
            r == awaits(self.history(), self.waiting()),
    {
        if self.pending.len() != 0 {
            return false;
        }
        if self.steps.len() == 0 {
            return false;
        }
        match &self.steps[self.steps.len() - 1] {
            Step::UserInput(_) | Step::FunctionResult(_) => true,
            Step::Model(_) => false,
        }
    }

    /// The ids of the waiting calls.
    fn pending_ids(&self) -> (r: Vec<String>)
        ensures
            r@.len() == self.waiting().len(),
            forall|i: int| 0 <= i < r@.len() ==> #[trigger] r@[i]@ == self.waiting()[i].id,
    {
        let mut ids: Vec<String> = Vec::new();
        let mut i: usize = 0;
        while i < self.pending.len()
            invariant
                i <= self.pending@.len(),
                ids@.len() == i,
                forall|k: int| 0 <= k < i ==> #[trigger] ids@[k]@ == self.pending@[k].id@,
            decreases self.pending.len() - i,
        {
            ids.push(self.pending[i].id.clone());
            i = i + 1;
        }
        ids
    }

    /// Nothing when no call waits; otherwise the ids of the waiting calls.
    fn refuse_pending(&self) -> (r: Result<(), ConversationError>)
        ensures
            match r {
                Ok(()) => self.waiting().len() == 0,
                Err(e) => self.waiting().len() > 0 && refused_for(e, self.waiting()),
            },
    {
        if self.pending.len() == 0 {
            Ok(())
        } else {
            Err(ConversationError::UnansweredCalls(self.pending_ids()))
        }
    }

    /// An empty conversation: no system instruction, no tools, no history.
    fn placeholder() -> (r: Self)
        ensures
            r.instruction() is None,
            r.declared() == Seq::<Tool>::empty(),
            r.history() == Seq::<Step>::empty(),
            r.waiting() == Seq::<FunctionCallV>::empty(),
    {
        let tools: Vec<Tool> = Vec::new();
        let steps: Vec<Step> = Vec::new();
        let pending: Vec<FunctionCall> = Vec::new();
        proof {
            assert(calls_view(pending@) =~= Seq::<FunctionCallV>::empty());
            assert(unanswered(steps@) == Seq::<FunctionCallV>::empty());
        }
        Conversation { system_instruction: None, tools, steps, pending }
    }

    /// Append what the user says.
    ///
    /// Refused, with the ids of the waiting calls, while a call has no result.
    pub fn push_user(&mut self, content: Vec<InputContent>) -> (r: Result<(), ConversationError>)
        ensures
            old(self).waiting().len() == 0 <==> r is Ok,
            r is Ok ==> {
                &&& final(self).instruction() == old(self).instruction()
                &&& final(self).declared() == old(self).declared()
                &&& final(self).history() == old(self).history().push(Step::UserInput(UserInput { content }))
                &&& final(self).waiting() == old(self).waiting()
            },
            r matches Err(e) ==> *final(self) == *old(self) && refused_for(e, old(self).waiting()),
    {
        proof {
            use_type_invariant(&*self);
        }
        self.refuse_pending()?;
        let mut taken = Conversation::placeholder();
        std::mem::swap(self, &mut taken);
        let Conversation { system_instruction, tools, mut steps, pending } = taken;
        let ghost s0 = steps@;
        let step = Step::UserInput(UserInput { content });
        steps.push(step);
        proof {
            assert(steps@.drop_last() == old(self).history());
            lemma_answers_push(s0, step);
        }
        *self = Conversation { system_instruction, tools, steps, pending };
        Ok(())
    }

    /// Append a user message of plain text.
    pub fn push_user_text(&mut self, text: &str) -> (r: Result<(), ConversationError>)
        ensures
            old(self).waiting().len() == 0 <==> r is Ok,
            r is Ok ==> {
                &&& final(self).instruction() == old(self).instruction()
                &&& final(self).declared() == old(self).declared()
                &&& final(self).history().len() == old(self).history().len() + 1
                &&& final(self).history().drop_last() == old(self).history()
                &&& (final(self).history().last() matches Step::UserInput(u) && (u.content@.len() == 1
                    && (u.content@[0] matches InputContent::Text(t) && t@ == text@)))
                &&& final(self).waiting() == old(self).waiting()
            },
            r matches Err(e) ==> *final(self) == *old(self) && refused_for(e, old(self).waiting()),
    {
        let block = InputContent::text(text);
        let content = vec![block];
        self.push_user(content)
    }

    /// Append the model's turn, every step exactly as received.
    ///
    /// Its function calls become pending until each has a result. Refused,
    /// with the waiting calls' ids, while a call has no result; a model turn
    /// may follow a model turn.
    pub fn push_turn(&mut self, turn: Turn) -> (r: Result<(), ConversationError>)
        ensures
            old(self).waiting().len() == 0 <==> r is Ok,
            r is Ok ==> {
                &&& final(self).instruction() == old(self).instruction()
                &&& final(self).declared() == old(self).declared()
                &&& final(self).history() == old(self).history() + as_history(turn.steps@)
                &&& final(self).waiting() == calls_view(calls_in(turn.steps@))
            },
            r matches Err(e) ==> *final(self) == *old(self) && refused_for(e, old(self).waiting()),
    {
        self.push_model_steps(turn.steps)
    }

    /// Append decoded model steps, every step exactly as decoded, under the
    /// same rule as [`Conversation::push_turn`].
    ///
    /// Their function calls become pending until each has a result. Refused,
    /// with the waiting calls' ids, while a call has no result.
    pub fn push_model_steps(&mut self, model_steps: Vec<ModelStep>) -> (r: Result<(), ConversationError>)
        ensures
            old(self).waiting().len() == 0 <==> r is Ok,
            r is Ok ==> {
                &&& final(self).instruction() == old(self).instruction()
                &&& final(self).declared() == old(self).declared()
                &&& final(self).history() == old(self).history() + as_history(model_steps@)
                &&& final(self).waiting() == calls_view(calls_in(model_steps@))
            },
            r matches Err(e) ==> *final(self) == *old(self) && refused_for(e, old(self).waiting()),
    {
        proof {
            use_type_invariant(&*self);
        }
        self.refuse_pending()?;
        let mut taken = Conversation::placeholder();
        std::mem::swap(self, &mut taken);
        let Conversation { system_instruction, tools, mut steps, mut pending } = taken;
        let ghost steps0 = steps@;
        let ghost pending0 = calls_view(pending@);
        let ghost incoming = model_steps@;
        let n = model_steps.len();
        let mut rest = model_steps;
        let mut k: usize = 0;
        while rest.len() > 0
            invariant
                k + rest@.len() == incoming.len(),
                incoming.len() == n,
                rest@ == incoming.skip(k as int),
                steps@ == steps0 + as_history(incoming.take(k as int)),
                calls_view(pending@) == pending0 + calls_view(calls_in(incoming.take(k as int))),
                calls_view(pending@) == unanswered(steps@),
                results_answer_calls(steps@),
            decreases rest.len(),
        {
            let step = rest.remove(0);
            proof {
                assert(incoming.take(k as int + 1).drop_last() == incoming.take(k as int));
                assert(incoming[k as int] == step);
            }
            let ghost p0 = pending@;
            if let Some(call) = step.as_function_call() {
                pending.push(call.clone());
                proof {
                    assert(calls_view(pending@) =~= calls_view(p0).push(call@));
                }
            } else {
                proof {
                    assert(calls_view(pending@) =~= calls_view(p0));
                }
            }
            let ghost s0 = steps@;
            steps.push(Step::Model(step));
            proof {
                assert(steps@.drop_last() == s0);
                lemma_answers_push(s0, Step::Model(step));
                assert(incoming.take(k as int + 1).last() == step);
                assert(as_history(incoming.take(k as int + 1)) =~= as_history(incoming.take(k as int)).push(Step::Model(step)));
                assert(rest@ =~= incoming.skip(k as int + 1));
                assert(calls_view(pending@) =~= pending0 + calls_view(calls_in(incoming.take(k as int + 1))));
            }
            k = k + 1;
        }
        proof {
            assert(incoming.take(k as int) == incoming);
            assert(pending0 =~= Seq::<FunctionCallV>::empty());
            assert(pending0 + calls_view(calls_in(incoming)) =~= calls_view(calls_in(incoming)));
        }
        *self = Conversation { system_instruction, tools, steps, pending };
        Ok(())
    }

    /// Answer one pending function call: the first waiting call with this id.
    ///
    /// Refused with `UnknownCall` when no waiting call has the id.
    pub fn push_function_result(&mut self, call_id: &str, output: FunctionOutput, is_error: bool) -> (r: Result<
        (),
        ConversationError,
    >)
        ensures
            first_with_id(old(self).waiting(), call_id@) is Some <==> r is Ok,
            r is Ok ==> {
                &&& final(self).instruction() == old(self).instruction()
                &&& final(self).declared() == old(self).declared()
                &&& final(self).history().len() == old(self).history().len() + 1
                &&& final(self).history().drop_last() == old(self).history()
                &&& final(self).history().last() matches Step::FunctionResult(res) && res.answered_id() == call_id@
                    && res.answered_name() == old(self).waiting()[first_with_id(
                    old(self).waiting(),
                    call_id@,
                )->0].name && res.returned() == output && res.failed() == is_error
                &&& final(self).waiting() == answer(old(self).waiting(), call_id@)
            },
            r matches Err(e) ==> *final(self) == *old(self) && (e matches ConversationError::UnknownCall(id) && id@
                == call_id@),
    {
        proof {
            use_type_invariant(&*self);
            lemma_first_with_id(self.waiting(), call_id@);
        }
        let mut at: usize = 0;
        while at < self.pending.len()
            invariant
                at <= self.pending@.len(),
                forall|j: int| 0 <= j < at ==> #[trigger] self.pending@[j].id@ != call_id@,
            ensures
                at <= self.pending@.len(),
                forall|j: int| 0 <= j < at ==> #[trigger] self.pending@[j].id@ != call_id@,
                at < self.pending@.len() ==> self.pending@[at as int].id@ == call_id@,
            decreases self.pending.len() - at,
        {
            if same_text(self.pending[at].id.as_str(), call_id) {
                break;
            }
            at = at + 1;
        }
        if at == self.pending.len() {
            proof {
                match first_with_id(self.waiting(), call_id@) {
                    Some(i) => assert(self.pending@[i].id@ != call_id@),
                    None => {},
                }
            }
            return Err(ConversationError::UnknownCall(call_id.to_owned()));
        }
        let ghost w = self.waiting();
        proof {
            lemma_first_with_id(self.waiting(), call_id@);
            match first_with_id(self.waiting(), call_id@) {
                Some(i) => {
                    if i < at {
                        assert(self.pending@[i].id@ != call_id@);
                    } else if i > at {
                        assert(self.waiting()[at as int].id != call_id@);
                    }
                },
                None => assert(self.waiting()[at as int].id != call_id@),
            }
            assert(first_with_id(w, call_id@) == Some(at as int));
        }
        let mut taken = Conversation::placeholder();
        std::mem::swap(self, &mut taken);
        let Conversation { system_instruction, tools, mut steps, mut pending } = taken;
        let ghost pending0 = pending@;
        let call = pending.remove(at);
        let ghost s0 = steps@;
        let result = FunctionResult::new(&call, output, is_error);
        steps.push(Step::FunctionResult(result));
        proof {
            assert(calls_view(pending0) == w);
            assert(first_with_id(w, call_id@) == Some(at as int));
            assert(steps@.drop_last() == s0);
            assert(steps@.last() == Step::FunctionResult(result));
            assert(calls_view(pending@) =~= calls_view(pending0).remove(at as int));
            assert(unanswered(steps@) == answer(unanswered(s0), call_id@));
            lemma_unanswered_called(s0, at as int);
            let i = choose|i: int| 0 <= i < s0.len() && #[trigger] calls_with(s0[i], w[at as int].id, w[at as int].name);
            assert(calls_view(pending0)[at as int] == call@);
            assert(steps@[i] == s0[i]);
            assert(calls_with(steps@[i], result.answered_id(), result.answered_name()));
            assert forall|j: int| 0 <= j < steps@.len() && #[trigger] steps@[j] is FunctionResult implies exists|i2: int|
                0 <= i2 < j && #[trigger] calls_with(steps@[i2], steps@[j]->FunctionResult_0.answered_id(), steps@[j]->FunctionResult_0.answered_name()) by {
                if j < s0.len() {
                    assert(steps@[j] == s0[j]);
                    let i2 = choose|i2: int|
                        0 <= i2 < j && #[trigger] calls_with(
                            s0[i2],
                            s0[j]->FunctionResult_0.answered_id(),
                            s0[j]->FunctionResult_0.answered_name(),
                        );
                    assert(steps@[i2] == s0[i2]);
                } else {
                    assert(steps@[j] == Step::FunctionResult(result));
                }
            }
        }
        *self = Conversation { system_instruction, tools, steps, pending };
        Ok(())
    }

    /// A restriction to named tools of this conversation, checked by name.
    ///
    /// Refused with the first name that no declared tool has.
    pub fn allow_tools(&self, mode: ToolChoiceMode, names: &[&str]) -> (r: Result<AllowedTools, ConversationError>)
        ensures
            match r {
                Ok(a) => {
                    &&& forall|i: int| 0 <= i < names@.len() ==> #[trigger] declares(self.declared(), names@[i]@)
                    &&& a.restriction_mode() == mode
                    &&& a.names().len() == names@.len()
                    &&& forall|i: int| 0 <= i < names@.len() ==> #[trigger] a.names()[i]@ == names@[i]@
                },
                Err(e) => exists|j: int|
                    {
                        &&& 0 <= j < names@.len()
                        &&& !declares(self.declared(), names@[j]@)
                        &&& forall|k: int| 0 <= k < j ==> #[trigger] declares(self.declared(), names@[k]@)
                        &&& e matches ConversationError::UnknownTool(n) && n@ == names@[j]@
                    },
            },
    {
        let mut allowed: Vec<String> = Vec::new();
        let mut j: usize = 0;
        while j < names.len()
            invariant
                j <= names@.len(),
                allowed@.len() == j,
                forall|k: int| 0 <= k < j ==> #[trigger] declares(self.declared(), names@[k]@),
                forall|k: int| 0 <= k < j ==> #[trigger] allowed@[k]@ == names@[k]@,
            decreases names.len() - j,
        {
            let name = names[j];
            let mut found = false;
            let mut i: usize = 0;
            while i < self.tools.len()
                invariant
                    i <= self.tools@.len(),
                    found ==> declares(self.declared(), name@),
                    !found ==> forall|k: int| 0 <= k < i ==> #[trigger] tool_name(self.tools@[k]) != Some(name@),
                decreases self.tools.len() - i,
            {
                if let Some(n) = self.tools[i].name() {
                    if same_text(n, name) {
                        found = true;
                    }
                }
                i = i + 1;
            }
            if !found {
                return Err(ConversationError::UnknownTool(name.to_owned()));
            }
            allowed.push(name.to_owned());
            j = j + 1;
        }
        Ok(AllowedTools::unchecked(mode, allowed))
    }
}

/// Whether a tool of these is named `name`.
pub open spec fn declares(tools: Seq<Tool>, name: Seq<char>) -> bool {
    exists|i: int| 0 <= i < tools.len() && #[trigger] tool_name(tools[i]) == Some(name)
}

/// Whether `e` refuses a change because of these waiting calls, naming their ids.
pub open spec fn refused_for(e: ConversationError, waiting: Seq<FunctionCallV>) -> bool {
    e matches ConversationError::UnansweredCalls(ids) && ids@.len() == waiting.len() && forall|i: int|
        0 <= i < ids@.len() ==> #[trigger] ids@[i]@ == waiting[i].id
}

} // verus!
