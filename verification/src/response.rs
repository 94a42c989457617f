//! A buffered (`stream: false`) response body.

use vstd::prelude::*;

use crate::json::{
    field_of, get_member, group_json_view, json_reading, members_view, optional_string, read_json,
    read_optional_string, take_member, Json, JsonV, Member, MemberV,
};
use crate::settle::{pending, status_wire};
use crate::step::{step_view_of, ModelStep, StepError};
use crate::stream::{opt_text, read_usage_member, usage_member};
use crate::turn::Turn;
use crate::usage::{zero_usage, Usage, UsageV};
use crate::values::{KnownStatus, Status, StatusV};

verus! {

broadcast use group_json_view;

/// Why a buffered body did not become a turn.
#[derive(Debug, Clone, PartialEq)]
pub enum ResponseError {
    /// The body is not the interaction object.
    Body(String),
    /// A step contradicts the schema.
    Step(StepError),
    /// The interaction has not reached a final status.
    NotFinal(String),
}

/// Why a buffered body did not become a turn, without the free-text details.
pub enum ResponseFailure {
    Body,
    Step,
    NotFinal(Seq<char>),
}

/// Whether a response error is this refusal.
pub open spec fn response_error_is(e: ResponseError, f: ResponseFailure) -> bool {
    match (e, f) {
        (ResponseError::Body(_), ResponseFailure::Body) => true,
        (ResponseError::Step(_), ResponseFailure::Step) => true,
        (ResponseError::NotFinal(a), ResponseFailure::NotFinal(b)) => a@ == b,
        _ => false,
    }
}

/// What an interaction object carries: its status, its step objects, and
/// its optional usage, model and tier.
pub struct InteractionV {
    pub status: StatusV,
    pub steps: Seq<Seq<MemberV>>,
    pub usage: Option<UsageV>,
    pub model: Option<Seq<char>>,
    pub service_tier: Option<Seq<char>>,
}

/// The members of an object, none for anything else.
pub open spec fn object_members(j: JsonV) -> Seq<MemberV> {
    match j {
        JsonV::Object(m) => m,
        _ => Seq::empty(),
    }
}

/// The step objects of the `steps` member: none when it is absent, `None`
/// when it is not an array of objects.
pub open spec fn steps_member(m: Seq<MemberV>) -> Option<Seq<Seq<MemberV>>> {
    match field_of(m, "steps"@) {
        None => Some(Seq::empty()),
        Some(JsonV::Array(items)) => if forall|i: int| 0 <= i < items.len() ==> #[trigger] items[i] is Object {
            Some(items.map_values(|j: JsonV| object_members(j)))
        } else {
            None
        },
        _ => None,
    }
}

/// What an interaction object says: a string `status`, `steps` an array of
/// objects (none when absent), and an optional usage object, `model` and
/// `service_tier`. `None` when a field has the wrong shape.
pub open spec fn interaction_of(j: JsonV) -> Option<InteractionV> {
    match j {
        JsonV::Object(m) => match (
            field_of(m, "status"@),
            steps_member(m),
            usage_member(m, "usage"@),
            optional_string(field_of(m, "model"@)),
            optional_string(field_of(m, "service_tier"@)),
        ) {
            (Some(JsonV::Str(status)), Some(steps), Some(usage), Some(model), Some(service_tier)) => Some(
                InteractionV { status: Status::decode(status), steps, usage, model, service_tier },
            ),
            _ => None,
        },
        _ => None,
    }
}

/// What becomes of a decoded body: refused when it is not an interaction
/// object, when its status is not final, or when a step is not a model
/// step, in that order.
pub open spec fn interaction_outcome(j: JsonV) -> Result<InteractionV, ResponseFailure> {
    match interaction_of(j) {
        None => Err(ResponseFailure::Body),
        Some(w) => if pending(w.status) {
            Err(ResponseFailure::NotFinal(status_wire(w.status)))
        } else if exists|i: int| 0 <= i < w.steps.len() && step_view_of(#[trigger] w.steps[i]) is None {
            Err(ResponseFailure::Step)
        } else {
            Ok(w)
        },
    }
}

/// What becomes of a body text: refused when it is not JSON, else as its value.
pub open spec fn body_outcome(body: Seq<char>) -> Result<InteractionV, ResponseFailure> {
    match json_reading(body) {
        Ok(j) => interaction_outcome(j),
        Err(_) => Err(ResponseFailure::Body),
    }
}

/// Whether a turn is what an interaction says: its status, model and tier,
/// its usage (zero when absent), and its steps' objects in order.
pub open spec fn turn_of(turn: Turn, w: InteractionV) -> bool {
    &&& turn.status@ == w.status
    &&& turn.usage@ == match w.usage {
        Some(u) => u,
        None => zero_usage(),
    }
    &&& opt_text(turn.model) == w.model
    &&& opt_text(turn.service_tier) == w.service_tier
    &&& turn.steps@.len() == w.steps.len()
    &&& forall|i: int| 0 <= i < w.steps.len() ==> members_view(#[trigger] turn.steps@[i].members()) == w.steps[i]
}

/// The step objects of the `steps` member.
fn read_steps(m: &mut Vec<Member>) -> (r: Option<Vec<Vec<Member>>>)
    ensures
        match r {
            Some(steps) => steps_member(members_view(old(m)@)) == Some(
                steps@.map_values(|s: Vec<Member>| members_view(s@)),
            ),
            None => steps_member(members_view(old(m)@)) is None,
        },
{
    let items = match take_member(m, "steps") {
        None => {
            let none: Vec<Vec<Member>> = Vec::new();
            proof {
                assert(none@.map_values(|s: Vec<Member>| members_view(s@)) =~= Seq::<Seq<MemberV>>::empty());
            }
            return Some(none);
        },
        Some(Json::Array(items)) => items,
        Some(_) => return None,
    };
    let ghost all = items@;
    let ghost view = crate::json::items_view(all);
    let mut rest = items;
    let mut out: Vec<Vec<Member>> = Vec::new();
    while rest.len() > 0
        invariant
            out@.len() <= all.len(),
            view == crate::json::items_view(all),
            field_of(members_view(old(m)@), "steps"@) == Some(JsonV::Array(view)),
            view.len() == all.len(),
            rest@ =~= all.skip(out@.len() as int),
            forall|i: int| 0 <= i < out@.len() ==> #[trigger] view[i] is Object,
            forall|i: int| 0 <= i < out@.len() ==> members_view(#[trigger] out@[i]@) == object_members(view[i]),
        decreases rest.len(),
    {
        let k = out.len();
        let ghost item = rest@[0];
        proof {
            crate::json::lemma_items_view(all);
            assert(item == all[k as int]);
            assert(crate::json::items_view(all)[k as int] == item@);
        }
        let x = rest.remove(0);
        match x {
            Json::Object(step) => {
                out.push(step);
            },
            _ => {
                assert(!(x@ is Object));
                assert(!(view[k as int] is Object));
                return None;
            },
        }
    }
    proof {
        assert(out@.map_values(|s: Vec<Member>| members_view(s@)) =~= view.map_values(
            |j: JsonV| object_members(j),
        ));
    }
    Some(out)
}

/// Decode the value of a successful buffered request's body.
pub fn decode_interaction_value(value: Json) -> (r: Result<Turn, ResponseError>)
    ensures
        match r {
            Ok(turn) => interaction_outcome(value@) matches Ok(w) && turn_of(turn, w),
            Err(e) => interaction_outcome(value@) matches Err(f) && response_error_is(e, f),
        },
{
    let mut m = match value {
        Json::Object(m) => m,
        _ => return Err(ResponseError::Body("the body is not an object".to_owned())),
    };
    let ghost whole = members_view(m@);
    let status = match get_member(&m, "status") {
        Some(Json::Str(s)) => Status::from_string(s.clone()),
        _ => return Err(ResponseError::Body("no string `status`".to_owned())),
    };
    let usage = match read_usage_member(&m, "usage") {
        Some(u) => u,
        None => return Err(ResponseError::Body("`usage` is not a usage object".to_owned())),
    };
    let model = match read_optional_string(&m, "model") {
        Some(s) => s,
        None => return Err(ResponseError::Body("`model` is not a string".to_owned())),
    };
    let service_tier = match read_optional_string(&m, "service_tier") {
        Some(s) => s,
        None => return Err(ResponseError::Body("`service_tier` is not a string".to_owned())),
    };
    let wires = match read_steps(&mut m) {
        Some(w) => w,
        None => return Err(ResponseError::Body("`steps` is not an array of objects".to_owned())),
    };
    let ghost w = interaction_of(value@)->Some_0;
    assert(w.steps == wires@.map_values(|s: Vec<Member>| members_view(s@)));
    if status.is(KnownStatus::InProgress) || status.is(KnownStatus::Queued) {
        return Err(ResponseError::NotFinal(status.as_str().to_owned()));
    }
    let ghost all = wires@;
    let n = wires.len();
    let mut rest = wires;
    let mut steps: Vec<ModelStep> = Vec::new();
    while rest.len() > 0
        invariant
            steps@.len() <= n,
            all.len() == n,
            w.steps.len() == n,
            interaction_of(value@) == Some(w),
            !pending(w.status),
            rest@ =~= all.skip(steps@.len() as int),
            forall|i: int| 0 <= i < n ==> #[trigger] w.steps[i] == members_view(all[i]@),
            forall|i: int| 0 <= i < steps@.len() ==> members_view(#[trigger] steps@[i].members()) == w.steps[i],
            forall|i: int| 0 <= i < steps@.len() ==> step_view_of(#[trigger] w.steps[i]) is Some,
        decreases rest.len(),
    {
        let k = steps.len();
        let ghost item = rest@[0];
        assert(item == all[k as int]);
        match ModelStep::from_wire(rest.remove(0)) {
            Ok(step) => {
                steps.push(step);
            },
            Err(e) => {
                assert(step_view_of(w.steps[k as int]) is None);
                assert(!pending(w.status));
                assert(interaction_of(value@) == Some(w));
                return Err(ResponseError::Step(e));
            },
        }
    }
    let usage = match usage {
        Some(u) => u,
        None => Usage::new(),
    };
    Ok(Turn { steps, status, usage, model, service_tier })
}

/// Decode the body of a successful buffered request.
pub fn decode_interaction(body: &str) -> (r: Result<Turn, ResponseError>)
    ensures
        match r {
            Ok(turn) => body_outcome(body@) matches Ok(w) && turn_of(turn, w),
            Err(e) => body_outcome(body@) matches Err(f) && response_error_is(e, f),
        },
{
    match read_json(body) {
        Ok(value) => decode_interaction_value(value),
        Err(detail) => Err(ResponseError::Body(detail)),
    }
}

} // verus!
