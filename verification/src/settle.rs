//! A stream becomes a finished turn, or does not.
//!
//! [`Settling`] accumulates events and cannot yield a turn; [`Turn`] is
//! finished and cannot take more events; [`Settling::settle`] is the only
//! bridge, and it fails on a stream that never reached a final status. So a
//! stream cut off halfway is not readable as an answer.
//!
//! Each step is rebuilt into the same JSON object the buffered endpoint
//! returns for it, which is what replay sends back: a thought gets its
//! `signature` and `summary`, a function call its `arguments` object parsed
//! from the concatenated argument text, model output its `content` blocks, and
//! a server-side tool step the fields of its payload delta.
//!
//! Open and closed steps are kept by index in increasing order, so the
//! finished turn lists its steps by index.

use vstd::prelude::*;

use crate::error::{ApiError, ApiErrorV};
use crate::frame::{data_payload, payload_of, FrameError};
use crate::json::{
    field_of, find_key, lemma_find_key_at, get_str, get_string, group_json_view, items_view, json_reading, lemma_find,
    lemma_find_view, lemma_items_view_add, lemma_members_view_update, members_view, member,
    position, push_field, push_str, read_json, set_key, set_member, str_field, Json, JsonV, Member, MemberV,
};
use crate::step::{step_view_of, ModelStep, StepError};
use crate::stream::{
    frame_error_is, payload_event, Delta, DeltaV, FrameFailure, Snapshot, SnapshotV, StreamEvent, StreamEventV,
};
use crate::text::same_text;
use crate::turn::Turn;
use crate::usage::{join_usage, lemma_join_usage_upper_bound, usage_le, zero_usage, Usage, UsageV};
use crate::values::{KnownStatus, StatusV};

verus! {

broadcast use group_json_view;

/// Why a stream did not become a turn.
#[derive(Debug, Clone, PartialEq)]
pub enum SettleError {
    /// A frame contradicts the schema.
    Frame(FrameError),
    /// The API failed the interaction.
    Api(ApiError),
    /// An event names a step that has not started, or already stopped.
    UnknownStep(u32),
    /// A step started twice.
    DuplicateStep(u32),
    /// A function call's concatenated arguments are not a JSON object.
    Arguments {
        /// Which step.
        index: u32,
        /// What the parser said.
        detail: String,
    },
    /// A finished step contradicts the schema.
    Step(StepError),
    /// `interaction.completed` reported a status that is not final.
    NotFinal(String),
    /// The stream ended before `interaction.completed`.
    Truncated,
    /// Events arrived after the interaction completed.
    AfterCompletion,
}

impl vstd::std_specs::convert::FromSpecImpl<FrameError> for SettleError {
    open spec fn obeys_from_spec() -> bool {
        true
    }

    open spec fn from_spec(v: FrameError) -> Self {
        SettleError::Frame(v)
    }
}

impl From<FrameError> for SettleError {
    fn from(e: FrameError) -> (r: Self) {
        SettleError::Frame(e)
    }
}

/// Why a stream did not become a turn, without the free-text details.
pub enum SettleFailure {
    Frame(FrameFailure),
    Api(ApiErrorV),
    UnknownStep(u32),
    DuplicateStep(u32),
    Arguments(u32),
    Step,
    NotFinal(Seq<char>),
    Truncated,
    AfterCompletion,
}

/// Whether a settle error is this refusal.
pub open spec fn settle_error_is(e: SettleError, f: SettleFailure) -> bool {
    match (e, f) {
        (SettleError::Frame(a), SettleFailure::Frame(b)) => frame_error_is(a, b),
        (SettleError::Api(a), SettleFailure::Api(b)) => a@ == b,
        (SettleError::UnknownStep(a), SettleFailure::UnknownStep(b)) => a == b,
        (SettleError::DuplicateStep(a), SettleFailure::DuplicateStep(b)) => a == b,
        (SettleError::Arguments { index, .. }, SettleFailure::Arguments(b)) => index == b,
        (SettleError::Step(_), SettleFailure::Step) => true,
        (SettleError::NotFinal(a), SettleFailure::NotFinal(b)) => a@ == b,
        (SettleError::Truncated, SettleFailure::Truncated) => true,
        (SettleError::AfterCompletion, SettleFailure::AfterCompletion) => true,
        _ => false,
    }
}

/// Whether an outcome is the accepted or refused one the model gives.
pub open spec fn outcome_is(r: Result<(), SettleError>, o: Option<SettleFailure>) -> bool {
    match (r, o) {
        (Ok(_), None) => true,
        (Err(e), Some(f)) => settle_error_is(e, f),
        _ => false,
    }
}

// ---------------------------------------------------------------------------
// Growing one step

/// The blocks under `key`: its array, or none when it holds anything else.
pub open spec fn blocks_in(wire: Seq<MemberV>, key: Seq<char>) -> Seq<JsonV> {
    match field_of(wire, key) {
        Some(JsonV::Array(items)) => items,
        _ => Seq::empty(),
    }
}

/// Whether a block is an object whose `type` is `text`.
pub open spec fn is_text_block(b: JsonV) -> bool {
    b matches JsonV::Object(m) && get_str(m, "type"@) == Some("text"@)
}

/// The text of a text block: its string `text`, or nothing.
pub open spec fn text_in(m: Seq<MemberV>) -> Seq<char> {
    match get_str(m, "text"@) {
        Some(s) => s,
        None => Seq::empty(),
    }
}

/// A fresh text block, its members in key order.
pub open spec fn text_block(t: Seq<char>) -> JsonV {
    JsonV::Object(seq![str_field("text"@, t), str_field("type"@, "text"@)])
}

/// More text: appended to the last block when it is a text block, else a
/// new text block after the others.
pub open spec fn grow_text(c: Seq<JsonV>, t: Seq<char>) -> Seq<JsonV> {
    if c.len() > 0 && is_text_block(c.last()) {
        match c.last() {
            JsonV::Object(m) => c.drop_last().push(JsonV::Object(set_key(m, "text"@, JsonV::Str(text_in(m) + t)))),
            _ => c,
        }
    } else {
        c.push(text_block(t))
    }
}

/// Citations for the last block when it is a text block: added after its
/// `annotations`, which they start when it has none. Nothing changes when
/// there is no such block or its `annotations` is not an array.
pub open spec fn annotate(c: Seq<JsonV>, items: Seq<JsonV>) -> Seq<JsonV> {
    if c.len() > 0 && is_text_block(c.last()) {
        match c.last() {
            JsonV::Object(m) => match field_of(m, "annotations"@) {
                None => c.drop_last().push(JsonV::Object(set_key(m, "annotations"@, JsonV::Array(items)))),
                Some(JsonV::Array(l)) => c.drop_last().push(
                    JsonV::Object(set_key(m, "annotations"@, JsonV::Array(l + items))),
                ),
                Some(_) => c,
            },
            _ => c,
        }
    } else {
        c
    }
}

/// `fields` set one after the other on `wire`.
pub open spec fn merge(wire: Seq<MemberV>, fields: Seq<MemberV>) -> Seq<MemberV>
    decreases fields.len(),
{
    if fields.len() == 0 {
        wire
    } else {
        set_key(merge(wire, fields.drop_last()), fields.last().key, fields.last().value)
    }
}

/// A step being accumulated: its object so far, and the argument text of a
/// function call.
pub struct OpenV {
    pub wire: Seq<MemberV>,
    pub arguments: Seq<char>,
}

/// Deltas applied to an open step one after another, in arrival order.
pub open spec fn apply_deltas(o: OpenV, ds: Seq<DeltaV>) -> OpenV
    decreases ds.len(),
{
    if ds.len() == 0 {
        o
    } else {
        apply_delta(apply_deltas(o, ds.drop_last()), ds.last())
    }
}

/// A summary delta adds its block after the step's summary blocks, which
/// stay as they were.
pub proof fn lemma_summary_appends(o: OpenV, b: JsonV)
    ensures
        field_of(apply_delta(o, DeltaV::ThoughtSummary(b)).wire, "summary"@) == Some(
            JsonV::Array(blocks_in(o.wire, "summary"@).push(b)),
        ),
        blocks_in(apply_delta(o, DeltaV::ThoughtSummary(b)).wire, "summary"@).len() == blocks_in(
            o.wire,
            "summary"@,
        ).len() + 1,
{
    lemma_set_key(o.wire, "summary"@, JsonV::Array(blocks_in(o.wire, "summary"@).push(b)), JsonV::Null);
}

/// Summary deltas in a row leave one block each, in arrival order, after the
/// step's earlier summary blocks.
pub proof fn lemma_summaries_in_order(o: OpenV, bs: Seq<JsonV>)
    ensures
        blocks_in(apply_deltas(o, bs.map_values(|b: JsonV| DeltaV::ThoughtSummary(b))).wire, "summary"@)
            == blocks_in(o.wire, "summary"@) + bs,
    decreases bs.len(),
{
    let ds = bs.map_values(|b: JsonV| DeltaV::ThoughtSummary(b));
    if bs.len() == 0 {
        assert(ds.len() == 0);
        assert(blocks_in(o.wire, "summary"@) + bs =~= blocks_in(o.wire, "summary"@));
    } else {
        let rest = bs.drop_last();
        lemma_summaries_in_order(o, rest);
        assert(ds.drop_last() =~= rest.map_values(|b: JsonV| DeltaV::ThoughtSummary(b)));
        assert(ds.last() == DeltaV::ThoughtSummary(bs.last()));
        let before = apply_deltas(o, ds.drop_last());
        lemma_summary_appends(before, bs.last());
        assert(blocks_in(o.wire, "summary"@) + bs =~= (blocks_in(o.wire, "summary"@) + rest).push(bs.last()));
    }
}

/// What one delta makes of an open step. `content` and `summary` are made
/// arrays first when they are anything else.
pub open spec fn apply_delta(o: OpenV, d: DeltaV) -> OpenV {
    match d {
        DeltaV::Text(t) => OpenV {
            wire: set_key(o.wire, "content"@, JsonV::Array(grow_text(blocks_in(o.wire, "content"@), t))),
            arguments: o.arguments,
        },
        DeltaV::TextAnnotations(items) => OpenV {
            wire: set_key(o.wire, "content"@, JsonV::Array(annotate(blocks_in(o.wire, "content"@), items))),
            arguments: o.arguments,
        },
        DeltaV::ThoughtSignature(s) => OpenV {
            wire: set_key(o.wire, "signature"@, JsonV::Str(s)),
            arguments: o.arguments,
        },
        DeltaV::ThoughtSummary(b) => OpenV {
            wire: set_key(o.wire, "summary"@, JsonV::Array(blocks_in(o.wire, "summary"@).push(b))),
            arguments: o.arguments,
        },
        DeltaV::Arguments(t) => OpenV { wire: o.wire, arguments: o.arguments + t },
        DeltaV::Media(b) => OpenV {
            wire: set_key(o.wire, "content"@, JsonV::Array(blocks_in(o.wire, "content"@).push(b))),
            arguments: o.arguments,
        },
        DeltaV::Payload(fields) => OpenV { wire: merge(o.wire, fields), arguments: o.arguments },
        DeltaV::Unrecognized(_) => o,
    }
}

/// The object a step closes as: with its `arguments` object when it has
/// argument text, which must be a JSON object; and it must be a model step.
pub open spec fn closed_wire(o: OpenV, index: u32) -> Result<Seq<MemberV>, SettleFailure> {
    let wire = if o.arguments.len() == 0 {
        Ok(o.wire)
    } else {
        match json_reading(o.arguments) {
            Ok(JsonV::Object(a)) => Ok(set_key(o.wire, "arguments"@, JsonV::Object(a))),
            _ => Err(SettleFailure::Arguments(index)),
        }
    };
    match wire {
        Ok(w) => if step_view_of(w) is Some {
            Ok(w)
        } else {
            Err(SettleFailure::Step)
        },
        Err(f) => Err(f),
    }
}

/// Setting a key: reading it back gives the value, and setting it again
/// overrides the first setting.
proof fn lemma_set_key(m: Seq<MemberV>, key: Seq<char>, v: JsonV, w: JsonV)
    ensures
        field_of(set_key(m, key, v), key) == Some(v),
        set_key(set_key(m, key, v), key, w) == set_key(m, key, w),
{
    crate::json::lemma_find_key(m, key);
    match find_key(m, key) {
        Some(i) => {
            let m2 = m.update(i, crate::json::field(key, v));
            lemma_find_key_at(m2, key, i);
            assert(m2.update(i, crate::json::field(key, w)) =~= m.update(i, crate::json::field(key, w)));
        },
        None => {
            let p = crate::json::key_rank(m, key);
            crate::json::lemma_key_rank(m, key);
            let m2 = m.insert(p, crate::json::field(key, v));
            m.insert_ensures(p, crate::json::field(key, v));
            assert forall|j: int| 0 <= j < p implies #[trigger] m2[j].key != key by {
                assert(m2[j] == m[j]);
            }
            lemma_find_key_at(m2, key, p);
            assert(m2.update(p, crate::json::field(key, w)) =~= m.insert(p, crate::json::field(key, w)));
        },
    }
}

/// The blocks under `key`, taken out: `key` is left holding an empty array,
/// set where a new key goes when it had none.
fn take_blocks(wire: &mut Vec<Member>, key: &str) -> (r: Vec<Json>)
    ensures
        items_view(r@) == blocks_in(members_view(old(wire)@), key@),
        members_view(final(wire)@) == set_key(members_view(old(wire)@), key@, JsonV::Array(Seq::empty())),
{
    proof {
        lemma_find_view(wire@, key@);
        lemma_find(wire@, key@);
    }
    let empty: Vec<Json> = Vec::new();
    match position(wire, key) {
        Some(i) => {
            let ghost before = wire@;
            let m = wire.remove(i);
            let items = match m.value {
                Json::Array(items) => items,
                _ => Vec::new(),
            };
            let placeholder = member(key, Json::Array(empty));
            wire.insert(i, placeholder);
            proof {
                assert(wire@ =~= before.update(i as int, placeholder));
                lemma_members_view_update(before, i as int, placeholder);
            }
            items
        },
        None => {
            set_member(wire, key, Json::Array(empty));
            Vec::new()
        },
    }
}

/// Whether the members say `type` is `text`.
fn says_text(m: &Vec<Member>) -> (r: bool)
    ensures
        r == (get_str(members_view(m@), "type"@) == Some("text"@)),
{
    match get_string(m, "type") {
        Some(t) => same_text(t, "text"),
        None => false,
    }
}

/// Appends text to the last block when it is a text block, or adds one.
fn grow_text_blocks(blocks: &mut Vec<Json>, text: String)
    ensures
        items_view(final(blocks)@) == grow_text(items_view(old(blocks)@), text@),
{
    let ghost c = items_view(blocks@);
    if blocks.len() > 0 {
        let ghost before = blocks@;
        proof {
            assert(before.drop_last().push(before.last()) =~= before);
            assert(c == items_view(before.drop_last()).push(before.last()@));
        }
        let last = blocks.pop();
        proof {
            assert(blocks@ =~= before.drop_last());
        }
        match last {
            Some(Json::Object(mut m)) => {
                let ghost m0 = members_view(m@);
                assert(c.last() == JsonV::Object(m0));
                if says_text(&m) {
                    let mut joined = match get_string(&m, "text") {
                        Some(s) => s.to_owned(),
                        None => String::new(),
                    };
                    joined.append(text.as_str());
                    assert(joined@ == text_in(m0) + text@);
                    set_member(&mut m, "text", Json::Str(joined));
                    blocks.push(Json::Object(m));
                    assert(items_view(blocks@) == c.drop_last().push(
                        JsonV::Object(set_key(m0, "text"@, JsonV::Str(text_in(m0) + text@))),
                    ));
                    return;
                }
                blocks.push(Json::Object(m));
            },
            Some(other) => {
                blocks.push(other);
            },
            None => {},
        }
        assert(blocks@ =~= before);
    }
    let mut m: Vec<Member> = Vec::new();
    push_field(&mut m, "text", Json::Str(text));
    push_str(&mut m, "type", "text");
    assert(members_view(m@) =~= seq![str_field("text"@, text@), str_field("type"@, "text"@)]);
    blocks.push(Json::Object(m));
}

/// Adds citations to the last block when it is a text block.
fn annotate_blocks(blocks: &mut Vec<Json>, items: Vec<Json>)
    ensures
        items_view(final(blocks)@) == annotate(items_view(old(blocks)@), items_view(items@)),
{
    if blocks.len() == 0 {
        return;
    }
    let ghost before = blocks@;
    proof {
        assert(before.drop_last().push(before.last()) =~= before);
    }
    let last = blocks.pop();
    match last {
        Some(Json::Object(mut m)) => {
            if says_text(&m) {
                let ghost bm = m@;
                proof {
                    lemma_find_view(bm, "annotations"@);
                    lemma_find(bm, "annotations"@);
                }
                match position(&m, "annotations") {
                    None => {
                        set_member(&mut m, "annotations", Json::Array(items));
                    },
                    Some(i) => {
                        let slot = m.remove(i);
                        let Member { key, value } = slot;
                        match value {
                            Json::Array(mut list) => {
                                let ghost l0 = list@;
                                let mut more = items;
                                let ghost more0 = more@;
                                list.append(&mut more);
                                proof {
                                    lemma_items_view_add(l0, more0);
                                }
                                let joined = Member { key, value: Json::Array(list) };
                                m.insert(i, joined);
                                proof {
                                    assert(m@ =~= bm.update(i as int, joined));
                                    lemma_members_view_update(bm, i as int, joined);
                                }
                            },
                            other => {
                                let kept = Member { key, value: other };
                                m.insert(i, kept);
                                proof {
                                    assert(m@ =~= bm);
                                }
                            },
                        }
                    },
                }
            }
            blocks.push(Json::Object(m));
        },
        Some(other) => {
            blocks.push(other);
        },
        None => {},
    }
}

/// Sets `fields` one after the other on `wire`.
fn merge_members(wire: &mut Vec<Member>, fields: Vec<Member>)
    ensures
        members_view(final(wire)@) == merge(members_view(old(wire)@), members_view(fields@)),
{
    let ghost start = members_view(wire@);
    let ghost all = fields@;
    let n = fields.len();
    let mut rest = fields;
    let mut k: usize = 0;
    proof {
        assert(all.take(0) =~= Seq::<Member>::empty());
        assert(rest@ =~= all.skip(0));
    }
    while rest.len() > 0
        invariant
            k <= all.len(),
            all.len() == n,
            rest@.len() == all.len() - k,
            rest@ =~= all.skip(k as int),
            members_view(wire@) == merge(start, members_view(all.take(k as int))),
        decreases rest.len(),
    {
        let Member { key, value } = rest.remove(0);
        proof {
            assert(all.take(k as int + 1).drop_last() =~= all.take(k as int));
            assert(all.take(k as int + 1).last() == all[k as int]);
            let vs = members_view(all.take(k as int + 1));
            assert(vs.drop_last() == members_view(all.take(k as int)));
        }
        set_member(wire, key.as_str(), value);
        k = k + 1;
        proof {
            assert(rest@ =~= all.skip(k as int));
        }
    }
    proof {
        assert(all.take(k as int) =~= all);
    }
}

/// A step being accumulated.
#[derive(Debug)]
struct Open {
    wire: Vec<Member>,
    arguments: String,
}

impl View for Open {
    type V = OpenV;

    closed spec fn view(&self) -> OpenV {
        OpenV { wire: members_view(self.wire@), arguments: self.arguments@ }
    }
}

impl Open {
    /// Grows the step by one delta.
    fn apply(&mut self, delta: Delta)
        ensures
            final(self)@ == apply_delta(old(self)@, delta@),
    {
        let ghost w0 = members_view(self.wire@);
        match delta {
            Delta::Text(text) => {
                let mut blocks = take_blocks(&mut self.wire, "content");
                grow_text_blocks(&mut blocks, text);
                set_member(&mut self.wire, "content", Json::Array(blocks));
                proof {
                    lemma_set_key(w0, "content"@, JsonV::Array(Seq::empty()), JsonV::Array(items_view(blocks@)));
                }
            },
            Delta::TextAnnotations(items) => {
                let mut blocks = take_blocks(&mut self.wire, "content");
                annotate_blocks(&mut blocks, items);
                set_member(&mut self.wire, "content", Json::Array(blocks));
                proof {
                    lemma_set_key(w0, "content"@, JsonV::Array(Seq::empty()), JsonV::Array(items_view(blocks@)));
                }
            },
            Delta::ThoughtSignature(signature) => {
                set_member(&mut self.wire, "signature", Json::Str(signature));
            },
            Delta::ThoughtSummary(block) => {
                let mut blocks = take_blocks(&mut self.wire, "summary");
                blocks.push(block);
                set_member(&mut self.wire, "summary", Json::Array(blocks));
                proof {
                    lemma_set_key(w0, "summary"@, JsonV::Array(Seq::empty()), JsonV::Array(items_view(blocks@)));
                }
            },
            Delta::Arguments(text) => {
                self.arguments.append(text.as_str());
            },
            Delta::Media(block) => {
                let mut blocks = take_blocks(&mut self.wire, "content");
                blocks.push(block);
                set_member(&mut self.wire, "content", Json::Array(blocks));
                proof {
                    lemma_set_key(w0, "content"@, JsonV::Array(Seq::empty()), JsonV::Array(items_view(blocks@)));
                }
            },
            Delta::Payload(fields) => {
                merge_members(&mut self.wire, fields);
            },
            Delta::Unrecognized(_) => {},
        }
    }

    /// The finished step: its arguments parsed, then decoded as a model step.
    fn close(self, index: u32) -> (r: Result<ModelStep, SettleError>)
        ensures
            match r {
                Ok(step) => closed_wire(self@, index) == Ok::<Seq<MemberV>, SettleFailure>(
                    members_view(step.members()),
                ),
                Err(e) => closed_wire(self@, index) matches Err(f) && settle_error_is(e, f),
            },
    {
        let Open { mut wire, arguments } = self;
        proof {
            reveal_strlit("");
        }
        if !same_text(arguments.as_str(), "") {
            assert(arguments@.len() != 0) by {
                if arguments@.len() == 0 {
                    assert(arguments@ =~= ""@);
                }
            }
            match read_json(arguments.as_str()) {
                Ok(Json::Object(a)) => {
                    set_member(&mut wire, "arguments", Json::Object(a));
                },
                Ok(_) => {
                    return Err(SettleError::Arguments { index, detail: "the arguments are not a JSON object".to_owned() });
                },
                Err(detail) => {
                    return Err(SettleError::Arguments { index, detail });
                },
            }
        }
        match ModelStep::from_wire(wire) {
            Ok(step) => Ok(step),
            Err(e) => Err(SettleError::Step(e)),
        }
    }
}

// ---------------------------------------------------------------------------
// Steps by index

/// Whether the keys rise strictly.
pub open spec fn rising(keys: Seq<u32>) -> bool {
    forall|i: int, j: int| 0 <= i < j < keys.len() ==> keys[i] < keys[j]
}

/// How many of the keys are below `k`: where `k` goes among rising keys.
pub open spec fn rank(keys: Seq<u32>, k: u32) -> int
    decreases keys.len(),
{
    if keys.len() == 0 {
        0
    } else {
        rank(keys.drop_last(), k) + if keys.last() < k {
            1int
        } else {
            0int
        }
    }
}

/// The position of a key the keys hold.
pub open spec fn position_of(keys: Seq<u32>, k: u32) -> int {
    choose|i: int| 0 <= i < keys.len() && keys[i] == k
}

/// The indices of the open steps, in order.
pub open spec fn open_keys(open: Seq<(u32, OpenV)>) -> Seq<u32> {
    open.map_values(|p: (u32, OpenV)| p.0)
}

/// The indices of the closed steps, in order.
pub open spec fn closed_keys(closed: Seq<(u32, Seq<MemberV>)>) -> Seq<u32> {
    closed.map_values(|p: (u32, Seq<MemberV>)| p.0)
}

/// Among rising keys, those before `rank` are below `k` and the rest are not.
pub proof fn lemma_rank(keys: Seq<u32>, k: u32)
    requires
        rising(keys),
    ensures
        0 <= rank(keys, k) <= keys.len(),
        forall|j: int| 0 <= j < rank(keys, k) ==> #[trigger] keys[j] < k,
        forall|j: int| rank(keys, k) <= j < keys.len() ==> #[trigger] keys[j] >= k,
    decreases keys.len(),
{
    if keys.len() > 0 {
        let d = keys.drop_last();
        let n = d.len() as int;
        assert forall|a: int, b: int| 0 <= a < b < d.len() implies d[a] < d[b] by {
            assert(d[a] == keys[a] && d[b] == keys[b]);
        }
        lemma_rank(d, k);
        if keys.last() < k {
            if rank(d, k) < n {
                assert(d[rank(d, k)] >= k);
                assert(keys[rank(d, k)] < keys[n]);
            }
            assert forall|j: int| 0 <= j < rank(keys, k) implies #[trigger] keys[j] < k by {
                if j < n {
                    assert(d[j] == keys[j]);
                }
            }
        } else {
            assert forall|j: int| 0 <= j < rank(keys, k) implies #[trigger] keys[j] < k by {
                assert(d[j] == keys[j]);
            }
            assert forall|j: int| rank(keys, k) <= j < keys.len() implies #[trigger] keys[j] >= k by {
                if j < n {
                    assert(d[j] == keys[j]);
                }
            }
        }
    }
}

/// A position with every key before it below `k` and none after is `rank`.
pub proof fn lemma_rank_unique(keys: Seq<u32>, k: u32, p: int)
    requires
        rising(keys),
        0 <= p <= keys.len(),
        forall|j: int| 0 <= j < p ==> #[trigger] keys[j] < k,
        p < keys.len() ==> keys[p] >= k,
    ensures
        rank(keys, k) == p,
{
    lemma_rank(keys, k);
    let r = rank(keys, k);
    if p < r {
        assert(keys[p] < k);
    } else if r < p {
        assert(keys[r] < k);
        assert(keys[r] >= k);
    }
}

/// An element of a sequence with one more inserted.
proof fn lemma_insert_index(keys: Seq<u32>, p: int, k: u32, x: int)
    requires
        0 <= p <= keys.len(),
        0 <= x <= keys.len(),
    ensures
        keys.insert(p, k)[x] == if x < p {
            keys[x]
        } else if x == p {
            k
        } else {
            keys[x - 1]
        },
        keys.insert(p, k).len() == keys.len() + 1,
{
    keys.insert_ensures(p, k);
    if x > p {
        assert(keys.insert(p, k)[(x - 1) + 1] == keys[x - 1]);
    }
}

/// Inserting an absent key at its rank keeps the keys rising.
pub proof fn lemma_insert_rising(keys: Seq<u32>, k: u32)
    requires
        rising(keys),
        !keys.contains(k),
    ensures
        rising(keys.insert(rank(keys, k), k)),
        forall|j: u32| #[trigger] keys.insert(rank(keys, k), k).contains(j) <==> (keys.contains(j) || j == k),
{
    lemma_rank(keys, k);
    let p = rank(keys, k);
    let t = keys.insert(p, k);
    assert forall|j: int| p <= j < keys.len() implies #[trigger] keys[j] > k by {
        if keys[j] == k {
            assert(keys.contains(k));
        }
    }
    assert forall|a: int, b: int| 0 <= a < b < t.len() implies t[a] < t[b] by {
        lemma_insert_index(keys, p, k, a);
        lemma_insert_index(keys, p, k, b);
        if a < p && p < b {
            assert(keys[a] < k);
        }
    }
    assert forall|j: u32| #[trigger] t.contains(j) <==> (keys.contains(j) || j == k) by {
        if t.contains(j) {
            let a = choose|a: int| 0 <= a < t.len() && t[a] == j;
            lemma_insert_index(keys, p, k, a);
            if a < p {
                assert(keys[a] == j);
            } else if a > p {
                assert(keys[a - 1] == j);
            }
        }
        if keys.contains(j) {
            let a = choose|a: int| 0 <= a < keys.len() && keys[a] == j;
            if a < p {
                lemma_insert_index(keys, p, k, a);
                assert(t[a] == j);
            } else {
                lemma_insert_index(keys, p, k, a + 1);
                assert(t[a + 1] == j);
            }
        }
        if j == k {
            lemma_insert_index(keys, p, k, p);
            assert(t[p] == k);
        }
    }
}

/// Removing a key keeps the keys rising, and loses that key alone.
pub proof fn lemma_remove_rising(keys: Seq<u32>, i: int)
    requires
        rising(keys),
        0 <= i < keys.len(),
    ensures
        rising(keys.remove(i)),
        forall|j: u32| #[trigger] keys.remove(i).contains(j) <==> (keys.contains(j) && j != keys[i]),
{
    let t = keys.remove(i);
    keys.remove_ensures(i);
    assert forall|a: int, b: int| 0 <= a < b < t.len() implies t[a] < t[b] by {
        if b < i {
        } else if a < i {
            assert(t[b] == keys[b + 1]);
        } else {
            assert(t[a] == keys[a + 1]);
            assert(t[b] == keys[b + 1]);
        }
    }
    assert forall|j: u32| #[trigger] t.contains(j) <==> (keys.contains(j) && j != keys[i]) by {
        if t.contains(j) {
            let a = choose|a: int| 0 <= a < t.len() && t[a] == j;
            if a < i {
                assert(keys[a] == j);
            } else {
                assert(keys[a + 1] == j);
            }
        }
        if keys.contains(j) && j != keys[i] {
            let a = choose|a: int| 0 <= a < keys.len() && keys[a] == j;
            if a < i {
                assert(t[a] == j);
            } else {
                assert(t[a - 1] == j);
            }
        }
    }
}

/// Among rising keys, a key sits at one position only.
pub proof fn lemma_position(keys: Seq<u32>, k: u32, i: int)
    requires
        rising(keys),
        0 <= i < keys.len(),
        keys[i] == k,
    ensures
        position_of(keys, k) == i,
{
    let j = position_of(keys, k);
    assert(0 <= j < keys.len() && keys[j] == k);
    if j < i {
        assert(keys[j] < keys[i]);
    } else if i < j {
        assert(keys[i] < keys[j]);
    }
}

// ---------------------------------------------------------------------------
// The accumulator as a state machine

/// What a [`Settling`] holds: the open steps and the closed ones by rising
/// index, the usage joined so far, and the completing snapshot once it came.
pub struct SettlingV {
    pub open: Seq<(u32, OpenV)>,
    pub closed: Seq<(u32, Seq<MemberV>)>,
    pub usage: UsageV,
    pub completed: Option<SnapshotV>,
}

/// The statuses of an interaction that has not finished.
pub open spec fn pending(s: StatusV) -> bool {
    s == StatusV::Known(KnownStatus::InProgress) || s == StatusV::Known(KnownStatus::Queued)
}

/// The string a status takes on the wire.
pub open spec fn status_wire(s: StatusV) -> Seq<char> {
    match s {
        StatusV::Known(k) => k.wire(),
        StatusV::Unrecognized(u) => u,
    }
}

/// Steps by rising index, none both open and closed, and a completion only
/// with a final status.
pub open spec fn settling_wf(s: SettlingV) -> bool {
    &&& rising(open_keys(s.open))
    &&& rising(closed_keys(s.closed))
    &&& forall|k: u32| !(#[trigger] open_keys(s.open).contains(k) && closed_keys(s.closed).contains(k))
    &&& (s.completed matches Some(snap) ==> !pending(snap.status))
}

/// Nothing yet.
pub open spec fn empty_settling() -> SettlingV {
    SettlingV { open: Seq::empty(), closed: Seq::empty(), usage: zero_usage(), completed: None }
}

/// Usage joined with what a frame carries, if it carries any.
pub open spec fn join_opt(u: UsageV, o: Option<UsageV>) -> UsageV {
    match o {
        Some(v) => join_usage(u, v),
        None => u,
    }
}

/// What one event does: the next state, and the refusal if it is refused.
///
/// After completion only the closing sentinel is accepted. A step starts
/// once, grows while open, and closes into its object; a refused close still
/// ends the step. Usage is joined from every frame that carries it. A
/// completion must report a final status. An API error fails the stream.
pub open spec fn next(s: SettlingV, e: StreamEventV) -> (SettlingV, Option<SettleFailure>) {
    if s.completed is Some && !(e is Done) {
        (s, Some(SettleFailure::AfterCompletion))
    } else {
        match e {
            StreamEventV::StepStart { index, step } => if open_keys(s.open).contains(index) || closed_keys(
                s.closed,
            ).contains(index) {
                (s, Some(SettleFailure::DuplicateStep(index)))
            } else {
                (
                    SettlingV {
                        open: s.open.insert(
                            rank(open_keys(s.open), index),
                            (index, OpenV { wire: step, arguments: Seq::empty() }),
                        ),
                        closed: s.closed,
                        usage: s.usage,
                        completed: s.completed,
                    },
                    None,
                )
            },
            StreamEventV::StepDelta { index, delta, usage } => if open_keys(s.open).contains(index) {
                let i = position_of(open_keys(s.open), index);
                (
                    SettlingV {
                        open: s.open.update(i, (index, apply_delta(s.open[i].1, delta))),
                        closed: s.closed,
                        usage: join_opt(s.usage, usage),
                        completed: s.completed,
                    },
                    None,
                )
            } else {
                (s, Some(SettleFailure::UnknownStep(index)))
            },
            StreamEventV::StepStop { index, usage } => if open_keys(s.open).contains(index) {
                let i = position_of(open_keys(s.open), index);
                match closed_wire(s.open[i].1, index) {
                    Ok(w) => (
                        SettlingV {
                            open: s.open.remove(i),
                            closed: s.closed.insert(rank(closed_keys(s.closed), index), (index, w)),
                            usage: join_opt(s.usage, usage),
                            completed: s.completed,
                        },
                        None,
                    ),
                    Err(f) => (
                        SettlingV {
                            open: s.open.remove(i),
                            closed: s.closed,
                            usage: s.usage,
                            completed: s.completed,
                        },
                        Some(f),
                    ),
                }
            } else {
                (s, Some(SettleFailure::UnknownStep(index)))
            },
            StreamEventV::Completed(snap) => if pending(snap.status) {
                (s, Some(SettleFailure::NotFinal(status_wire(snap.status))))
            } else {
                (
                    SettlingV {
                        open: s.open,
                        closed: s.closed,
                        usage: join_opt(s.usage, snap.usage),
                        completed: Some(snap),
                    },
                    None,
                )
            },
            StreamEventV::Error(a) => (s, Some(SettleFailure::Api(a))),
            _ => (s, None),
        }
    }
}

/// What a `data:` payload does: a frame that does not decode is refused
/// and changes nothing.
pub open spec fn next_payload(s: SettlingV, payload: Seq<char>) -> (SettlingV, Option<SettleFailure>) {
    match payload_event(payload) {
        Ok(e) => next(s, e),
        Err(f) => (s, Some(SettleFailure::Frame(f))),
    }
}

/// What a raw line does: lines other than `data:` change nothing.
pub open spec fn next_line(s: SettlingV, line: Seq<char>) -> (SettlingV, Option<SettleFailure>) {
    match payload_of(line) {
        Some(p) => next_payload(s, p),
        None => (s, None),
    }
}

/// Why the accumulator cannot settle: no completion yet, or a step still
/// open (the lowest such index). `None` when it can.
pub open spec fn settle_failure(s: SettlingV) -> Option<SettleFailure> {
    if s.completed is None {
        Some(SettleFailure::Truncated)
    } else if s.open.len() > 0 {
        Some(SettleFailure::UnknownStep(s.open[0].0))
    } else {
        None
    }
}

/// The state after a run of events, each taken whether or not it was refused.
pub open spec fn run(s: SettlingV, events: Seq<StreamEventV>) -> SettlingV
    decreases events.len(),
{
    if events.len() == 0 {
        s
    } else {
        next(run(s, events.drop_last()), events.last()).0
    }
}

/// The keys of a sequence with one entry replaced by one of the same key.
proof fn lemma_open_keys_update(open: Seq<(u32, OpenV)>, i: int, o: OpenV)
    requires
        0 <= i < open.len(),
    ensures
        open_keys(open.update(i, (open[i].0, o))) == open_keys(open),
{
    assert(open_keys(open.update(i, (open[i].0, o))) =~= open_keys(open));
}

/// Every event keeps the accumulator well formed: open and closed steps by
/// rising index, no step both open and closed, and a completion only with a
/// final status.
pub proof fn lemma_next_wf(s: SettlingV, e: StreamEventV)
    requires
        settling_wf(s),
    ensures
        settling_wf(next(s, e).0),
{
    let ok = open_keys(s.open);
    let ck = closed_keys(s.closed);
    if s.completed is Some && !(e is Done) {
    } else {
        match e {
            StreamEventV::StepStart { index, step } => {
                if !(ok.contains(index) || ck.contains(index)) {
                    let o = OpenV { wire: step, arguments: Seq::empty() };
                    let n = s.open.insert(rank(ok, index), (index, o));
                    lemma_insert_rising(ok, index);
                    lemma_rank(ok, index);
                    s.open.insert_ensures(rank(ok, index), (index, o));
                    assert(open_keys(n) =~= ok.insert(rank(ok, index), index));
                }
            },
            StreamEventV::StepDelta { index, delta, usage } => {
                if ok.contains(index) {
                    let i = position_of(ok, index);
                    lemma_open_keys_update(s.open, i, apply_delta(s.open[i].1, delta));
                }
            },
            StreamEventV::StepStop { index, usage } => {
                if ok.contains(index) {
                    let i = position_of(ok, index);
                    s.open.remove_ensures(i);
                    assert(open_keys(s.open.remove(i)) =~= ok.remove(i));
                    lemma_remove_rising(ok, i);
                    match closed_wire(s.open[i].1, index) {
                        Ok(w) => {
                            assert(!ck.contains(index));
                            lemma_insert_rising(ck, index);
                            lemma_rank(ck, index);
                            s.closed.insert_ensures(rank(ck, index), (index, w));
                            assert(closed_keys(s.closed.insert(rank(ck, index), (index, w))) =~= ck.insert(
                                rank(ck, index),
                                index,
                            ));
                        },
                        Err(f) => {},
                    }
                }
            },
            _ => {},
        }
    }
}

/// A fresh accumulator is well formed.
pub proof fn lemma_empty_wf()
    ensures
        settling_wf(empty_settling()),
{
    assert(open_keys(empty_settling().open) =~= Seq::<u32>::empty());
    assert(closed_keys(empty_settling().closed) =~= Seq::<u32>::empty());
}

/// After completion every event but the closing sentinel is refused with
/// `AfterCompletion`, and nothing changes; the sentinel changes nothing.
pub proof fn lemma_after_completion(s: SettlingV, e: StreamEventV)
    requires
        s.completed is Some,
    ensures
        next(s, e).0 == s,
        next(s, e).1 == if e is Done {
            None::<SettleFailure>
        } else {
            Some(SettleFailure::AfterCompletion)
        },
{
}

/// A refused event changes nothing, except that a step whose close is
/// refused is no longer open.
pub proof fn lemma_refusal_changes_nothing(s: SettlingV, e: StreamEventV)
    requires
        next(s, e).1 matches Some(f) && !(f is Arguments || f is Step),
    ensures
        next(s, e).0 == s,
{
}

/// Usage only grows: each counter of the next state is at least this one's.
pub proof fn lemma_usage_grows(s: SettlingV, e: StreamEventV)
    ensures
        usage_le(s.usage, next(s, e).0.usage),
{
    crate::usage::lemma_join_usage_idempotent(s.usage);
    lemma_join_usage_upper_bound(s.usage, s.usage);
    match e {
        StreamEventV::StepDelta { usage: Some(u), .. } => lemma_join_usage_upper_bound(s.usage, u),
        StreamEventV::StepStop { usage: Some(u), .. } => lemma_join_usage_upper_bound(s.usage, u),
        StreamEventV::Completed(snap) => match snap.usage {
            Some(u) => lemma_join_usage_upper_bound(s.usage, u),
            None => {},
        },
        _ => {},
    }
}

/// A closed step stays closed, with the same index and object.
pub proof fn lemma_closed_kept(s: SettlingV, e: StreamEventV, i: int)
    requires
        settling_wf(s),
        0 <= i < s.closed.len(),
    ensures
        next(s, e).0.closed.contains(s.closed[i]),
{
    let ck = closed_keys(s.closed);
    let n = next(s, e).0;
    if n.closed == s.closed {
        assert(n.closed[i] == s.closed[i]);
    } else {
        match e {
            StreamEventV::StepStop { index, usage } => {
                let p = rank(ck, index);
                let w = closed_wire(s.open[position_of(open_keys(s.open), index)].1, index);
                lemma_rank(ck, index);
                s.closed.insert_ensures(p, (index, w->Ok_0));
                if i < p {
                    assert(n.closed[i] == s.closed[i]);
                } else {
                    assert(n.closed[i + 1] == s.closed[i]);
                }
            },
            _ => {},
        }
    }
}

/// Only `interaction.completed` completes the accumulator.
pub proof fn lemma_completed_only_by_event(s: SettlingV, e: StreamEventV)
    requires
        s.completed is None,
        next(s, e).0.completed is Some,
    ensures
        e is Completed,
        next(s, e).1 is None,
{
}

/// Without `interaction.completed`, nothing completes, whatever else
/// arrived and whether or not it was refused.
pub proof fn lemma_run_without_completion(s: SettlingV, events: Seq<StreamEventV>)
    requires
        forall|i: int| 0 <= i < events.len() ==> !(#[trigger] events[i] is Completed),
    ensures
        run(s, events).completed == s.completed,
    decreases events.len(),
{
    if events.len() > 0 {
        let d = events.drop_last();
        assert forall|i: int| 0 <= i < d.len() implies !(#[trigger] d[i] is Completed) by {
            assert(d[i] == events[i]);
        }
        lemma_run_without_completion(s, d);
        assert(!(events[events.len() - 1] is Completed));
    }
}

/// A stream without `interaction.completed` never settles: settling it
/// fails with `Truncated`.
pub proof fn lemma_truncated(events: Seq<StreamEventV>)
    requires
        forall|i: int| 0 <= i < events.len() ==> !(#[trigger] events[i] is Completed),
    ensures
        settle_failure(run(empty_settling(), events)) == Some(SettleFailure::Truncated),
{
    lemma_run_without_completion(empty_settling(), events);
}

/// A state that settles has completed with a final status.
pub proof fn lemma_settles_final(s: SettlingV)
    requires
        settling_wf(s),
        settle_failure(s) is None,
    ensures
        s.completed matches Some(snap) && !pending(snap.status),
{
}

// ---------------------------------------------------------------------------
// Laws over a whole run of events

/// The usage an event carries: a delta's or a stop's, or the completion's.
pub open spec fn carried_usage(e: StreamEventV) -> Option<UsageV> {
    match e {
        StreamEventV::StepDelta { usage, .. } => usage,
        StreamEventV::StepStop { usage, .. } => usage,
        StreamEventV::Completed(snap) => snap.usage,
        _ => None,
    }
}

/// The state of a run just before its event at `i`.
pub open spec fn state_before(s: SettlingV, events: Seq<StreamEventV>, i: int) -> SettlingV {
    run(s, events.take(i))
}

/// Whether the event at `i` of a run was accepted.
pub open spec fn accepted_at(s: SettlingV, events: Seq<StreamEventV>, i: int) -> bool {
    next(state_before(s, events, i), events[i]).1 is None
}

/// An accepted event joins the usage it carries; a refused one changes no usage.
pub proof fn lemma_next_usage(s: SettlingV, e: StreamEventV)
    ensures
        next(s, e).0.usage == if next(s, e).1 is None {
            join_opt(s.usage, carried_usage(e))
        } else {
            s.usage
        },
{
}

/// Counters at most others that are at most a third are at most the third.
proof fn lemma_usage_le_trans(a: UsageV, b: UsageV, c: UsageV)
    requires
        usage_le(a, b),
        usage_le(b, c),
    ensures
        usage_le(a, c),
{
}

/// A run's first events are the run of the first events.
proof fn lemma_run_prefix(s: SettlingV, events: Seq<StreamEventV>, i: int)
    requires
        0 <= i < events.len(),
    ensures
        state_before(s, events.drop_last(), i) == state_before(s, events, i),
        accepted_at(s, events.drop_last(), i) == accepted_at(s, events, i) || i == events.len() - 1,
{
    if i < events.len() - 1 {
        assert(events.drop_last().take(i) =~= events.take(i));
        assert(events.drop_last()[i] == events[i]);
    } else {
        assert(events.drop_last().take(i) =~= events.take(i));
    }
}

/// Every run keeps the accumulator well formed; in particular the closed
/// steps stay in rising index order.
pub proof fn lemma_run_wf(s: SettlingV, events: Seq<StreamEventV>)
    requires
        settling_wf(s),
    ensures
        settling_wf(run(s, events)),
    decreases events.len(),
{
    if events.len() > 0 {
        lemma_run_wf(s, events.drop_last());
        lemma_next_wf(run(s, events.drop_last()), events.last());
    }
}

/// Over a run, usage only grows from where it started.
pub proof fn lemma_run_usage_grows(s: SettlingV, events: Seq<StreamEventV>)
    ensures
        usage_le(s.usage, run(s, events).usage),
    decreases events.len(),
{
    if events.len() == 0 {
        crate::usage::lemma_join_usage_idempotent(s.usage);
        lemma_join_usage_upper_bound(s.usage, s.usage);
    } else {
        let d = events.drop_last();
        lemma_run_usage_grows(s, d);
        lemma_usage_grows(run(s, d), events.last());
        lemma_usage_le_trans(s.usage, run(s, d).usage, run(s, events).usage);
    }
}

/// After a run, the usage holds every usage an accepted event carried.
pub proof fn lemma_run_usage_covers(s: SettlingV, events: Seq<StreamEventV>, i: int)
    requires
        0 <= i < events.len(),
        accepted_at(s, events, i),
        carried_usage(events[i]) is Some,
    ensures
        usage_le(carried_usage(events[i])->0, run(s, events).usage),
    decreases events.len(),
{
    let d = events.drop_last();
    let u = carried_usage(events[i])->0;
    lemma_run_prefix(s, events, i);
    if i == events.len() - 1 {
        assert(d =~= events.take(i));
        lemma_next_usage(run(s, d), events[i]);
        lemma_join_usage_upper_bound(run(s, d).usage, u);
        crate::usage::lemma_join_usage_commutative(run(s, d).usage, u);
    } else {
        assert(d[i] == events[i]);
        lemma_run_usage_covers(s, d, i);
        lemma_usage_grows(run(s, d), events.last());
        lemma_usage_le_trans(u, run(s, d).usage, run(s, events).usage);
    }
}

/// After a run, the usage is the least that holds the starting usage and
/// every usage an accepted event carried: their pointwise maximum.
pub proof fn lemma_run_usage_least(s: SettlingV, events: Seq<StreamEventV>, c: UsageV)
    requires
        usage_le(s.usage, c),
        forall|i: int|
            0 <= i < events.len() && accepted_at(s, events, i) && #[trigger] carried_usage(events[i]) is Some
                ==> usage_le(carried_usage(events[i])->0, c),
    ensures
        usage_le(run(s, events).usage, c),
    decreases events.len(),
{
    if events.len() > 0 {
        let d = events.drop_last();
        let n = events.len() - 1;
        assert forall|i: int|
            0 <= i < d.len() && accepted_at(s, d, i) && #[trigger] carried_usage(d[i]) is Some implies usage_le(
            carried_usage(d[i])->0,
            c,
        ) by {
            lemma_run_prefix(s, events, i);
            assert(d[i] == events[i]);
            assert(carried_usage(events[i]) is Some);
        }
        lemma_run_usage_least(s, d, c);
        lemma_run_prefix(s, events, n);
        assert(d =~= events.take(n));
        lemma_next_usage(run(s, d), events[n]);
        if next(run(s, d), events[n]).1 is None {
            match carried_usage(events[n]) {
                Some(u) => {
                    assert(accepted_at(s, events, n));
                    crate::usage::lemma_join_usage_least(run(s, d).usage, u, c);
                },
                None => {},
            }
        }
    }
}

/// A closed step's index stays closed.
proof fn lemma_closed_key_kept(s: SettlingV, e: StreamEventV, k: u32)
    requires
        settling_wf(s),
        closed_keys(s.closed).contains(k),
    ensures
        closed_keys(next(s, e).0.closed).contains(k),
{
    let p = choose|p: int| 0 <= p < closed_keys(s.closed).len() && closed_keys(s.closed)[p] == k;
    lemma_closed_kept(s, e, p);
    let c = next(s, e).0.closed;
    let q = choose|q: int| 0 <= q < c.len() && c[q] == s.closed[p];
    assert(closed_keys(c)[q] == k);
}

/// A step whose stop a run accepted is closed at the end of the run, and so
/// is among the steps the settled turn lists by index.
pub proof fn lemma_run_keeps_stopped(s: SettlingV, events: Seq<StreamEventV>, i: int)
    requires
        settling_wf(s),
        0 <= i < events.len(),
        accepted_at(s, events, i),
        events[i] is StepStop,
    ensures
        closed_keys(run(s, events).closed).contains(events[i]->StepStop_index),
    decreases events.len(),
{
    let d = events.drop_last();
    let index = events[i]->StepStop_index;
    lemma_run_prefix(s, events, i);
    lemma_run_wf(s, d);
    if i == events.len() - 1 {
        assert(d =~= events.take(i));
        let st = run(s, d);
        let ok = open_keys(st.open);
        let ck = closed_keys(st.closed);
        let p = position_of(ok, index);
        let w = closed_wire(st.open[p].1, index)->Ok_0;
        lemma_rank(ck, index);
        st.closed.insert_ensures(rank(ck, index), (index, w));
        assert(closed_keys(run(s, events).closed)[rank(ck, index)] == index);
    } else {
        assert(d[i] == events[i]);
        lemma_run_keeps_stopped(s, d, i);
        lemma_closed_key_kept(run(s, d), events.last(), index);
    }
}

// ---------------------------------------------------------------------------
// The accumulator

/// The open steps by index, in their form.
spec fn open_view(open: Seq<(u32, Open)>) -> Seq<(u32, OpenV)> {
    open.map_values(|p: (u32, Open)| (p.0, p.1@))
}

/// The closed steps by index, as the objects they replay.
pub open spec fn closed_view(closed: Seq<(u32, ModelStep)>) -> Seq<(u32, Seq<MemberV>)> {
    closed.map_values(|p: (u32, ModelStep)| (p.0, members_view(p.1.members())))
}

/// An optional snapshot in its form.
pub open spec fn opt_snapshot(s: Option<Snapshot>) -> Option<SnapshotV> {
    match s {
        Some(snap) => Some(snap@),
        None => None,
    }
}

/// A stream being accumulated.
#[derive(Debug)]
pub struct Settling {
    open: Vec<(u32, Open)>,
    closed: Vec<(u32, ModelStep)>,
    usage: Usage,
    completed: Option<Snapshot>,
}

impl View for Settling {
    type V = SettlingV;

    closed spec fn view(&self) -> SettlingV {
        SettlingV {
            open: open_view(self.open@),
            closed: closed_view(self.closed@),
            usage: self.usage@,
            completed: opt_snapshot(self.completed),
        }
    }
}

/// The position of the pair with key `k`, if there is one.
fn key_position<T>(pairs: &Vec<(u32, T)>, k: u32) -> (r: Option<usize>)
    ensures
        match r {
            Some(i) => i < pairs@.len() && pairs@[i as int].0 == k,
            None => forall|i: int| 0 <= i < pairs@.len() ==> #[trigger] pairs@[i].0 != k,
        },
{
    let mut i: usize = 0;
    while i < pairs.len()
        invariant
            i <= pairs@.len(),
            forall|j: int| 0 <= j < i ==> #[trigger] pairs@[j].0 != k,
        decreases pairs.len() - i,
    {
        if pairs[i].0 == k {
            return Some(i);
        }
        i = i + 1;
    }
    None
}

/// Where a key goes among pairs by rising key: after every smaller key.
fn insertion_point<T>(pairs: &Vec<(u32, T)>, k: u32) -> (p: usize)
    ensures
        p <= pairs@.len(),
        forall|j: int| 0 <= j < p ==> #[trigger] pairs@[j].0 < k,
        p < pairs@.len() ==> pairs@[p as int].0 >= k,
{
    let mut i: usize = 0;
    while i < pairs.len() && pairs[i].0 < k
        invariant
            i <= pairs@.len(),
            forall|j: int| 0 <= j < i ==> #[trigger] pairs@[j].0 < k,
        decreases pairs.len() - i,
    {
        i = i + 1;
    }
    i
}

/// Whether the view's keys hold `k`, as a search found it.
proof fn lemma_found<T, V>(pairs: Seq<(u32, T)>, view: Seq<(u32, V)>, keys: Seq<u32>, k: u32, r: Option<usize>)
    requires
        view.len() == pairs.len(),
        keys.len() == pairs.len(),
        forall|i: int| 0 <= i < pairs.len() ==> #[trigger] keys[i] == pairs[i].0,
        match r {
            Some(i) => i < pairs.len() && pairs[i as int].0 == k,
            None => forall|i: int| 0 <= i < pairs.len() ==> #[trigger] pairs[i].0 != k,
        },
    ensures
        keys.contains(k) <==> r is Some,
{
    match r {
        Some(i) => {
            assert(keys[i as int] == k);
        },
        None => {
            if keys.contains(k) {
                let i = choose|i: int| 0 <= i < keys.len() && keys[i] == k;
                assert(pairs[i].0 != k);
            }
        },
    }
}

impl Settling {
    /// Open and closed steps by rising index, none both, and a completion
    /// only with a final status.
    #[verifier::type_invariant]
    closed spec fn well_formed(&self) -> bool {
        settling_wf(self@)
    }

    /// An empty accumulator.
    pub fn new() -> (r: Self)
        ensures
            r@ == empty_settling(),
    {
        let r = Settling { open: Vec::new(), closed: Vec::new(), usage: Usage::new(), completed: None };
        proof {
            assert(open_view(r.open@) =~= Seq::<(u32, OpenV)>::empty());
            assert(closed_view(r.closed@) =~= Seq::<(u32, Seq<MemberV>)>::empty());
            lemma_empty_wf();
        }
        r
    }

    /// Consume one `data:` payload.
    pub fn consume_payload(&mut self, payload: &str) -> (r: Result<(), SettleError>)
        ensures
            final(self)@ == next_payload(old(self)@, payload@).0,
            outcome_is(r, next_payload(old(self)@, payload@).1),
    {
        match StreamEvent::decode(payload) {
            Ok(event) => self.consume(event),
            Err(e) => Err(SettleError::Frame(e)),
        }
    }

    /// Consume one raw line of the body; lines other than `data:` are ignored.
    pub fn consume_line(&mut self, line: &str) -> (r: Result<(), SettleError>)
        ensures
            final(self)@ == next_line(old(self)@, line@).0,
            outcome_is(r, next_line(old(self)@, line@).1),
    {
        match data_payload(line) {
            Some(payload) => self.consume_payload(payload),
            None => Ok(()),
        }
    }

    /// Consume one decoded event.
    pub fn consume(&mut self, event: StreamEvent) -> (r: Result<(), SettleError>)
        ensures
            final(self)@ == next(old(self)@, event@).0,
            outcome_is(r, next(old(self)@, event@).1),
    {
        proof {
            use_type_invariant(&*self);
            lemma_next_wf(self@, event@);
        }
        let ghost s = self@;
        let ghost ok = open_keys(s.open);
        let ghost ck = closed_keys(s.closed);
        if self.completed.is_some() {
            match event {
                StreamEvent::Done => return Ok(()),
                _ => return Err(SettleError::AfterCompletion),
            }
        }
        match event {
            StreamEvent::StepStart { index, step } => {
                let in_open = key_position(&self.open, index);
                let in_closed = key_position(&self.closed, index);
                proof {
                    lemma_found(self.open@, s.open, ok, index, in_open);
                    lemma_found(self.closed@, s.closed, ck, index, in_closed);
                }
                if in_open.is_some() || in_closed.is_some() {
                    return Err(SettleError::DuplicateStep(index));
                }
                let p = insertion_point(&self.open, index);
                proof {
                    lemma_rank_unique(ok, index, p as int);
                }
                let mut taken = Settling::new();
                std::mem::swap(self, &mut taken);
                let Settling { mut open, closed, usage, completed } = taken;
                let ghost open0 = open@;
                let o = Open { wire: step, arguments: String::new() };
                open.insert(p, (index, o));
                proof {
                    assert(open_view(open@) =~= open_view(open0).insert(p as int, (index, o@)));
                }
                *self = Settling { open, closed, usage, completed };
                Ok(())
            },
            StreamEvent::StepDelta { index, delta, usage: more } => {
                let found = key_position(&self.open, index);
                proof {
                    lemma_found(self.open@, s.open, ok, index, found);
                }
                let i = match found {
                    Some(i) => i,
                    None => return Err(SettleError::UnknownStep(index)),
                };
                proof {
                    lemma_position(ok, index, i as int);
                }
                let mut taken = Settling::new();
                std::mem::swap(self, &mut taken);
                let Settling { mut open, closed, mut usage, completed } = taken;
                let ghost open0 = open@;
                let (k, mut o) = open.remove(i);
                o.apply(delta);
                open.insert(i, (k, o));
                proof {
                    assert(open@ =~= open0.update(i as int, (k, o)));
                    assert(open_view(open@) =~= open_view(open0).update(i as int, (k, o@)));
                }
                match more {
                    Some(u) => usage.join(&u),
                    None => {},
                }
                *self = Settling { open, closed, usage, completed };
                Ok(())
            },
            StreamEvent::StepStop { index, usage: more } => {
                let found = key_position(&self.open, index);
                proof {
                    lemma_found(self.open@, s.open, ok, index, found);
                }
                let i = match found {
                    Some(i) => i,
                    None => return Err(SettleError::UnknownStep(index)),
                };
                proof {
                    lemma_position(ok, index, i as int);
                }
                let mut taken = Settling::new();
                std::mem::swap(self, &mut taken);
                let Settling { mut open, mut closed, mut usage, completed } = taken;
                let ghost open0 = open@;
                let ghost closed0 = closed@;
                let (_, o) = open.remove(i);
                proof {
                    assert(open_view(open@) =~= open_view(open0).remove(i as int));
                }
                match o.close(index) {
                    Ok(step) => {
                        let p = insertion_point(&closed, index);
                        proof {
                            lemma_rank_unique(ck, index, p as int);
                        }
                        let ghost w = members_view(step.members());
                        closed.insert(p, (index, step));
                        proof {
                            assert(closed_view(closed@) =~= closed_view(closed0).insert(p as int, (index, w)));
                        }
                        match more {
                            Some(u) => usage.join(&u),
                            None => {},
                        }
                        *self = Settling { open, closed, usage, completed };
                        Ok(())
                    },
                    Err(e) => {
                        *self = Settling { open, closed, usage, completed };
                        Err(e)
                    },
                }
            },
            StreamEvent::Completed(snapshot) => {
                if snapshot.status.is(KnownStatus::InProgress) || snapshot.status.is(KnownStatus::Queued) {
                    return Err(SettleError::NotFinal(snapshot.status.as_str().to_owned()));
                }
                let mut taken = Settling::new();
                std::mem::swap(self, &mut taken);
                let Settling { open, closed, mut usage, completed: _ } = taken;
                match &snapshot.usage {
                    Some(u) => usage.join(u),
                    None => {},
                }
                *self = Settling { open, closed, usage, completed: Some(snapshot) };
                Ok(())
            },
            StreamEvent::Error(error) => Err(SettleError::Api(error)),
            _ => Ok(()),
        }
    }

    /// The finished turn, or why there is none.
    pub fn settle(self) -> (r: Result<Turn, SettleError>)
        ensures
            match r {
                Ok(turn) => settle_failure(self@) is None && settled_as(turn, self@),
                Err(e) => settle_failure(self@) matches Some(f) && settle_error_is(e, f),
            },
    {
        proof {
            use_type_invariant(&self);
        }
        let ghost s = self@;
        let Settling { open, closed, usage, completed } = self;
        let snapshot = match completed {
            Some(snapshot) => snapshot,
            None => return Err(SettleError::Truncated),
        };
        if open.len() > 0 {
            return Err(SettleError::UnknownStep(open[0].0));
        }
        let ghost all = closed@;
        let n = closed.len();
        let mut rest = closed;
        let mut steps: Vec<ModelStep> = Vec::new();
        while rest.len() > 0
            invariant
                steps@.len() <= n,
                all.len() == n,
                rest@ =~= all.skip(steps@.len() as int),
                forall|i: int| 0 <= i < steps@.len() ==> #[trigger] steps@[i] == all[i].1,
            decreases rest.len(),
        {
            let (_, step) = rest.remove(0);
            steps.push(step);
        }
        let Snapshot { status, usage: _, model, service_tier, id: _ } = snapshot;
        Ok(Turn { steps, status, usage, model, service_tier })
    }
}

impl Default for Settling {
    fn default() -> (r: Self)
        ensures
            r@ == empty_settling(),
    {
        Settling::new()
    }
}

/// What the finished turn holds: the completion's status, model and tier,
/// the usage joined over the stream, and the closed steps' objects by index.
pub open spec fn settled_as(turn: Turn, s: SettlingV) -> bool {
    &&& s.completed matches Some(snap) && {
        &&& turn.status@ == snap.status
        &&& crate::stream::opt_text(turn.model) == snap.model
        &&& crate::stream::opt_text(turn.service_tier) == snap.service_tier
    }
    &&& turn.usage@ == s.usage
    &&& turn.steps@.len() == s.closed.len()
    &&& forall|i: int| 0 <= i < s.closed.len() ==> members_view(#[trigger] turn.steps@[i].members()) == s.closed[i].1
}

} // verus!
