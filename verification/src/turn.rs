//! A finished model turn: what both the stream and the buffered body become.

use vstd::prelude::*;

use crate::content::OutputContent;
use crate::step::{FunctionCall, ModelStep, StepView};
use crate::usage::Usage;
use crate::values::Status;

verus! {

/// The model's side of one interaction, ready to append to a conversation.
///
/// Only [`crate::settle::Settling::settle`] and
/// [`crate::response::decode_interaction`] make one, and both refuse an
/// interaction that has not reached a final status, so a `Turn` is never half
/// an answer.
#[derive(Debug, Clone, PartialEq)]
#[non_exhaustive]
pub struct Turn {
    /// The steps, in order, each replayable verbatim.
    pub steps: Vec<ModelStep>,
    /// The final status: `completed`, `requires_action`, `incomplete`, …
    pub status: Status,
    /// What it cost.
    pub usage: Usage,
    /// The model id the API reports.
    pub model: Option<String>,
    /// The tier that served it, verbatim.
    pub service_tier: Option<String>,
}

/// The text of the text blocks among `content`, concatenated in order.
pub open spec fn blocks_text(content: Seq<OutputContent>) -> Seq<char>
    decreases content.len(),
{
    if content.len() == 0 {
        Seq::empty()
    } else {
        blocks_text(content.drop_last()) + match content.last() {
            OutputContent::Text { text, .. } => text@,
            _ => Seq::empty(),
        }
    }
}

/// The text of every model-output block among `steps`, concatenated in order.
pub open spec fn steps_text(steps: Seq<ModelStep>) -> Seq<char>
    decreases steps.len(),
{
    if steps.len() == 0 {
        Seq::empty()
    } else {
        steps_text(steps.drop_last()) + match steps.last().says() {
            StepView::ModelOutput { content } => blocks_text(content@),
            _ => Seq::empty(),
        }
    }
}

/// The function calls among `steps`, in order.
pub open spec fn calls_in(steps: Seq<ModelStep>) -> Seq<FunctionCall>
    decreases steps.len(),
{
    if steps.len() == 0 {
        Seq::empty()
    } else {
        match steps.last().says() {
            StepView::FunctionCall(c) => calls_in(steps.drop_last()).push(c),
            _ => calls_in(steps.drop_last()),
        }
    }
}

/// The text of blocks is the text of each part, joined in order.
pub proof fn lemma_blocks_text_append(c1: Seq<OutputContent>, c2: Seq<OutputContent>)
    ensures
        blocks_text(c1 + c2) == blocks_text(c1) + blocks_text(c2),
    decreases c2.len(),
{
    if c2.len() == 0 {
        assert(c1 + c2 =~= c1);
        assert(blocks_text(c1) + blocks_text(c2) =~= blocks_text(c1));
    } else {
        lemma_blocks_text_append(c1, c2.drop_last());
        assert((c1 + c2).drop_last() =~= c1 + c2.drop_last());
        assert((c1 + c2).last() == c2.last());
        assert(blocks_text(c1 + c2) =~= blocks_text(c1) + blocks_text(c2));
    }
}

/// One block's text: all of a text block's text, and nothing from any other block.
pub proof fn lemma_block_text(b: OutputContent)
    ensures
        b matches OutputContent::Text { text, .. } ==> blocks_text(seq![b]) == text@,
        !(b is Text) ==> blocks_text(seq![b]) == Seq::<char>::empty(),
{
    let none = Seq::<char>::empty();
    assert(seq![b].drop_last() =~= Seq::<OutputContent>::empty());
    assert(blocks_text(seq![b].drop_last()) == none);
    assert(seq![b].last() == b);
    if let OutputContent::Text { text, .. } = b {
        assert(none + text@ =~= text@);
    } else {
        assert(none + none =~= none);
    }
}

/// The text of a run of steps is the text of each part, joined in order.
pub proof fn lemma_steps_text_append(s1: Seq<ModelStep>, s2: Seq<ModelStep>)
    ensures
        steps_text(s1 + s2) == steps_text(s1) + steps_text(s2),
    decreases s2.len(),
{
    if s2.len() == 0 {
        assert(s1 + s2 =~= s1);
        assert(steps_text(s1) + steps_text(s2) =~= steps_text(s1));
    } else {
        lemma_steps_text_append(s1, s2.drop_last());
        assert((s1 + s2).drop_last() =~= s1 + s2.drop_last());
        assert((s1 + s2).last() == s2.last());
        assert(steps_text(s1 + s2) =~= steps_text(s1) + steps_text(s2));
    }
}

/// One step's text: the text of all its blocks when it is model output, and
/// nothing from any other step.
pub proof fn lemma_step_text(s: ModelStep)
    ensures
        s.says() matches StepView::ModelOutput { content } ==> steps_text(seq![s]) == blocks_text(content@),
        !(s.says() is ModelOutput) ==> steps_text(seq![s]) == Seq::<char>::empty(),
{
    let none = Seq::<char>::empty();
    assert(seq![s].drop_last() =~= Seq::<ModelStep>::empty());
    assert(steps_text(seq![s].drop_last()) == none);
    assert(seq![s].last() == s);
    if let StepView::ModelOutput { content } = s.says() {
        assert(none + blocks_text(content@) =~= blocks_text(content@));
    } else {
        assert(none + none =~= none);
    }
}


impl Turn {
    /// The text of every model-output block, concatenated in order.
    pub fn text(&self) -> (r: String)
        ensures
            r@ == steps_text(self.steps@),
    {
        let mut out = String::new();
        let mut i: usize = 0;
        while i < self.steps.len()
            invariant
                i <= self.steps@.len(),
                out@ == steps_text(self.steps@.take(i as int)),
            decreases self.steps.len() - i,
        {
            proof {
                assert(self.steps@.take(i as int + 1).drop_last() == self.steps@.take(i as int));
            }
            if let StepView::ModelOutput { content } = self.steps[i].view() {
                let ghost start = out@;
                let mut k: usize = 0;
                while k < content.len()
                    invariant
                        k <= content@.len(),
                        out@ == start + blocks_text(content@.take(k as int)),
                    decreases content.len() - k,
                {
                    proof {
                        assert(content@.take(k as int + 1).drop_last() == content@.take(k as int));
                    }
                    if let Some(t) = content[k].as_text() {
                        out.append(t);
                    }
                    proof {
                        assert(out@ =~= start + blocks_text(content@.take(k as int + 1)));
                    }
                    k = k + 1;
                }
                proof {
                    assert(content@.take(content@.len() as int) == content@);
                }
            }
            proof {
                assert(out@ =~= steps_text(self.steps@.take(i as int + 1)));
            }
            i = i + 1;
        }
        proof {
            assert(self.steps@.take(self.steps@.len() as int) == self.steps@);
        }
        out
    }

    /// The function calls the caller must answer, in order.
    pub fn function_calls(&self) -> (r: Vec<&FunctionCall>)
        ensures
            r@.len() == calls_in(self.steps@).len(),
            forall|i: int| 0 <= i < r@.len() ==> *r@[i] == calls_in(self.steps@)[i],
    {
        let mut out: Vec<&FunctionCall> = Vec::new();
        let mut i: usize = 0;
        while i < self.steps.len()
            invariant
                i <= self.steps@.len(),
                out@.len() == calls_in(self.steps@.take(i as int)).len(),
                forall|k: int| 0 <= k < out@.len() ==> *out@[k] == calls_in(self.steps@.take(i as int))[k],
            decreases self.steps.len() - i,
        {
            proof {
                assert(self.steps@.take(i as int + 1).drop_last() == self.steps@.take(i as int));
            }
            if let Some(call) = self.steps[i].as_function_call() {
                out.push(call);
            }
            i = i + 1;
        }
        proof {
            assert(self.steps@.take(self.steps@.len() as int) == self.steps@);
        }
        out
    }
}

} // verus!
