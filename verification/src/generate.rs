//! Greedy generation: what is stepped next, and when it ends.

use vstd::prelude::*;

use crate::engine_error::{EngineError, ErrorV};
use crate::float_bits::is_nan;
use crate::prefill::StepArgs;
use crate::sampling::{all_nan, argmax_first, is_first_max};

verus! {

/// A generation that has been prefilled: what was generated, and the token and the
/// position of the next step.
#[derive(Debug)]
pub struct Generation {
    pub prompt_len: usize,
    pub max_tokens: u32,
    pub eos_id: Option<u32>,
    pub out: Vec<u32>,
    pub cur: u32,
    pub pos: usize,
    pub ended: bool,
}

/// Whether an `f32` is zero, of either sign.
pub open spec fn is_zero(b: u32) -> bool {
    b == 0 || b == 0x8000_0000
}

/// What is wrong with a request for generation: a temperature other than zero, or an
/// empty prompt.
pub open spec fn request_error(prompt: Seq<u32>, temperature: u32) -> Option<ErrorV> {
    if !is_zero(temperature) {
        Some(
            ErrorV::Sts(
                "temperature > 0 sampling not wired (record: host sampler pipeline)"@,
            ),
        )
    } else if prompt.len() == 0 {
        Some(ErrorV::Sts("empty prompt"@))
    } else {
        None
    }
}

impl Generation {
    /// The next step follows the prompt and what was generated: its position is their
    /// length, its token the last of them; no end-of-sequence token was generated,
    /// nor more tokens than asked for.
    pub open spec fn follows(self, prompt: Seq<u32>) -> bool {
        &&& prompt.len() > 0
        &&& self.prompt_len == prompt.len()
        &&& self.pos == prompt.len() + self.out@.len()
        &&& self.cur == (prompt + self.out@).last()
        &&& self.out@.len() <= self.max_tokens
        &&& forall|i: int| 0 <= i < self.out@.len() ==> Some(#[trigger] self.out@[i]) != self.eos_id
    }

    /// A generation over a prompt that has been prefilled, at temperature zero; the
    /// temperature is an `f32` bit pattern.
    pub fn start(prompt: &Vec<u32>, max_tokens: u32, eos_id: Option<u32>, temperature: u32) -> (r:
        Result<Self, EngineError>)
        ensures
            r is Err <==> request_error(prompt@, temperature) is Some,
            r is Err ==> request_error(prompt@, temperature) == Some(r->Err_0@),
            r is Ok ==> {
                let g = r->Ok_0;
                &&& g.follows(prompt@)
                &&& g.out@.len() == 0
                &&& g.max_tokens == max_tokens
                &&& g.eos_id == eos_id
                &&& !g.ended
            },
    {
        if temperature != 0 && temperature != 0x8000_0000 {
            return Err(
                EngineError::Sts(
                    "temperature > 0 sampling not wired (record: host sampler pipeline)".to_owned(),
                ),
            );
        }
        let n: usize = prompt.len();
        if n == 0 {
            return Err(EngineError::Sts("empty prompt".to_owned()));
        }
        let out: Vec<u32> = Vec::new();
        proof {
            assert(prompt@ + out@ =~= prompt@);
        }
        Ok(
            Generation {
                prompt_len: n,
                max_tokens,
                eos_id,
                out,
                cur: prompt[n - 1],
                pos: n,
                ended: false,
            },
        )
    }

    /// Whether another step is due.
    pub open spec fn is_due(self) -> bool {
        !self.ended && self.out@.len() < self.max_tokens
    }

    /// The next step; `None` where the generation is over.
    pub fn next_step(&self) -> (r: Option<StepArgs>)
        requires
            self.pos < usize::MAX,
        ensures
            r is Some <==> self.is_due(),
            r is Some ==> r->0 == (StepArgs {
                token: self.cur,
                pos: self.pos,
                kv_len: (self.pos + 1) as usize,
            }),
    {
        if self.ended || self.out.len() as u64 >= self.max_tokens as u64 {
            return None;
        }
        Some(StepArgs { token: self.cur, pos: self.pos, kv_len: self.pos + 1 })
    }

    /// Takes the logits of a step, `f32` bit patterns: the first largest is the next
    /// token, unless it ends the sequence.  Logits that are all NaN are refused.
    pub fn accept(&mut self, logits: &Vec<u32>) -> (r: Result<(), EngineError>)
        requires
            old(self).is_due(),
            old(self).pos < usize::MAX,
            logits@.len() <= u32::MAX,
        ensures
            forall|prompt: Seq<u32>| #[trigger]
                old(self).follows(prompt) ==> final(self).follows(prompt),
            r is Err <==> forall|i: int| 0 <= i < logits@.len() ==> is_nan(#[trigger] logits@[i]),
            r is Err ==> r->Err_0@ == ErrorV::NaNLogits && *final(self) == *old(self),
            r is Ok ==> exists|t: u32|
                {
                    &&& #[trigger] is_first_max(logits@, t as int)
                    &&& Some(t) == old(self).eos_id ==> *final(self) == (Generation {
                        ended: true,
                        ..*old(self)
                    })
                    &&& Some(t) != old(self).eos_id ==> final(self).out@ == old(self).out@.push(t)
                        && *final(self) == (Generation {
                        out: final(self).out,
                        cur: t,
                        pos: (old(self).pos + 1) as usize,
                        ..*old(self)
                    })
                },
    {
        if all_nan(logits.as_slice()) {
            return Err(EngineError::NaNLogits);
        }
        let next: u32 = argmax_first(logits.as_slice());
        let stop = match self.eos_id {
            Some(e) => e == next,
            None => false,
        };
        if stop {
            self.ended = true;
        } else {
            self.out.push(next);
            self.cur = next;
            self.pos = self.pos + 1;
            proof {
                assert forall|prompt: Seq<u32>| #[trigger] old(self).follows(prompt) implies
                    self.follows(prompt) by {
                    assert((prompt + self.out@).last() == next);
                }
            }
        }
        Ok(())
    }
}

/// A generation that is over has generated as many tokens as asked for, or met the
/// end of the sequence.
pub proof fn generation_ends_for_a_reason(g: Generation, prompt: Seq<u32>)
    requires
        g.follows(prompt),
        !g.is_due(),
    ensures
        g.ended || g.out@.len() == g.max_tokens,
{
}

} // verus!
