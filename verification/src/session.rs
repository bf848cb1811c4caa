//! The stages of one proving session.
//!
//! A session transpiles the circuit, prepares the setup, proves, verifies its
//! own proof and encodes it, in that order. A failure at any stage ends the
//! session: only a session that passed every stage has a proof to hand out.

use vstd::prelude::*;

verus! {

/// How far a proving session has come.
#[derive(Clone, Copy, Debug, PartialEq, Eq, Structural)]
pub enum ProvingStage {
    Unsynthesized,
    Transpiled,
    SetupPrepared,
    Proved,
    Verified,
    Encoded,
    Failed,
}

/// The stage that follows `stage` when its work succeeded (`ok`) or failed.
/// `Encoded` and `Failed` are final.
pub open spec fn next_stage(stage: ProvingStage, ok: bool) -> ProvingStage {
    match stage {
        ProvingStage::Encoded => ProvingStage::Encoded,
        ProvingStage::Failed => ProvingStage::Failed,
        _ => if !ok {
            ProvingStage::Failed
        } else {
            match stage {
                ProvingStage::Unsynthesized => ProvingStage::Transpiled,
                ProvingStage::Transpiled => ProvingStage::SetupPrepared,
                ProvingStage::SetupPrepared => ProvingStage::Proved,
                ProvingStage::Proved => ProvingStage::Verified,
                _ => ProvingStage::Encoded,
            }
        },
    }
}

/// The stage reached from `stage` after the first `n` of the outcomes.
pub open spec fn stage_after(stage: ProvingStage, outcomes: Seq<bool>, n: nat) -> ProvingStage
    decreases n,
{
    if n == 0 || n > outcomes.len() {
        stage
    } else {
        next_stage(stage_after(stage, outcomes, (n - 1) as nat), outcomes[n - 1])
    }
}

/// The number of stages between the start and the encoded proof.
pub open spec fn stages_to_encode() -> nat {
    5
}

impl ProvingStage {
    /// Where every session starts.
    pub fn start() -> (stage: ProvingStage)
        ensures
            stage == ProvingStage::Unsynthesized,
    {
        ProvingStage::Unsynthesized
    }

    /// Moves on after the work of the current stage succeeded or failed.
    pub fn advance(self, ok: bool) -> (next: ProvingStage)
        ensures
            next == next_stage(self, ok),
    {
        match self {
            ProvingStage::Encoded => ProvingStage::Encoded,
            ProvingStage::Failed => ProvingStage::Failed,
            ProvingStage::Unsynthesized => if ok {
                ProvingStage::Transpiled
            } else {
                ProvingStage::Failed
            },
            ProvingStage::Transpiled => if ok {
                ProvingStage::SetupPrepared
            } else {
                ProvingStage::Failed
            },
            ProvingStage::SetupPrepared => if ok {
                ProvingStage::Proved
            } else {
                ProvingStage::Failed
            },
            ProvingStage::Proved => if ok {
                ProvingStage::Verified
            } else {
                ProvingStage::Failed
            },
            ProvingStage::Verified => if ok {
                ProvingStage::Encoded
            } else {
                ProvingStage::Failed
            },
        }
    }

    /// Whether the session has a proof to hand out.
    pub fn has_proof(self) -> (r: bool)
        ensures
            r == (self == ProvingStage::Encoded),
    {
        match self {
            ProvingStage::Encoded => true,
            _ => false,
        }
    }

    /// Whether the session is over.
    pub fn is_final(self) -> (r: bool)
        ensures
            r == (self == ProvingStage::Encoded || self == ProvingStage::Failed),
    {
        match self {
            ProvingStage::Encoded => true,
            ProvingStage::Failed => true,
            _ => false,
        }
    }
}

/// A failure is terminal: whatever comes after, the session stays failed.
pub proof fn lemma_failure_is_terminal(outcomes: Seq<bool>, n: nat)
    ensures
        stage_after(ProvingStage::Failed, outcomes, n) == ProvingStage::Failed,
    decreases n,
{
    if n != 0 && n <= outcomes.len() {
        lemma_failure_is_terminal(outcomes, (n - 1) as nat);
    }
}

/// From a stage reached once, a failed step leads into failure for good.
proof fn lemma_stays_failed(outcomes: Seq<bool>, k: nat, n: nat)
    requires
        k <= n <= outcomes.len(),
        stage_after(ProvingStage::Unsynthesized, outcomes, k) == ProvingStage::Failed,
    ensures
        stage_after(ProvingStage::Unsynthesized, outcomes, n) == ProvingStage::Failed,
    decreases n,
{
    if n > k {
        lemma_stays_failed(outcomes, k, (n - 1) as nat);
    }
}

/// No proof without every stage passed: a session ends with an encoded proof
/// exactly when it ran through at least five stages and the first five all
/// succeeded, the prover's own verification among them.
pub proof fn lemma_proof_only_after_every_stage(outcomes: Seq<bool>)
    ensures
        stage_after(ProvingStage::Unsynthesized, outcomes, outcomes.len()) == ProvingStage::Encoded
            <==> outcomes.len() >= stages_to_encode() && forall|i: int|
            0 <= i < stages_to_encode() ==> outcomes[i],
{
    let start = ProvingStage::Unsynthesized;
    let len = outcomes.len();
    reveal_with_fuel(stage_after, 6);
    if len < 5 {
        assert(stage_after(start, outcomes, len) != ProvingStage::Encoded);
    } else {
        let s5 = stage_after(start, outcomes, 5);
        if outcomes[0] && outcomes[1] && outcomes[2] && outcomes[3] && outcomes[4] {
            assert(s5 == ProvingStage::Encoded);
            lemma_stays_encoded(outcomes, 5, len);
        } else {
            assert(s5 == ProvingStage::Failed);
            lemma_stays_failed(outcomes, 5, len);
        }
    }
}

/// Once encoded, the session stays encoded.
proof fn lemma_stays_encoded(outcomes: Seq<bool>, k: nat, n: nat)
    requires
        k <= n <= outcomes.len(),
        stage_after(ProvingStage::Unsynthesized, outcomes, k) == ProvingStage::Encoded,
    ensures
        stage_after(ProvingStage::Unsynthesized, outcomes, n) == ProvingStage::Encoded,
    decreases n,
{
    if n > k {
        lemma_stays_encoded(outcomes, k, (n - 1) as nat);
    }
}

} // verus!
