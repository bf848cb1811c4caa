use plonk_xor::session::ProvingStage;

fn run(outcomes: &[bool]) -> ProvingStage {
    outcomes.iter().fold(ProvingStage::start(), |stage, ok| stage.advance(*ok))
}

#[test]
fn a_session_passes_through_every_stage() {
    assert_eq!(run(&[]), ProvingStage::Unsynthesized);
    assert_eq!(run(&[true]), ProvingStage::Transpiled);
    assert_eq!(run(&[true, true]), ProvingStage::SetupPrepared);
    assert_eq!(run(&[true, true, true]), ProvingStage::Proved);
    assert_eq!(run(&[true, true, true, true]), ProvingStage::Verified);
    assert_eq!(run(&[true, true, true, true, true]), ProvingStage::Encoded);
}

#[test]
fn a_failure_at_any_stage_ends_the_session() {
    for failing in 0..5 {
        let mut outcomes = [true; 8];
        outcomes[failing] = false;
        assert_eq!(run(&outcomes[..failing + 1]), ProvingStage::Failed);
        assert_eq!(run(&outcomes), ProvingStage::Failed);
        assert!(!run(&outcomes).has_proof());
    }
}

#[test]
fn a_failed_self_check_gives_no_proof() {
    let stage = run(&[true, true, true, false, true]);
    assert_eq!(stage, ProvingStage::Failed);
    assert!(!stage.has_proof());
    assert!(stage.is_final());
}

#[test]
fn final_stages_do_not_move() {
    assert_eq!(ProvingStage::Encoded.advance(false), ProvingStage::Encoded);
    assert_eq!(ProvingStage::Encoded.advance(true), ProvingStage::Encoded);
    assert_eq!(ProvingStage::Failed.advance(true), ProvingStage::Failed);
    assert!(ProvingStage::Encoded.has_proof());
    assert!(ProvingStage::Encoded.is_final());
    assert!(!ProvingStage::Verified.is_final());
    assert!(!ProvingStage::Verified.has_proof());
}
