use rawdaw_app::activation::effective_state;
use rawdaw_app::activation::Activation;
use rawdaw_app::activation::ActivationOverride;
use rawdaw_app::activation::ActivationState;
use rawdaw_app::activation::SectionActivations;

fn act(pattern: &str, state: ActivationState) -> Activation {
    Activation { pattern: pattern.to_string(), state }
}

fn verse() -> SectionActivations {
    SectionActivations {
        activations: vec![
            ("bass".to_string(), act("Bass A", ActivationState::Active)),
            ("drums".to_string(), act("Beat 1", ActivationState::Active)),
            ("pad".to_string(), act("Pad", ActivationState::Silent)),
        ],
        variant_overrides: vec![
            ("b".to_string(), vec![("drums".to_string(), ActivationOverride::Silent)]),
            ("c".to_string(), vec![("bass".to_string(), ActivationOverride::Replace(act("Bass C", ActivationState::Active)))]),
            ("b".to_string(), vec![("bass".to_string(), ActivationOverride::Replace(act("Bass B", ActivationState::Active)))]),
        ],
    }
}

#[test]
fn base_variant_reads_base_entries() {
    let s = verse();
    assert_eq!(effective_state(&s, "a", "bass"), (Some("Bass A".to_string()), ActivationState::Active, false));
    assert_eq!(effective_state(&s, "a", "pad"), (Some("Pad".to_string()), ActivationState::Silent, false));
    assert_eq!(effective_state(&s, "a", "lead"), (None, ActivationState::Inherit, false));
}

#[test]
fn silent_override_keeps_base_pattern_name() {
    let s = verse();
    assert_eq!(effective_state(&s, "b", "drums"), (Some("Beat 1".to_string()), ActivationState::Silent, true));
}

#[test]
fn replace_override_wins_and_later_entries_for_the_same_variant_count() {
    let s = verse();
    assert_eq!(effective_state(&s, "c", "bass"), (Some("Bass C".to_string()), ActivationState::Active, true));
    // The first "b" entry says nothing of bass; the second one does.
    assert_eq!(effective_state(&s, "b", "bass"), (Some("Bass B".to_string()), ActivationState::Active, true));
    assert_eq!(effective_state(&s, "c", "pad"), (Some("Pad".to_string()), ActivationState::Silent, false));
}

#[test]
fn silencing_a_track_without_base_entry() {
    let s = SectionActivations {
        activations: vec![],
        variant_overrides: vec![("x".to_string(), vec![("lead".to_string(), ActivationOverride::Silent)])],
    };
    assert_eq!(effective_state(&s, "x", "lead"), (None, ActivationState::Silent, true));
}
