use subruster::{is_noise, judge, noise_signature, Address, Lookup, Verdict};

const WILD: Address = Address::V4(0x0102_0304);
const OTHER: Address = Address::V4(0x0506_0708);
const SIXTH: Address = Address::V6(0x2001_0db8_0000_0000_0000_0000_0000_0001);

#[test]
fn signature_is_the_first_address_of_the_probe() {
    assert_eq!(noise_signature(&Lookup::Answer(vec![WILD])), Some(WILD));
    assert_eq!(noise_signature(&Lookup::Answer(vec![OTHER, WILD])), Some(OTHER));
    assert_eq!(noise_signature(&Lookup::Answer(vec![SIXTH, WILD])), Some(SIXTH));
}

#[test]
fn no_signature_where_the_probe_did_not_resolve() {
    assert_eq!(noise_signature(&Lookup::Failed), None);
    assert_eq!(noise_signature(&Lookup::TimedOut), None);
}

#[test]
fn no_signature_where_the_probe_came_back_empty() {
    assert_eq!(noise_signature(&Lookup::Answer(Vec::new())), None);
}

#[test]
fn answer_with_the_signature_is_noise() {
    assert!(is_noise(&vec![WILD], Some(WILD)));
    assert!(is_noise(&vec![WILD, OTHER], Some(WILD)));
    assert!(is_noise(&vec![OTHER, WILD], Some(WILD)));
}

#[test]
fn answer_without_the_signature_is_no_noise() {
    assert!(!is_noise(&vec![OTHER], Some(WILD)));
    assert!(!is_noise(&vec![OTHER, SIXTH], Some(WILD)));
    assert!(!is_noise(&Vec::new(), Some(WILD)));
}

#[test]
fn nothing_is_noise_without_a_signature() {
    assert!(!is_noise(&vec![WILD], None));
    assert!(!is_noise(&vec![OTHER, WILD], None));
    assert!(!is_noise(&Vec::new(), None));
}

#[test]
fn addresses_of_different_families_differ() {
    assert_ne!(Address::V4(1), Address::V6(1));
    assert!(!is_noise(&vec![Address::V6(0x0102_0304)], Some(WILD)));
}

#[test]
fn judge_fails_what_did_not_resolve() {
    for keep in [false, true] {
        for signature in [None, Some(WILD)] {
            assert_eq!(judge(&Lookup::Failed, signature, keep), Verdict::Failed);
            assert_eq!(judge(&Lookup::TimedOut, signature, keep), Verdict::Failed);
            assert_eq!(judge(&Lookup::Answer(Vec::new()), signature, keep), Verdict::Failed);
        }
    }
}

#[test]
fn judge_finds_what_resolved_elsewhere() {
    assert_eq!(judge(&Lookup::Answer(vec![OTHER]), Some(WILD), false), Verdict::Found);
    assert_eq!(judge(&Lookup::Answer(vec![OTHER]), None, false), Verdict::Found);
    assert_eq!(judge(&Lookup::Answer(vec![SIXTH]), Some(WILD), true), Verdict::Found);
}

#[test]
fn judge_drops_wildcard_answers() {
    assert_eq!(judge(&Lookup::Answer(vec![WILD]), Some(WILD), false), Verdict::Noise);
    assert_eq!(judge(&Lookup::Answer(vec![OTHER, WILD]), Some(WILD), false), Verdict::Noise);
}

#[test]
fn judge_keeps_wildcard_answers_on_request() {
    assert_eq!(judge(&Lookup::Answer(vec![WILD]), Some(WILD), true), Verdict::Found);
    assert_eq!(judge(&Lookup::Answer(vec![OTHER, WILD]), Some(WILD), true), Verdict::Found);
}

#[test]
fn judge_filters_nothing_without_a_signature() {
    assert_eq!(judge(&Lookup::Answer(vec![WILD]), None, false), Verdict::Found);
    assert_eq!(judge(&Lookup::Answer(vec![WILD, OTHER]), None, false), Verdict::Found);
}

#[test]
fn answer_equal_to_the_probe_is_noise_in_any_order() {
    let probe = Lookup::Answer(vec![WILD, OTHER]);
    let signature = noise_signature(&probe);
    assert_eq!(judge(&Lookup::Answer(vec![WILD, OTHER]), signature, false), Verdict::Noise);
    assert_eq!(judge(&Lookup::Answer(vec![OTHER, WILD]), signature, false), Verdict::Noise);
    assert_eq!(judge(&Lookup::Answer(vec![OTHER, WILD]), signature, true), Verdict::Found);
}
