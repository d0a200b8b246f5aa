use drinkbot::trigger::is_trigger;

#[test]
fn exact_trigger_fires() {
    assert!(is_trigger("!drink"));
}

#[test]
fn longer_text_does_not_fire() {
    assert!(!is_trigger("!drinks"));
    assert!(!is_trigger("hello !drink"));
    assert!(!is_trigger("!drink please"));
}

#[test]
fn case_variants_do_not_fire() {
    assert!(!is_trigger("!Drink"));
    assert!(!is_trigger("!DRINK"));
    assert!(!is_trigger("!drinK"));
}

#[test]
fn surrounding_white_space_does_not_fire() {
    assert!(!is_trigger(" !drink"));
    assert!(!is_trigger("!drink "));
    assert!(!is_trigger("!drink\n"));
}

#[test]
fn shorter_or_other_text_does_not_fire() {
    assert!(!is_trigger(""));
    assert!(!is_trigger("!"));
    assert!(!is_trigger("!drin"));
    assert!(!is_trigger("drink"));
    assert!(!is_trigger("/random"));
    assert!(!is_trigger("\u{ff01}drink"));
}
