use flask::brightness::Brightness;

#[test]
fn lightness_order() {
    assert!(Brightness::Normal.is_lighter(Brightness::Dim));
    assert!(!Brightness::VeryDark.is_lighter(Brightness::Normal));
    assert!(Brightness::Dim.is_lighter(Brightness::Dark));
    assert!(!Brightness::Dark.is_lighter(Brightness::Dark));
}

#[test]
fn darker_is_negation_of_lighter() {
    let all = [Brightness::Normal, Brightness::Dim, Brightness::Dark, Brightness::VeryDark];
    for a in all {
        for b in all {
            assert_eq!(a.is_darker(b), !a.is_lighter(b));
        }
    }
}
