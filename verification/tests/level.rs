use logcat::Level;

#[test]
fn level() {
    assert!(!Level::is_debug_or_higher(Level::Verbose));
    assert!(Level::is_debug_or_higher(Level::Debug));
    assert!(Level::is_debug_or_higher(Level::Info));
    assert!(Level::is_debug_or_higher(Level::Warning));
    assert!(Level::is_debug_or_higher(Level::Error));
    assert!(Level::is_debug_or_higher(Level::Fatal));

    assert!(!Level::is_info_or_higher(Level::Verbose));
    assert!(!Level::is_info_or_higher(Level::Debug));
    assert!(Level::is_info_or_higher(Level::Info));
    assert!(Level::is_info_or_higher(Level::Warning));
    assert!(Level::is_info_or_higher(Level::Error));
    assert!(Level::is_info_or_higher(Level::Fatal));

    assert!(!Level::is_warning_or_higher(Level::Verbose));
    assert!(!Level::is_warning_or_higher(Level::Debug));
    assert!(!Level::is_warning_or_higher(Level::Info));
    assert!(Level::is_warning_or_higher(Level::Warning));
    assert!(Level::is_warning_or_higher(Level::Error));
    assert!(Level::is_warning_or_higher(Level::Fatal));

    assert!(!Level::is_error_or_higher(Level::Verbose));
    assert!(!Level::is_error_or_higher(Level::Debug));
    assert!(!Level::is_error_or_higher(Level::Info));
    assert!(!Level::is_error_or_higher(Level::Warning));
    assert!(Level::is_error_or_higher(Level::Error));
    assert!(Level::is_error_or_higher(Level::Fatal));
}

#[test]
fn level_short_codes() {
    assert_eq!(Level::short(Level::Verbose), "V");
    assert_eq!(Level::short(Level::Debug), "D");
    assert_eq!(Level::short(Level::Info), "I");
    assert_eq!(Level::short(Level::Warning), "W");
    assert_eq!(Level::short(Level::Error), "E");
    assert_eq!(Level::short(Level::Fatal), "F");
}

#[test]
fn level_thresholds_monotone() {
    let all = [
        Level::Verbose,
        Level::Debug,
        Level::Info,
        Level::Warning,
        Level::Error,
        Level::Fatal,
    ];
    for level in all {
        if Level::is_error_or_higher(level) {
            assert!(Level::is_warning_or_higher(level));
        }
        if Level::is_warning_or_higher(level) {
            assert!(Level::is_info_or_higher(level));
        }
        if Level::is_info_or_higher(level) {
            assert!(Level::is_debug_or_higher(level));
        }
    }
}
