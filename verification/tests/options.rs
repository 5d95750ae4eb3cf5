use wayback_submit::level::LevelFilter;
use wayback_submit::options::{Credentials, Verbosity};

fn verbosity(debug: bool, verbose: bool, quiet: bool) -> Verbosity {
    Verbosity { debug, verbose, quiet }
}

fn credentials(access_key: Option<&str>, secret_key: Option<&str>) -> Credentials {
    Credentials {
        access_key: access_key.map(|key| key.to_string()),
        secret_key: secret_key.map(|key| key.to_string()),
    }
}

#[test]
fn no_switch_means_info() {
    assert_eq!(verbosity(false, false, false).to_filter(), LevelFilter::Info);
}

#[test]
fn each_switch_has_its_threshold() {
    assert_eq!(verbosity(true, false, false).to_filter(), LevelFilter::Trace);
    assert_eq!(verbosity(false, true, false).to_filter(), LevelFilter::Debug);
    assert_eq!(verbosity(false, false, true).to_filter(), LevelFilter::Warn);
}

#[test]
fn debug_goes_before_verbose_and_quiet() {
    assert_eq!(verbosity(true, true, false).to_filter(), LevelFilter::Trace);
    assert_eq!(verbosity(true, false, true).to_filter(), LevelFilter::Trace);
    assert_eq!(verbosity(true, true, true).to_filter(), LevelFilter::Trace);
    assert_eq!(verbosity(false, true, true).to_filter(), LevelFilter::Debug);
}

#[test]
fn given_keys_go_before_the_fallback() {
    let merged = credentials(Some("flag-a"), Some("flag-s"))
        .or(credentials(Some("env-a"), Some("env-s")));
    assert_eq!(merged, credentials(Some("flag-a"), Some("flag-s")));
}

#[test]
fn missing_keys_come_from_the_fallback() {
    let merged = credentials(None, Some("flag-s")).or(credentials(Some("env-a"), Some("env-s")));
    assert_eq!(merged, credentials(Some("env-a"), Some("flag-s")));
    let merged = credentials(None, None).or(credentials(Some("env-a"), None));
    assert_eq!(merged, credentials(Some("env-a"), None));
}

#[test]
fn pair_needs_both_keys() {
    assert_eq!(
        credentials(Some("a"), Some("s")).pair(),
        Some(("a".to_string(), "s".to_string()))
    );
    assert_eq!(credentials(Some("a"), None).pair(), None);
    assert_eq!(credentials(None, Some("s")).pair(), None);
    assert_eq!(credentials(None, None).pair(), None);
}
