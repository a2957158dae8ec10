use coepi_core::composition_root::bootstrap;
use coepi_core::core_log::{CoreLogLevel, CoreLogMessageThreadSafe};
use coepi_core::errors::ServicesError;

#[test]
fn first_bootstrap_gives_the_database_path() {
    assert_eq!(
        bootstrap("/data/user/0/org.coepi", false),
        Ok("/data/user/0/org.coepi/db.sqlite".to_owned())
    );
    assert_eq!(bootstrap("", false), Ok("/db.sqlite".to_owned()));
}

#[test]
fn second_bootstrap_is_refused() {
    assert_eq!(
        bootstrap("/data", true),
        Err(ServicesError::General("Couldn't initialize dependencies".to_owned()))
    );
}

#[test]
fn log_message_owns_its_text() {
    let message = CoreLogMessageThreadSafe {
        level: CoreLogLevel::Warn,
        text: "No callback registered".to_owned(),
        time: 1590528300,
    };
    let copy = message.clone();
    assert_eq!(copy, message);
    assert_eq!(copy.level, CoreLogLevel::Warn);
    assert_ne!(CoreLogLevel::Trace, CoreLogLevel::Error);
}
