use odilia_common::{ElementType, ModeFromStrError, ScreenReaderEventType, ScreenReaderMode};

#[test]
fn mode_names_are_exact() {
    assert_eq!(ScreenReaderMode::new("BrowseMode".to_string()), Ok(ScreenReaderMode::BrowseMode));
    assert_eq!(ScreenReaderMode::new("FocusMode".to_string()), Ok(ScreenReaderMode::FocusMode));
    assert_eq!(ScreenReaderMode::new("CommandMode".to_string()), Ok(ScreenReaderMode::CommandMode));
    assert_eq!(
        ScreenReaderMode::new("ObjectNavigationMode".to_string()),
        Ok(ScreenReaderMode::ObjectNavigationMode)
    );
}

#[test]
fn unknown_mode_names_are_rejected() {
    assert_eq!(
        ScreenReaderMode::new("browsemode".to_string()),
        Err(ModeFromStrError::ModeNameNotFound)
    );
    assert_eq!(ScreenReaderMode::new(String::new()), Err(ModeFromStrError::ModeNameNotFound));
    assert_eq!(
        "FocusMode ".parse::<ScreenReaderMode>(),
        Err(ModeFromStrError::ModeNameNotFound)
    );
    assert_eq!("FocusMode".parse::<ScreenReaderMode>(), Ok(ScreenReaderMode::FocusMode));
}

#[test]
fn events_carry_modes_and_elements() {
    let e = ScreenReaderEventType::ChangeMode(ScreenReaderMode::BrowseMode);
    assert_eq!(e, ScreenReaderEventType::ChangeMode(ScreenReaderMode::BrowseMode));
    assert_ne!(
        ScreenReaderEventType::Next(ElementType::HeadingLevel2),
        ScreenReaderEventType::Previous(ElementType::HeadingLevel2)
    );
}
