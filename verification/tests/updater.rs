use catalog_cache::{PendingUpdate, UpdateError, UpdateInfo};

#[test]
fn pending_update_defaults_to_none() {
    let pending = PendingUpdate::default();
    assert!(!pending.is_pending());
}

#[test]
fn update_error_no_pending_display_message() {
    let error = UpdateError::NoPendingUpdate;
    assert_eq!(error.message(), "There is no pending update");
}

#[test]
fn take_clears_the_cell() {
    let mut pending = PendingUpdate::default();
    pending.put(UpdateInfo {
        version: "1.2.3".to_string(),
        body: Some("Release notes".to_string()),
    });
    assert!(pending.is_pending());
    let taken = pending.take().unwrap();
    assert_eq!(taken.version, "1.2.3");
    assert_eq!(taken.body.as_deref(), Some("Release notes"));
    // Asking twice without a refresh yields nothing.
    assert!(pending.take().is_none());
    assert!(!pending.is_pending());
}

#[test]
fn take_for_install_requires_a_pending_update() {
    let mut pending = PendingUpdate::default();
    assert!(matches!(
        pending.take_for_install(),
        Err(UpdateError::NoPendingUpdate)
    ));
    pending.put(UpdateInfo { version: "0.1.0".to_string(), body: None });
    let got = pending.take_for_install().unwrap();
    assert_eq!(got.version, "0.1.0");
    assert!(got.body.is_none());
    // The cell is consumed: a second install attempt fails again.
    assert!(matches!(
        pending.take_for_install(),
        Err(UpdateError::NoPendingUpdate)
    ));
}
