use rhq::RefreshCommand;

#[test]
fn refresh_command_keeps_verbosity() {
    assert!(RefreshCommand::new(true).verbose());
    assert!(!RefreshCommand::new(false).verbose());
}
