use cubic::settings::Settings;

#[test]
fn default_settings() {
    let s = Settings::default();
    assert_eq!(s.microsoft_client_id, "");
    assert!(s.selected_instance_id.is_none());
    assert_eq!(s.memory_mib, 2048);
    assert!(s.java_path_override.is_none());
    assert_eq!(s.theme, "grass");
}

#[test]
fn selecting_and_forgetting_instances() {
    let mut s = Settings::default();
    s.select_instance("a");
    assert_eq!(s.selected_instance_id.as_deref(), Some("a"));
    assert!(!s.forget_instance("b"));
    assert_eq!(s.selected_instance_id.as_deref(), Some("a"));
    assert!(s.forget_instance("a"));
    assert!(s.selected_instance_id.is_none());
    assert!(!s.forget_instance("a"));
    assert_eq!(s.memory_mib, 2048);
}
