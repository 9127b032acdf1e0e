use frontend_analyzer::capabilities::{Capability, CAPABILITIES};

#[test]
fn test_capabilities_list() {
    assert_eq!(CAPABILITIES.len(), 4);
    assert!(CAPABILITIES.contains(&"referenced"));
    assert!(CAPABILITIES.contains(&"cssclass"));
    assert!(CAPABILITIES.contains(&"cssvar"));
    assert!(CAPABILITIES.contains(&"dependency"));
}

#[test]
fn test_capability_names() {
    assert_eq!(Capability::from_name("cssvar"), Some(Capability::CssVar));
    assert_eq!(Capability::from_name("CssVar"), None);
    for name in CAPABILITIES {
        assert!(Capability::from_name(name).is_some());
    }
}
