use stargazers::report::GalaxyReport;

#[test]
fn empty_bag_reads_empty() {
    let r = GalaxyReport::Bag {
        explorer_id: 1,
        basic: vec![],
        complex: vec![],
    };
    assert_eq!(
        r.describe(),
        vec!["Explorer 1 bag:".to_string(), "  (empty)".to_string()]
    );
}

#[test]
fn bag_lists_only_nonempty_sections() {
    let r = GalaxyReport::Bag {
        explorer_id: 7,
        basic: vec![("Oxygen".into(), 2)],
        complex: vec![],
    };
    let lines = r.describe();
    assert_eq!(lines[0], "Explorer 7 bag:");
    assert!(lines.iter().any(|l| l.contains("Oxygen x2")));
    assert!(!lines.iter().any(|l| l.contains("complex")));
}

#[test]
fn supported_resources_none_is_explicit() {
    let r = GalaxyReport::SupportedResources {
        explorer_id: 3,
        resources: vec![],
    };
    assert_eq!(
        r.describe(),
        vec!["Explorer 3 can generate: (none)".to_string()]
    );
}
