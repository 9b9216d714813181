use lean::catalog::{built_in_agents, built_in_skills, AgentDescriptor};

#[test]
fn catalog_lists_the_built_in_agents_and_no_skills() {
    assert!(built_in_skills().is_empty());
    let roster = built_in_agents();
    assert_eq!(
        roster.agents,
        vec![AgentDescriptor {
            id: "developer".to_string(),
            role: "implementation".to_string(),
            description: "Default LEAN implementation agent profile".to_string(),
        }]
    );
}
