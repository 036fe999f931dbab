use tray_node::acl::{Acl, AclAccess, AclContext, AclRule, FallbackRule};

#[derive(Debug, Clone)]
struct PlanIs(&'static str);

impl FallbackRule for PlanIs {
    fn verdict(&self, context: AclContext) -> bool {
        context.user_plan_id == self.0
    }

    fn evaluate(&self, context: &AclContext) -> bool {
        context.user_plan_id == self.0
    }
}

fn ctx(user: &str, owner: &str, plan: &str) -> AclContext {
    AclContext {
        user_id: user.to_string(),
        resource_owner_id: owner.to_string(),
        user_plan_id: plan.to_string(),
    }
}

#[test]
fn rules_evaluate() {
    let c = ctx("u1", "u2", "pro");
    assert!(AclRule::<PlanIs>::AllowAll.evaluate(&c));
    assert!(!AclRule::<PlanIs>::DenyAll.evaluate(&c));
    assert!(!AclRule::<PlanIs>::OwnerOnly.evaluate(&c));
    assert!(AclRule::<PlanIs>::OwnerOnly.evaluate(&ctx("u2", "u2", "")));
    assert!(AclRule::Fallback(PlanIs("pro")).evaluate(&c));
    assert!(!AclRule::Fallback(PlanIs("free")).evaluate(&c));
}

#[test]
fn access_rules_per_role() {
    let mut a: AclAccess<PlanIs> = AclAccess::new("posts", "Posts");
    assert_eq!(a.id(), "posts");
    assert_eq!(a.name(), "Posts");
    let c = ctx("u1", "u1", "free");
    assert!(!a.is_permitted("editor", &c));
    a.add_rule("editor", AclRule::AllowAll);
    assert!(a.is_permitted("editor", &c));
    a.add_rule("editor", AclRule::DenyAll);
    assert!(!a.is_permitted("editor", &c));
    assert_eq!(a.get_rules().len(), 1);
    a.add_rule("owner", AclRule::OwnerOnly);
    assert!(a.is_permitted("owner", &c));
    assert!(!a.is_permitted("owner", &ctx("u1", "u9", "free")));
    let removed = a.remove_role("editor");
    assert!(matches!(removed, Some(AclRule::DenyAll)));
    assert!(a.remove_role("editor").is_none());
    assert!(!a.is_permitted("editor", &c));
    assert!(a.is_permitted("owner", &c));
}

#[test]
fn acl_checks_through_accesses() {
    let mut acl: Acl<PlanIs> = Acl::new();
    assert!(!acl.has_access("posts"));
    let mut posts = AclAccess::new("posts", "Posts");
    posts.add_rule("member", AclRule::Fallback(PlanIs("pro")));
    let defined = acl.define_access(posts);
    assert_eq!(defined.name(), "Posts");
    assert!(acl.has_access("posts"));
    let again = acl.define_access(AclAccess::new("posts", "Other"));
    assert_eq!(again.name(), "Posts");
    assert!(acl.check("posts", "member", &ctx("a", "b", "pro")));
    assert!(!acl.check("posts", "member", &ctx("a", "b", "free")));
    assert!(!acl.check("posts", "guest", &ctx("a", "b", "pro")));
    assert!(!acl.check("pages", "member", &ctx("a", "b", "pro")));
    assert!(acl.add_rule_to("posts", "guest", AclRule::AllowAll));
    assert!(acl.check("posts", "guest", &ctx("a", "b", "free")));
    assert!(!acl.add_rule_to("pages", "guest", AclRule::AllowAll));
    assert_eq!(acl.get_access("posts").unwrap().id(), "posts");
    assert!(acl.get_access("pages").is_none());
}
