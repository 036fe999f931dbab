//! Access control: rules per role, grouped into named accesses.
use vstd::prelude::*;

use crate::table::{
    entry_keys, entry_values, find_key, keyed_map, keys_unique, lemma_table_lookup, lemma_table_push,
    lemma_table_remove, lemma_table_update, table_map,
};
use crate::text::{chars_eq, chars_of, string_of};

verus! {

/// A rule whose verdict the library's user decides: `verdict` says what
/// the rule decides for a context, and `evaluate` returns it.
pub trait FallbackRule {
    spec fn verdict(&self, context: AclContext) -> bool;

    fn evaluate(&self, context: &AclContext) -> (r: bool)
        ensures
            r == self.verdict(*context),
    ;
}

/// Who asks for what: the id of the user, of the owner of the resource,
/// and of the user's plan.
#[derive(Debug, Clone)]
pub struct AclContext {
    pub user_id: String,
    pub resource_owner_id: String,
    pub user_plan_id: String,
}

/// A rule of a role.
#[derive(Debug, Clone)]
pub enum AclRule<F> {
    AllowAll,
    DenyAll,
    OwnerOnly,
    Fallback(F),
}

impl<F> AclRule<F> {
    /// The rule's name as it is written out: `AllowAll`, `DenyAll`,
    /// `OwnerOnly`, or `Fallback(DynamicLogic)` for a fallback rule.
    pub fn text(&self) -> (r: &'static str)
        ensures
            r@ == match self {
                AclRule::AllowAll => "AllowAll"@,
                AclRule::DenyAll => "DenyAll"@,
                AclRule::OwnerOnly => "OwnerOnly"@,
                AclRule::Fallback(_) => "Fallback(DynamicLogic)"@,
            },
    {
        match self {
            AclRule::AllowAll => "AllowAll",
            AclRule::DenyAll => "DenyAll",
            AclRule::OwnerOnly => "OwnerOnly",
            AclRule::Fallback(_) => "Fallback(DynamicLogic)",
        }
    }
}

/// The verdict of a rule: allow all, deny all, the owner of the resource
/// only, or the fallback rule's own verdict.
pub open spec fn rule_verdict<F: FallbackRule>(rule: AclRule<F>, context: AclContext) -> bool {
    match rule {
        AclRule::AllowAll => true,
        AclRule::DenyAll => false,
        AclRule::OwnerOnly => context.user_id@ == context.resource_owner_id@,
        AclRule::Fallback(f) => f.verdict(context),
    }
}

impl<F: FallbackRule> AclRule<F> {
    /// The verdict of the rule: allow all, deny all, allow the owner of the
    /// resource only, or what the fallback rule decides.
    pub fn evaluate(&self, context: &AclContext) -> (r: bool)
        ensures
            r == rule_verdict(*self, *context),
    {
        match self {
            AclRule::AllowAll => true,
            AclRule::DenyAll => false,
            AclRule::OwnerOnly => {
                let a = chars_of(context.user_id.as_str());
                let b = chars_of(context.resource_owner_id.as_str());
                chars_eq(&a, &b)
            },
            AclRule::Fallback(rule) => rule.evaluate(context),
        }
    }
}

/// An access: an id, a name and a rule per role.
#[derive(Debug, Clone)]
pub struct AclAccess<F> {
    id: String,
    name: String,
    rules: Vec<(String, AclRule<F>)>,
}

impl<F> AclAccess<F> {
    /// The id.
    pub closed spec fn id_view(&self) -> Seq<char> {
        self.id@
    }

    /// The name.
    pub closed spec fn name_view(&self) -> Seq<char> {
        self.name@
    }

    /// The rule of each role.
    pub closed spec fn rules_view(&self) -> Map<Seq<char>, AclRule<F>> {
        table_map(self.rules@)
    }

    /// No role has two rules.
    pub closed spec fn well_formed(&self) -> bool {
        keys_unique(self.rules@)
    }
}

impl<F: FallbackRule> AclAccess<F> {
    /// An access with no rules.
    pub fn new(id: &str, name: &str) -> (r: AclAccess<F>)
        ensures
            r.well_formed(),
            r.id_view() == id@,
            r.name_view() == name@,
            r.rules_view() == Map::<Seq<char>, AclRule<F>>::empty(),
    {
        let i = chars_of(id);
        let n = chars_of(name);
        let r = AclAccess { id: string_of(&i), name: string_of(&n), rules: Vec::new() };
        proof {
            lemma_keyed_map_empty::<AclRule<F>>(entry_keys(r.rules@), entry_values(r.rules@));
        }
        r
    }

    /// The id.
    pub fn id(&self) -> (r: &str)
        ensures
            r@ == self.id_view(),
    {
        self.id.as_str()
    }

    /// The name.
    pub fn name(&self) -> (r: &str)
        ensures
            r@ == self.name_view(),
    {
        self.name.as_str()
    }

    /// Removes the rule of a role and gives it back; `None` when the role
    /// has none.
    pub fn remove_role(&mut self, role_id: &str) -> (r: Option<AclRule<F>>)
        requires
            old(self).well_formed(),
        ensures
            final(self).well_formed(),
            final(self).id_view() == old(self).id_view(),
            final(self).name_view() == old(self).name_view(),
            final(self).rules_view() == old(self).rules_view().remove(role_id@),
            match r {
                Some(rule) => old(self).rules_view().contains_key(role_id@) && rule
                    == old(self).rules_view()[role_id@],
                None => !old(self).rules_view().contains_key(role_id@),
            },
    {
        let k = chars_of(role_id);
        match find_key(&self.rules, &k) {
            Some(i) => {
                proof {
                    lemma_table_remove(self.rules@, i as int);
                }
                let (_, rule) = self.rules.remove(i);
                Some(rule)
            },
            None => {
                assert(table_map(self.rules@).remove(role_id@) =~= table_map(self.rules@));
                None
            },
        }
    }

    /// Sets the rule of a role, replacing the one it had.
    pub fn add_rule(&mut self, role_id: &str, rule: AclRule<F>)
        requires
            old(self).well_formed(),
        ensures
            final(self).well_formed(),
            final(self).id_view() == old(self).id_view(),
            final(self).name_view() == old(self).name_view(),
            final(self).rules_view() == old(self).rules_view().insert(role_id@, rule),
    {
        let k = chars_of(role_id);
        match find_key(&self.rules, &k) {
            Some(i) => {
                proof {
                    lemma_table_update(self.rules@, i as int, rule);
                }
                let key = string_of(&k);
                assert(key@ == self.rules@[i as int].0@);
                let ghost before = self.rules@;
                self.rules.set(i, (key, rule));
                proof {
                    assert(entry_keys(self.rules@) =~= entry_keys(before.update(
                        i as int,
                        (before[i as int].0, rule),
                    )));
                    assert(entry_values(self.rules@) =~= entry_values(before.update(
                        i as int,
                        (before[i as int].0, rule),
                    )));
                    assert(keys_unique(self.rules@)) by {
                        assert forall|a: int, b: int|
                            0 <= a < self.rules@.len() && 0 <= b < self.rules@.len() && a
                                != b implies self.rules@[a].0@ != self.rules@[b].0@ by {
                            assert(entry_keys(self.rules@)[a] == entry_keys(before)[a]);
                            assert(entry_keys(self.rules@)[b] == entry_keys(before)[b]);
                        }
                    }
                }
            },
            None => {
                let key = string_of(&k);
                proof {
                    lemma_table_push(self.rules@, key, rule);
                }
                self.rules.push((key, rule));
            },
        }
    }

    /// Whether the role is allowed in the context: a role without a rule
    /// is not; otherwise its rule decides.
    pub fn is_permitted(&self, role_id: &str, context: &AclContext) -> (r: bool)
        requires
            self.well_formed(),
        ensures
            !self.rules_view().contains_key(role_id@) ==> !r,
            self.rules_view().contains_key(role_id@) ==> r == rule_verdict(
                self.rules_view()[role_id@],
                *context,
            ),
    {
        let k = chars_of(role_id);
        match find_key(&self.rules, &k) {
            Some(i) => self.rules[i].1.evaluate(context),
            None => false,
        }
    }

    /// The rules, each with its role.
    pub fn get_rules(&self) -> (r: &Vec<(String, AclRule<F>)>)
        ensures
            table_map(r@) == self.rules_view(),
            keys_unique(r@) == self.well_formed(),
    {
        &self.rules
    }
}

proof fn lemma_keyed_map_empty<V>(keys: Seq<Seq<char>>, vals: Seq<V>)
    requires
        keys.len() == 0,
    ensures
        keyed_map(keys, vals) == Map::<Seq<char>, V>::empty(),
{
}

/// Accesses by key.
#[derive(Debug, Clone)]
pub struct Acl<F> {
    collections: Vec<(String, AclAccess<F>)>,
}

impl<F> Acl<F> {
    /// The access under each key.
    pub closed spec fn accesses(&self) -> Map<Seq<char>, AclAccess<F>> {
        table_map(self.collections@)
    }

    /// No key has two accesses, and every access is well formed.
    pub closed spec fn well_formed(&self) -> bool {
        &&& keys_unique(self.collections@)
        &&& forall|i: int|
            0 <= i < self.collections@.len() ==> (#[trigger] self.collections@[i]).1.well_formed()
    }
}

impl<F: FallbackRule> Acl<F> {
    /// No accesses.
    pub fn new() -> (r: Acl<F>)
        ensures
            r.well_formed(),
            r.accesses() == Map::<Seq<char>, AclAccess<F>>::empty(),
    {
        let r = Acl { collections: Vec::new() };
        proof {
            lemma_keyed_map_empty::<AclAccess<F>>(
                entry_keys(r.collections@),
                entry_values(r.collections@),
            );
        }
        r
    }

    /// Whether an access has the key.
    pub fn has_access(&self, access_id: &str) -> (r: bool)
        requires
            self.well_formed(),
        ensures
            r == self.accesses().contains_key(access_id@),
    {
        let k = chars_of(access_id);
        find_key(&self.collections, &k).is_some()
    }

    /// The access under the key.
    pub fn get_access(&self, access_id: &str) -> (r: Option<&AclAccess<F>>)
        requires
            self.well_formed(),
        ensures
            match r {
                Some(a) => self.accesses().contains_key(access_id@) && *a
                    == self.accesses()[access_id@] && a.well_formed(),
                None => !self.accesses().contains_key(access_id@),
            },
    {
        let k = chars_of(access_id);
        match find_key(&self.collections, &k) {
            Some(i) => Some(&self.collections[i].1),
            None => None,
        }
    }

    /// Adds an access under its own id, unless an access already has that
    /// key; either way, gives back the access under the key.
    pub fn define_access(&mut self, access: AclAccess<F>) -> (r: &AclAccess<F>)
        requires
            old(self).well_formed(),
            access.well_formed(),
        ensures
            final(self).well_formed(),
            old(self).accesses().contains_key(access.id_view()) ==> final(self).accesses()
                == old(self).accesses(),
            !old(self).accesses().contains_key(access.id_view()) ==> final(self).accesses()
                == old(self).accesses().insert(access.id_view(), access),
            *r == final(self).accesses()[access.id_view()],
            final(self).accesses().contains_key(access.id_view()),
    {
        let k = chars_of(access.id.as_str());
        match find_key(&self.collections, &k) {
            Some(i) => &self.collections[i].1,
            None => {
                let key = string_of(&k);
                proof {
                    lemma_table_push(self.collections@, key, access);
                }
                self.collections.push((key, access));
                let n = self.collections.len();
                proof {
                    lemma_table_lookup(self.collections@, k@);
                    assert(self.collections@[n - 1].0@ == k@);
                }
                &self.collections[n - 1].1
            },
        }
    }

    /// Replaces the rule of a role in the access under the key; `false`
    /// when there is no such access.
    pub fn add_rule_to(&mut self, access_id: &str, role_id: &str, rule: AclRule<F>) -> (r: bool)
        requires
            old(self).well_formed(),
        ensures
            final(self).well_formed(),
            r == old(self).accesses().contains_key(access_id@),
            final(self).accesses().dom() == old(self).accesses().dom(),
            forall|k: Seq<char>|
                #[trigger] final(self).accesses().contains_key(k) && k != access_id@ ==> final(self).accesses()[k] == old(self).accesses()[k],
            r ==> final(self).accesses()[access_id@].rules_view() == old(self).accesses()[access_id@].rules_view().insert(role_id@, rule),
            r ==> final(self).accesses()[access_id@].id_view() == old(self).accesses()[access_id@].id_view(),
    {
        let k = chars_of(access_id);
        match find_key(&self.collections, &k) {
            Some(i) => {
                let ghost before = self.collections@;
                let (key, mut access) = self.collections.remove(i);
                access.add_rule(role_id, rule);
                self.collections.insert(i, (key, access));
                proof {
                    assert(self.collections@ =~= before.update(i as int, (before[i as int].0, access)));
                    lemma_table_update(before, i as int, access);
                    assert forall|j: int| 0 <= j < self.collections@.len() implies (
                    #[trigger] self.collections@[j]).1.well_formed() by {
                        if j != i {
                            assert(self.collections@[j] == before[j]);
                        }
                    }
                }
                true
            },
            None => false,
        }
    }

    /// Whether the role is allowed in the context by the access under the
    /// key: not when there is no such access; otherwise as the access's
    /// rule for the role decides.
    pub fn check(&self, access_id: &str, role_id: &str, context: &AclContext) -> (r: bool)
        requires
            self.well_formed(),
        ensures
            !self.accesses().contains_key(access_id@) ==> !r,
            self.accesses().contains_key(access_id@) && !self.accesses()[access_id@].rules_view().contains_key(role_id@) ==> !r,
            self.accesses().contains_key(access_id@) && self.accesses()[access_id@].rules_view().contains_key(role_id@) ==> r == rule_verdict(
                self.accesses()[access_id@].rules_view()[role_id@],
                *context,
            ),
    {
        let k = chars_of(access_id);
        match find_key(&self.collections, &k) {
            Some(i) => self.collections[i].1.is_permitted(role_id, context),
            None => false,
        }
    }
}

/// After a rule is set for a role, the role has exactly that rule, and
/// every other role keeps its own.
pub proof fn lemma_add_rule_sets<F>(
    rules: Map<Seq<char>, AclRule<F>>,
    role: Seq<char>,
    rule: AclRule<F>,
    other: Seq<char>,
)
    ensures
        rules.insert(role, rule).contains_key(role),
        rules.insert(role, rule)[role] == rule,
        other != role ==> (rules.insert(role, rule).contains_key(other) == rules.contains_key(
            other,
        )),
        other != role && rules.contains_key(other) ==> rules.insert(role, rule)[other]
            == rules[other],
{
}

/// After the rule of a role is removed, the role has no rule, so it is
/// refused; other roles keep theirs.
pub proof fn lemma_remove_role_denies<F>(
    rules: Map<Seq<char>, AclRule<F>>,
    role: Seq<char>,
    other: Seq<char>,
)
    ensures
        !rules.remove(role).contains_key(role),
        other != role ==> rules.remove(role).contains_key(other) == rules.contains_key(other),
        other != role && rules.contains_key(other) ==> rules.remove(role)[other] == rules[other],
{
}

/// Removing a rule that was just set gives back the rule and leaves the
/// other roles as they were before it was set.
pub proof fn lemma_add_then_remove<F>(
    rules: Map<Seq<char>, AclRule<F>>,
    role: Seq<char>,
    rule: AclRule<F>,
)
    ensures
        rules.insert(role, rule)[role] == rule,
        rules.insert(role, rule).remove(role) == rules.remove(role),
{
    assert(rules.insert(role, rule).remove(role) =~= rules.remove(role));
}

} // verus!
