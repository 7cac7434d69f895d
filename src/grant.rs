use vstd::prelude::*;

verus! {

/// The kind of object that grants permissions: a namespaced binding or a
/// cluster-wide one.
#[derive(Clone, Copy, Debug, PartialEq, Eq, Hash, Structural)]
pub enum GrantType {
    RoleBinding,
    ClusterRoleBinding,
}

/// The kind of object that holds permission rules: a namespaced role or a
/// cluster-wide one.
#[derive(Clone, Copy, Debug, PartialEq, Eq, Hash, Structural)]
pub enum IDType {
    Role,
    ClusterRole,
}

/// The name under which a grant kind is known to the cluster.
pub open spec fn grant_type_text(t: GrantType) -> Seq<char> {
    match t {
        GrantType::RoleBinding => "RoleBinding"@,
        GrantType::ClusterRoleBinding => "ClusterRoleBinding"@,
    }
}

/// The name under which a rule-set kind is known to the cluster.
pub open spec fn id_type_text(t: IDType) -> Seq<char> {
    match t {
        IDType::Role => "Role"@,
        IDType::ClusterRole => "ClusterRole"@,
    }
}

impl GrantType {
    /// The kind's name, as the cluster spells it.
    pub fn to_string(&self) -> (r: String)
        ensures
            r@ == grant_type_text(*self),
    {
        match self {
            GrantType::RoleBinding => "RoleBinding".to_string(),
            GrantType::ClusterRoleBinding => "ClusterRoleBinding".to_string(),
        }
    }
}

impl IDType {
    /// The kind's name, as the cluster spells it.
    pub fn to_string(&self) -> (r: String)
        ensures
            r@ == id_type_text(*self),
    {
        match self {
            IDType::Role => "Role".to_string(),
            IDType::ClusterRole => "ClusterRole".to_string(),
        }
    }
}

/// The text of an optional string.
pub open spec fn opt_view(o: Option<String>) -> Option<Seq<char>> {
    match o {
        Some(s) => Some(s@),
        None => None,
    }
}

/// Equality of optional strings by their text.
pub fn opt_str_eq(a: &Option<String>, b: &Option<String>) -> (r: bool)
    ensures
        r == (opt_view(*a) == opt_view(*b)),
{
    match (a, b) {
        (Some(x), Some(y)) => *x == *y,
        (None, None) => true,
        _ => false,
    }
}

/// A copy of an optional string with the same text.
pub fn opt_str_copy(a: &Option<String>) -> (r: Option<String>)
    ensures
        opt_view(r) == opt_view(*a),
{
    match a {
        Some(x) => Some(x.clone()),
        None => None,
    }
}

/// What identifies a rule set: its kind, its namespace (only for a
/// namespaced role) and its name.
pub struct IdModel {
    pub kind: IDType,
    pub namespace: Option<Seq<char>>,
    pub name: Seq<char>,
}

impl IdModel {
    /// A namespace is present exactly for a namespaced role.
    pub open spec fn well_formed(self) -> bool {
        self.namespace is Some <==> self.kind == IDType::Role
    }
}

/// Identifier of a rule set (a role or a cluster role). It holds no rules,
/// so that rules are stored once however many grants point at them.
#[derive(Debug, Hash)]
pub struct RBACId {
    /// The kind of object that holds the rules.
    pub rbac_type: IDType,
    /// The namespace of the object; none for a cluster-wide one.
    pub namespace: Option<String>,
    /// The name of the object.
    pub name: String,
}

impl View for RBACId {
    type V = IdModel;

    open spec fn view(&self) -> IdModel {
        IdModel { kind: self.rbac_type, namespace: opt_view(self.namespace), name: self.name@ }
    }
}

impl RBACId {
    /// A copy with the same view.
    pub fn duplicate(&self) -> (r: RBACId)
        ensures
            r@ == self@,
    {
        RBACId {
            rbac_type: self.rbac_type,
            namespace: opt_str_copy(&self.namespace),
            name: self.name.clone(),
        }
    }
}

impl PartialEq for RBACId {
    fn eq(&self, o: &RBACId) -> (r: bool) {
        self.rbac_type == o.rbac_type && opt_str_eq(&self.namespace, &o.namespace) && self.name
            == o.name
    }
}

impl vstd::std_specs::cmp::PartialEqSpecImpl for RBACId {
    open spec fn obeys_eq_spec() -> bool {
        true
    }

    open spec fn eq_spec(&self, o: &RBACId) -> bool {
        self@ == o@
    }
}

impl Eq for RBACId {

}

/// What identifies a grant and what it points at.
pub struct GrantModel {
    pub kind: GrantType,
    pub namespace: Option<Seq<char>>,
    pub name: Seq<char>,
    pub target: IdModel,
}

/// The key by which a deletion names a grant: kind, namespace and name.
pub struct GrantKey {
    pub kind: GrantType,
    pub namespace: Option<String>,
    pub name: String,
}

/// The text of a grant key.
pub struct KeyModel {
    pub kind: GrantType,
    pub namespace: Option<Seq<char>>,
    pub name: Seq<char>,
}

impl View for GrantKey {
    type V = KeyModel;

    open spec fn view(&self) -> KeyModel {
        KeyModel { kind: self.kind, namespace: opt_view(self.namespace), name: self.name@ }
    }
}

impl GrantModel {
    /// A namespace is present exactly for a namespaced binding, and the target
    /// is well formed.
    pub open spec fn well_formed(self) -> bool {
        &&& (self.namespace is Some <==> self.kind == GrantType::RoleBinding)
        &&& self.target.well_formed()
    }

    /// The deletion key of this grant.
    pub open spec fn key(self) -> KeyModel {
        KeyModel { kind: self.kind, namespace: self.namespace, name: self.name }
    }
}

/// A binding object that grants the rules of one rule set: its kind,
/// namespace and name, and the rule set it points at.
#[derive(Debug, Hash)]
pub struct RBACGrant {
    /// The kind of binding.
    pub grant_type: GrantType,
    /// The namespace of the binding; none for a cluster-wide one.
    pub namespace: Option<String>,
    /// The name of the binding, unique for its kind within its namespace.
    pub name: String,
    /// The rule set that the binding grants.
    pub permissions_id: RBACId,
}

impl View for RBACGrant {
    type V = GrantModel;

    open spec fn view(&self) -> GrantModel {
        GrantModel {
            kind: self.grant_type,
            namespace: opt_view(self.namespace),
            name: self.name@,
            target: self.permissions_id@,
        }
    }
}

impl RBACGrant {
    /// A copy with the same view.
    pub fn duplicate(&self) -> (r: RBACGrant)
        ensures
            r@ == self@,
    {
        RBACGrant {
            grant_type: self.grant_type,
            namespace: opt_str_copy(&self.namespace),
            name: self.name.clone(),
            permissions_id: self.permissions_id.duplicate(),
        }
    }

    /// The deletion key of this grant.
    pub fn key(&self) -> (r: GrantKey)
        ensures
            r@ == self@.key(),
    {
        GrantKey {
            kind: self.grant_type,
            namespace: opt_str_copy(&self.namespace),
            name: self.name.clone(),
        }
    }

    /// Whether this grant has the given deletion key.
    pub fn has_key(&self, k: &GrantKey) -> (r: bool)
        ensures
            r == (self@.key() == k@),
    {
        self.grant_type == k.kind && opt_str_eq(&self.namespace, &k.namespace) && self.name
            == k.name
    }
}

impl PartialEq for RBACGrant {
    fn eq(&self, o: &RBACGrant) -> (r: bool) {
        self.grant_type == o.grant_type && opt_str_eq(&self.namespace, &o.namespace) && self.name
            == o.name && self.permissions_id.eq(&o.permissions_id)
    }
}

impl vstd::std_specs::cmp::PartialEqSpecImpl for RBACGrant {
    open spec fn obeys_eq_spec() -> bool {
        true
    }

    open spec fn eq_spec(&self, o: &RBACGrant) -> bool {
        self@ == o@
    }
}

impl Eq for RBACGrant {

}

} // verus!
