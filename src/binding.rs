use crate::grant::{opt_view, GrantModel, GrantType, IDType, IdModel, RBACGrant, RBACId};
use crate::rules::{Rule, texts};
use vstd::prelude::*;

verus! {

/// A binding object as the cluster reports it: the fields that decide which
/// grant it makes and to whom.
#[derive(Debug)]
pub struct BindingObject {
    /// Whether the object is a namespaced or a cluster-wide binding.
    pub grant_type: GrantType,
    /// The object's name, if it has one.
    pub name: Option<String>,
    /// The object's namespace, if it has one.
    pub namespace: Option<String>,
    /// The kind of rule set that the binding refers to, as text.
    pub role_ref_kind: String,
    /// The name of the rule set that the binding refers to.
    pub role_ref_name: String,
    /// The identities that the binding grants the rules to.
    pub subjects: Vec<String>,
}

/// The text of a binding object.
pub struct BindingModel {
    pub kind: GrantType,
    pub name: Option<Seq<char>>,
    pub namespace: Option<Seq<char>>,
    pub role_ref_kind: Seq<char>,
    pub role_ref_name: Seq<char>,
    pub subjects: Seq<Seq<char>>,
}

impl View for BindingObject {
    type V = BindingModel;

    open spec fn view(&self) -> BindingModel {
        BindingModel {
            kind: self.grant_type,
            name: opt_view(self.name),
            namespace: opt_view(self.namespace),
            role_ref_kind: self.role_ref_kind@,
            role_ref_name: self.role_ref_name@,
            subjects: texts(self.subjects@),
        }
    }
}

/// Why a binding object cannot be turned into a grant.
#[derive(Clone, Copy, Debug, PartialEq, Eq, Structural)]
pub enum ParseError {
    /// The object has no name.
    MissingName,
    /// A namespaced binding has no namespace.
    MissingNamespace,
    /// The binding refers to a kind of rule set that this binding kind cannot hold.
    UnsupportedRefKind,
}

/// The grant that a binding object makes, or why it makes none.
///
/// A namespaced binding refers to a role in its own namespace or to a cluster
/// role; a cluster-wide binding refers to a cluster role only.
pub open spec fn parse_spec(b: BindingModel) -> Result<GrantModel, ParseError> {
    if b.name is None {
        Err(ParseError::MissingName)
    } else if b.kind == GrantType::RoleBinding && b.namespace is None {
        Err(ParseError::MissingNamespace)
    } else {
        let namespace = if b.kind == GrantType::RoleBinding {
            b.namespace
        } else {
            None
        };
        if b.role_ref_kind == "Role"@ && b.kind == GrantType::RoleBinding {
            Ok(
                GrantModel {
                    kind: b.kind,
                    namespace,
                    name: b.name->Some_0,
                    target: IdModel {
                        kind: IDType::Role,
                        namespace: b.namespace,
                        name: b.role_ref_name,
                    },
                },
            )
        } else if b.role_ref_kind == "ClusterRole"@ {
            Ok(
                GrantModel {
                    kind: b.kind,
                    namespace,
                    name: b.name->Some_0,
                    target: IdModel { kind: IDType::ClusterRole, namespace: None, name: b.role_ref_name },
                },
            )
        } else {
            Err(ParseError::UnsupportedRefKind)
        }
    }
}

/// A grant made by a namespaced binding that refers to a role points at a
/// role in the binding's own namespace; a grant made by a cluster-wide
/// binding points at a rule set with no namespace.
pub proof fn lemma_target_namespace(b: BindingModel)
    ensures
        parse_spec(b) is Ok ==> {
            let g = parse_spec(b)->Ok_0;
            &&& g.well_formed()
            &&& (b.kind == GrantType::RoleBinding && b.role_ref_kind == "Role"@) ==> g.target.namespace
                == b.namespace
            &&& b.kind == GrantType::ClusterRoleBinding ==> g.target.namespace is None
        },
{
}

/// Whether a string reads exactly as the given text.
fn text_is(s: &String, lit: &str) -> (r: bool)
    ensures
        r == (s@ == lit@),
{
    let t = lit.to_string();
    *s == t
}

/// Turns a binding object into the grant it makes.
pub fn parse_grant(b: &BindingObject) -> (r: Result<RBACGrant, ParseError>)
    ensures
        match r {
            Ok(g) => parse_spec(b@) == Ok::<GrantModel, ParseError>(g@),
            Err(e) => parse_spec(b@) == Err::<GrantModel, ParseError>(e),
        },
        r is Ok ==> r->Ok_0@.well_formed(),
{
    let name = match &b.name {
        Some(n) => n.clone(),
        None => return Err(ParseError::MissingName),
    };
    let namespace: Option<String> = match &b.namespace {
        Some(ns) => Some(ns.clone()),
        None => {
            if b.grant_type == GrantType::RoleBinding {
                return Err(ParseError::MissingNamespace);
            }
            None
        },
    };
    let is_role_binding = b.grant_type == GrantType::RoleBinding;
    let target = if text_is(&b.role_ref_kind, "Role") && is_role_binding {
        RBACId { rbac_type: IDType::Role, namespace: namespace.clone(), name: b.role_ref_name.clone() }
    } else if text_is(&b.role_ref_kind, "ClusterRole") {
        RBACId { rbac_type: IDType::ClusterRole, namespace: None, name: b.role_ref_name.clone() }
    } else {
        return Err(ParseError::UnsupportedRefKind);
    };
    let grant_namespace = if is_role_binding {
        namespace
    } else {
        None
    };
    Ok(RBACGrant { grant_type: b.grant_type, namespace: grant_namespace, name, permissions_id: target })
}

/// Where the rules of a rule set are looked up.
#[derive(Debug)]
pub enum Lookup {
    /// A role, by namespace and name.
    Namespaced { namespace: String, name: String },
    /// A cluster role, by name.
    Cluster { name: String },
}

/// The lookup that fetches the rules of `id`: a namespaced lookup for a role,
/// a cluster-wide one for a cluster role.
pub open spec fn lookup_matches(id: IdModel, l: Lookup) -> bool {
    match l {
        Lookup::Namespaced { namespace, name } => id.kind == IDType::Role && id.namespace == Some(
            namespace@,
        ) && id.name == name@,
        Lookup::Cluster { name } => id.kind == IDType::ClusterRole && id.name == name@,
    }
}

/// Chooses the lookup that fetches the rules of a rule set.
pub fn lookup_for(id: &RBACId) -> (r: Lookup)
    requires
        id@.well_formed(),
    ensures
        lookup_matches(id@, r),
{
    match (&id.rbac_type, &id.namespace) {
        (IDType::Role, Some(ns)) => Lookup::Namespaced { namespace: ns.clone(), name: id.name.clone() },
        _ => Lookup::Cluster { name: id.name.clone() },
    }
}

/// What a lookup of a rule set came back with.
#[derive(Debug)]
pub enum FetchOutcome {
    /// The object exists; its rule list may be absent.
    Found(Option<Vec<Rule>>),
    /// No such object.
    NotFound,
    /// The backend failed, with its description of the failure.
    Failed(String),
}

/// Why the rules of a rule set could not be had.
#[derive(Debug, PartialEq, Eq)]
pub enum ResolveError {
    /// The rule set does not exist.
    NotFound,
    /// The backend failed; the description says how.
    Backend(String),
}

/// The rules that a lookup's outcome yields: the object's rules, an empty
/// list where it has none, or the error of a failed lookup.
pub fn get_rules(outcome: FetchOutcome) -> (r: Result<Vec<Rule>, ResolveError>)
    ensures
        match outcome {
            FetchOutcome::Found(Some(v)) => r == Ok::<Vec<Rule>, ResolveError>(v),
            FetchOutcome::Found(None) => r is Ok && r->Ok_0@.len() == 0,
            FetchOutcome::NotFound => r == Err::<Vec<Rule>, ResolveError>(ResolveError::NotFound),
            FetchOutcome::Failed(d) => r == Err::<Vec<Rule>, ResolveError>(ResolveError::Backend(d)),
        },
{
    match outcome {
        FetchOutcome::Found(Some(v)) => Ok(v),
        FetchOutcome::Found(None) => Ok(Vec::new()),
        FetchOutcome::NotFound => Err(ResolveError::NotFound),
        FetchOutcome::Failed(d) => Err(ResolveError::Backend(d)),
    }
}

} // verus!
