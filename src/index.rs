use crate::binding::{get_rules, FetchOutcome, ResolveError};
use crate::grant::{GrantKey, GrantModel, IdModel, KeyModel, RBACGrant, RBACId};
use crate::rules::{copy_rules, rules_view, texts, Rule, RuleModel};
use vstd::prelude::*;

verus! {

/// The permission index as a mathematical value: which identity holds which
/// grant, and the rules of each rule set that has been resolved.
pub struct IndexModel {
    pub grants: Set<(Seq<char>, GrantModel)>,
    pub perms: Map<IdModel, Seq<RuleModel>>,
}

/// The index before any event.
pub open spec fn empty_index() -> IndexModel {
    IndexModel { grants: Set::empty(), perms: Map::empty() }
}

impl IndexModel {
    /// The grants held by one identity.
    pub open spec fn grants_of(self, identity: Seq<char>) -> Set<GrantModel> {
        Set::new(|g: GrantModel| self.grants.contains((identity, g)))
    }

    /// Every grant held by anyone points at a rule set whose rules are stored.
    pub open spec fn consistent(self) -> bool {
        forall|p: (Seq<char>, GrantModel)| #[trigger]
            self.grants.contains(p) ==> self.perms.contains_key(p.1.target)
    }

    /// The resolved view of one identity: each of its grants with the rules
    /// of the rule set that the grant points at.
    pub open spec fn snapshot(self, identity: Seq<char>) -> Map<GrantModel, Seq<RuleModel>> {
        Map::new(
            |g: GrantModel| self.grants.contains((identity, g)),
            |g: GrantModel| self.perms[g.target],
        )
    }

    /// The index after a grant to `subjects` whose rule set resolved to `rules`:
    /// each subject holds the grant, and the rule set's rules are replaced.
    pub open spec fn apply(
        self,
        subjects: Seq<Seq<char>>,
        g: GrantModel,
        rules: Seq<RuleModel>,
    ) -> IndexModel {
        IndexModel {
            grants: self.grants.union(
                Set::new(|p: (Seq<char>, GrantModel)| subjects.contains(p.0) && p.1 == g),
            ),
            perms: self.perms.insert(g.target, rules),
        }
    }

    /// The index after the grant with deletion key `key` is removed from every
    /// identity. Stored rules stay.
    pub open spec fn remove(self, key: KeyModel) -> IndexModel {
        IndexModel {
            grants: self.grants.filter(|p: (Seq<char>, GrantModel)| p.1.key() != key),
            perms: self.perms,
        }
    }
}

/// A list of grants with rules is exactly the mapping `m`: each grant once,
/// every grant of `m` present, each with the rules `m` gives it.
pub open spec fn snapshot_matches(
    r: Seq<(RBACGrant, Vec<Rule>)>,
    m: Map<GrantModel, Seq<RuleModel>>,
) -> bool {
    &&& forall|a: int|
        0 <= a < r.len() ==> m.contains_key((#[trigger] r[a]).0@) && m[r[a].0@] == rules_view(
            r[a].1@,
        )
    &&& forall|g: GrantModel| #[trigger]
        m.contains_key(g) ==> exists|a: int| 0 <= a < r.len() && (#[trigger] r[a]).0@ == g
    &&& forall|a: int, b: int|
        0 <= a < r.len() && 0 <= b < r.len() && (#[trigger] r[a]).0@ == (#[trigger] r[b]).0@
            ==> a == b
}

/// The text of an index entry: an identity and a grant it holds.
pub open spec fn entry_view(e: (String, RBACGrant)) -> (Seq<char>, GrantModel) {
    (e.0@, e.1@)
}

/// The permission index: identities to the grants they hold, and rule sets
/// to their rules, each rule set stored once.
pub struct RBACController {
    user_to_grant: Vec<(String, RBACGrant)>,
    grant_to_permissions: Vec<(RBACId, Vec<Rule>)>,
}

impl View for RBACController {
    type V = IndexModel;

    closed spec fn view(&self) -> IndexModel {
        IndexModel {
            grants: Set::new(
                |p: (Seq<char>, GrantModel)|
                    exists|i: int|
                        0 <= i < self.user_to_grant@.len() && #[trigger] entry_view(
                            self.user_to_grant@[i],
                        ) == p,
            ),
            perms: Map::new(
                |k: IdModel| self.perm_index_of(k) is Some,
                |k: IdModel| rules_view(self.grant_to_permissions@[self.perm_index_of(k)->Some_0].1@),
            ),
        }
    }
}

impl RBACController {
    /// The position at which the rules of `k` are stored, if any.
    closed spec fn perm_index_of(&self, k: IdModel) -> Option<int> {
        if exists|i: int|
            0 <= i < self.grant_to_permissions@.len() && #[trigger] self.grant_to_permissions@[i].0@
                == k {
            Some(
                choose|i: int|
                    0 <= i < self.grant_to_permissions@.len()
                        && #[trigger] self.grant_to_permissions@[i].0@ == k,
            )
        } else {
            None
        }
    }

    /// The stored form is sound: no rule set is stored twice, no identity holds
    /// the same grant twice, and every held grant's rule set is stored.
    pub closed spec fn well_formed(&self) -> bool {
        &&& forall|i: int, j: int|
            0 <= i < self.grant_to_permissions@.len() && 0 <= j < self.grant_to_permissions@.len()
                && #[trigger] self.grant_to_permissions@[i].0@
                == #[trigger] self.grant_to_permissions@[j].0@ ==> i == j
        &&& forall|i: int, j: int|
            0 <= i < self.user_to_grant@.len() && 0 <= j < self.user_to_grant@.len()
                && #[trigger] entry_view(self.user_to_grant@[i]) == #[trigger] entry_view(
                self.user_to_grant@[j],
            ) ==> i == j
        &&& forall|i: int|
            0 <= i < self.user_to_grant@.len() ==> self.stores(
                (#[trigger] self.user_to_grant@[i]).1.permissions_id@,
            )
    }

    /// Whether the rules of `k` are stored.
    closed spec fn stores(&self, k: IdModel) -> bool {
        exists|j: int|
            0 <= j < self.grant_to_permissions@.len() && #[trigger] self.grant_to_permissions@[j].0@
                == k
    }

    proof fn lemma_perm_at(&self, i: int)
        requires
            self.well_formed(),
            0 <= i < self.grant_to_permissions@.len(),
        ensures
            self@.perms.contains_key(self.grant_to_permissions@[i].0@),
            self@.perms[self.grant_to_permissions@[i].0@] == rules_view(
                self.grant_to_permissions@[i].1@,
            ),
    {
        let k = self.grant_to_permissions@[i].0@;
        assert(self.perm_index_of(k) is Some);
        let j = self.perm_index_of(k)->Some_0;
        assert(self.grant_to_permissions@[j].0@ == k);
    }

    /// A well-formed index is consistent: every grant that anyone holds
    /// points at a rule set whose rules are stored.
    pub proof fn lemma_view_consistent(&self)
        requires
            self.well_formed(),
        ensures
            self@.consistent(),
    {
        assert forall|p: (Seq<char>, GrantModel)| #[trigger]
            self@.grants.contains(p) implies self@.perms.contains_key(p.1.target) by {
            let i = choose|i: int|
                0 <= i < self.user_to_grant@.len() && #[trigger] entry_view(self.user_to_grant@[i])
                    == p;
            let j = choose|j: int|
                0 <= j < self.grant_to_permissions@.len()
                    && #[trigger] self.grant_to_permissions@[j].0@
                    == self.user_to_grant@[i].1.permissions_id@;
            self.lemma_perm_at(j);
        }
    }

    /// An empty index.
    pub fn new() -> (r: RBACController)
        ensures
            r.well_formed(),
            r@ == empty_index(),
    {
        let r = RBACController { user_to_grant: Vec::new(), grant_to_permissions: Vec::new() };
        assert(r@.grants =~= Set::empty());
        assert(r@.perms =~= Map::empty());
        r
    }

    /// The position at which the rules of `id` are stored, if any.
    fn find_perm(&self, id: &RBACId) -> (r: Option<usize>)
        ensures
            match r {
                Some(i) => i < self.grant_to_permissions@.len() && self.grant_to_permissions@[i as int].0@
                    == id@,
                None => forall|i: int|
                    0 <= i < self.grant_to_permissions@.len()
                        ==> #[trigger] self.grant_to_permissions@[i].0@ != id@,
            },
    {
        let mut i: usize = 0;
        while i < self.grant_to_permissions.len()
            invariant
                i <= self.grant_to_permissions@.len(),
                forall|j: int| 0 <= j < i ==> #[trigger] self.grant_to_permissions@[j].0@ != id@,
            decreases self.grant_to_permissions@.len() - i,
        {
            if self.grant_to_permissions[i].0 == *id {
                return Some(i);
            }
            i = i + 1;
        }
        None
    }

    /// Whether `identity` already holds `grant`.
    fn holds(&self, identity: &String, grant: &RBACGrant) -> (r: bool)
        ensures
            r == exists|i: int|
                0 <= i < self.user_to_grant@.len() && #[trigger] entry_view(self.user_to_grant@[i])
                    == (identity@, grant@),
    {
        let mut i: usize = 0;
        while i < self.user_to_grant.len()
            invariant
                i <= self.user_to_grant@.len(),
                forall|j: int|
                    0 <= j < i ==> #[trigger] entry_view(self.user_to_grant@[j]) != (
                        identity@,
                        grant@,
                    ),
            decreases self.user_to_grant@.len() - i,
        {
            if self.user_to_grant[i].0 == *identity && self.user_to_grant[i].1 == *grant {
                assert(entry_view(self.user_to_grant@[i as int]) == (identity@, grant@));
                return true;
            }
            i = i + 1;
        }
        false
    }

    /// Stores `rules` as the rules of `id`, replacing any stored before.
    fn store_rules(&mut self, id: &RBACId, rules: Vec<Rule>)
        requires
            old(self).well_formed(),
        ensures
            final(self).well_formed(),
            final(self)@.grants == old(self)@.grants,
            final(self)@.perms == old(self)@.perms.insert(id@, rules_view(rules@)),
            final(self).stores(id@),
    {
        let ghost rv = rules_view(rules@);
        let ghost pre = *self;
        let copy = id.duplicate();
        let pos = self.find_perm(id);
        let ghost at: int;
        match pos {
            Some(i) => {
                self.grant_to_permissions.set(i, (copy, rules));
                proof {
                    at = i as int;
                }
            },
            None => {
                self.grant_to_permissions.push((copy, rules));
                proof {
                    at = pre.grant_to_permissions@.len() as int;
                }
            },
        }
        proof {
            assert(self.grant_to_permissions@[at].0@ == id@);
            assert forall|i: int|
                0 <= i < self.grant_to_permissions@.len() && i != at implies #[trigger] self.grant_to_permissions@[i]
                == pre.grant_to_permissions@[i] by {}
            assert(self.well_formed()) by {
                assert forall|i: int|
                    0 <= i < self.user_to_grant@.len() implies self.stores(
                        (#[trigger] self.user_to_grant@[i]).1.permissions_id@,
                    ) by {
                    assert(pre.stores(pre.user_to_grant@[i].1.permissions_id@));
                    let j = choose|j: int|
                        0 <= j < pre.grant_to_permissions@.len()
                            && #[trigger] pre.grant_to_permissions@[j].0@
                            == pre.user_to_grant@[i].1.permissions_id@;
                    assert(self.grant_to_permissions@[j].0@ == pre.user_to_grant@[i].1.permissions_id@);
                }
            }
            let target = pre@.perms.insert(id@, rv);
            assert forall|k: IdModel| #[trigger] self@.perms.contains_key(k) <==> target.contains_key(k) by {
                if self@.perms.contains_key(k) {
                    let j = self.perm_index_of(k)->Some_0;
                    if j != at {
                        pre.lemma_perm_at(j);
                    }
                }
                if target.contains_key(k) {
                    if k == id@ {
                        self.lemma_perm_at(at);
                    } else {
                        let j = pre.perm_index_of(k)->Some_0;
                        self.lemma_perm_at(j);
                    }
                }
            }
            assert forall|k: IdModel| #[trigger] self@.perms.contains_key(k) implies self@.perms[k]
                == target[k] by {
                let j = self.perm_index_of(k)->Some_0;
                self.lemma_perm_at(j);
                if j != at {
                    pre.lemma_perm_at(j);
                }
            }
            assert(self@.perms =~= target);
            assert(self@.grants =~= pre@.grants);
        }
    }

    /// Records that `identity` holds `grant`, whose rule set is stored.
    fn add_entry(&mut self, identity: &String, grant: &RBACGrant)
        requires
            old(self).well_formed(),
            old(self).stores(grant.permissions_id@),
        ensures
            final(self).well_formed(),
            final(self)@.grants == old(self)@.grants.insert((identity@, grant@)),
            final(self)@.perms == old(self)@.perms,
            final(self).grant_to_permissions == old(self).grant_to_permissions,
    {
        let ghost pre = *self;
        if !self.holds(identity, grant) {
            let e = (identity.clone(), grant.duplicate());
            self.user_to_grant.push(e);
            proof {
                let n = pre.user_to_grant@.len() as int;
                assert(entry_view(self.user_to_grant@[n]) == (identity@, grant@));
                assert forall|i: int| 0 <= i < n implies #[trigger] self.user_to_grant@[i]
                    == pre.user_to_grant@[i] by {}
                assert forall|p: (Seq<char>, GrantModel)| #[trigger] self@.grants.contains(p)
                    <==> pre@.grants.insert((identity@, grant@)).contains(p) by {
                    if self@.grants.contains(p) {
                        let i = choose|i: int|
                            0 <= i < self.user_to_grant@.len() && #[trigger] entry_view(
                                self.user_to_grant@[i],
                            ) == p;
                        if i < n {
                            assert(entry_view(pre.user_to_grant@[i]) == p);
                        }
                    }
                    if pre@.grants.contains(p) {
                        let i = choose|i: int|
                            0 <= i < pre.user_to_grant@.len() && #[trigger] entry_view(
                                pre.user_to_grant@[i],
                            ) == p;
                        assert(entry_view(self.user_to_grant@[i]) == p);
                    }
                }
                assert(self@.grants =~= pre@.grants.insert((identity@, grant@)));
                assert(self@.perms =~= pre@.perms);
            }
        } else {
            proof {
                let i = choose|i: int|
                    0 <= i < self.user_to_grant@.len() && #[trigger] entry_view(
                        self.user_to_grant@[i],
                    ) == (identity@, grant@);
                assert(self@.grants.contains((identity@, grant@)));
                assert(self@.grants =~= pre@.grants.insert((identity@, grant@)));
            }
        }
    }

    /// Applies a grant to `subjects` whose rule set resolved to `rules`: each
    /// subject holds the grant afterwards, and the rules of its rule set are
    /// replaced by `rules`, in one step.
    pub fn apply_grant(&mut self, subjects: &Vec<String>, grant: &RBACGrant, rules: Vec<Rule>)
        requires
            old(self).well_formed(),
        ensures
            final(self).well_formed(),
            final(self)@ == old(self)@.apply(texts(subjects@), grant@, rules_view(rules@)),
    {
        let ghost pre = self@;
        self.store_rules(&grant.permissions_id, rules);
        let ghost mid = self@;
        let mut i: usize = 0;
        while i < subjects.len()
            invariant
                self.well_formed(),
                i <= subjects@.len(),
                self@.perms == mid.perms,
                self.stores(grant.permissions_id@),
                forall|p: (Seq<char>, GrantModel)| #[trigger]
                    self@.grants.contains(p) <==> (mid.grants.contains(p) || (p.1 == grant@
                        && exists|j: int| 0 <= j < i && #[trigger] subjects@[j]@ == p.0)),
            decreases subjects@.len() - i,
        {
            let ghost before = self@;
            self.add_entry(&subjects[i], grant);
            assert forall|p: (Seq<char>, GrantModel)| #[trigger]
                self@.grants.contains(p) <==> (mid.grants.contains(p) || (p.1 == grant@
                    && exists|j: int| 0 <= j < i + 1 && #[trigger] subjects@[j]@ == p.0)) by {
                if p == (subjects@[i as int]@, grant@) {
                    assert(subjects@[i as int]@ == p.0);
                }
                if p.1 == grant@ && exists|j: int| 0 <= j < i + 1 && #[trigger] subjects@[j]@ == p.0 {
                    let j = choose|j: int| 0 <= j < i + 1 && #[trigger] subjects@[j]@ == p.0;
                    if j < i {
                        assert(before.grants.contains(p));
                    }
                }
            }
            i = i + 1;
        }
        proof {
            let target = pre.apply(texts(subjects@), grant@, rules_view(rules@));
            assert forall|p: (Seq<char>, GrantModel)| #[trigger]
                self@.grants.contains(p) <==> target.grants.contains(p) by {
                if exists|j: int| 0 <= j < subjects@.len() && #[trigger] subjects@[j]@ == p.0 {
                    let j = choose|j: int| 0 <= j < subjects@.len() && #[trigger] subjects@[j]@ == p.0;
                    assert(texts(subjects@)[j] == p.0);
                }
                if texts(subjects@).contains(p.0) {
                    let j = choose|j: int| 0 <= j < texts(subjects@).len() && texts(subjects@)[j] == p.0;
                    assert(subjects@[j]@ == p.0);
                }
            }
            assert(self@.grants =~= target.grants);
        }
    }

    /// Removes the grant with deletion key `key` from every identity that
    /// holds it. Stored rules stay, even where nothing points at them now.
    pub fn remove_grant(&mut self, key: &GrantKey)
        requires
            old(self).well_formed(),
        ensures
            final(self).well_formed(),
            final(self)@ == old(self)@.remove(key@),
    {
        let ghost pre = *self;
        let mut kept: Vec<(String, RBACGrant)> = Vec::new();
        let ghost mut src: Seq<int> = Seq::empty();
        let mut i: usize = 0;
        while i < self.user_to_grant.len()
            invariant
                *self == pre,
                self.well_formed(),
                i <= self.user_to_grant@.len(),
                src.len() == kept@.len(),
                forall|a: int|
                    0 <= a < kept@.len() ==> 0 <= #[trigger] src[a] < i && entry_view(
                        self.user_to_grant@[src[a]],
                    ) == entry_view(kept@[a]) && kept@[a].1@.key() != key@,
                forall|a: int, b: int| 0 <= a < b < kept@.len() ==> #[trigger] src[a] < #[trigger] src[b],
                forall|k: int|
                    0 <= k < i && (#[trigger] self.user_to_grant@[k]).1@.key() != key@ ==> exists|
                        a: int,
                    | 0 <= a < kept@.len() && #[trigger] src[a] == k,
            decreases self.user_to_grant@.len() - i,
        {
            if !self.user_to_grant[i].1.has_key(key) {
                let e = (self.user_to_grant[i].0.clone(), self.user_to_grant[i].1.duplicate());
                kept.push(e);
                proof {
                    let ghost old_src = src;
                    src = src.push(i as int);
                    assert forall|k: int|
                        0 <= k < i + 1 && (#[trigger] self.user_to_grant@[k]).1@.key() != key@
                            implies exists|a: int| 0 <= a < kept@.len() && #[trigger] src[a] == k by {
                        if k == i {
                            assert(src[src.len() - 1] == k);
                        } else {
                            let a = choose|a: int| 0 <= a < old_src.len() && #[trigger] old_src[a] == k;
                            assert(src[a] == k);
                        }
                    }
                }
            }
            i = i + 1;
        }
        assert(pre.well_formed());
        self.user_to_grant = kept;
        proof {
            assert(self.grant_to_permissions == pre.grant_to_permissions);
            assert forall|i: int, j: int|
                0 <= i < self.grant_to_permissions@.len() && 0 <= j
                    < self.grant_to_permissions@.len() && #[trigger] self.grant_to_permissions@[i].0@
                    == #[trigger] self.grant_to_permissions@[j].0@ implies i == j by {
                assert(pre.grant_to_permissions@[i].0@ == pre.grant_to_permissions@[j].0@);
            }
            assert forall|a: int|
                0 <= a < self.user_to_grant@.len() implies self.stores(
                    (#[trigger] self.user_to_grant@[a]).1.permissions_id@,
                ) by {
                let k = src[a];
                assert(entry_view(pre.user_to_grant@[k]) == entry_view(self.user_to_grant@[a]));
                assert(pre.stores(pre.user_to_grant@[k].1.permissions_id@));
            }
            assert forall|a: int, b: int|
                0 <= a < self.user_to_grant@.len() && 0 <= b < self.user_to_grant@.len()
                    && #[trigger] entry_view(self.user_to_grant@[a]) == #[trigger] entry_view(
                    self.user_to_grant@[b],
                ) implies a == b by {
                assert(entry_view(pre.user_to_grant@[src[a]]) == entry_view(pre.user_to_grant@[src[b]]));
                if a < b {
                    assert(src[a] < src[b]);
                } else if b < a {
                    assert(src[b] < src[a]);
                }
            }
            assert(self.well_formed());
            let target = pre@.remove(key@);
            assert forall|p: (Seq<char>, GrantModel)| #[trigger]
                self@.grants.contains(p) <==> target.grants.contains(p) by {
                if self@.grants.contains(p) {
                    let a = choose|a: int|
                        0 <= a < self.user_to_grant@.len() && #[trigger] entry_view(
                            self.user_to_grant@[a],
                        ) == p;
                    assert(entry_view(pre.user_to_grant@[src[a]]) == p);
                    assert(pre@.grants.contains(p));
                }
                if target.grants.contains(p) {
                    assert(pre@.grants.contains(p));
                    let k = choose|k: int|
                        0 <= k < pre.user_to_grant@.len() && #[trigger] entry_view(
                            pre.user_to_grant@[k],
                        ) == p;
                    assert(pre.user_to_grant@[k].1@.key() != key@);
                    let a = choose|a: int| 0 <= a < src.len() && #[trigger] src[a] == k;
                    assert(entry_view(self.user_to_grant@[a]) == p);
                }
            }
            assert(self@.grants =~= target.grants);
            assert(self@.perms =~= pre@.perms);
        }
    }

    /// The resolved view of one identity: each grant it holds, once, with the
    /// rules of the rule set that the grant points at. Empty for an identity
    /// that holds no grant.
    pub fn snapshot_for(&self, identity: &String) -> (r: Vec<(RBACGrant, Vec<Rule>)>)
        requires
            self.well_formed(),
        ensures
            snapshot_matches(r@, self@.snapshot(identity@)),
    {
        proof {
            self.lemma_view_consistent();
        }
        let mut out: Vec<(RBACGrant, Vec<Rule>)> = Vec::new();
        let ghost mut src: Seq<int> = Seq::empty();
        let mut i: usize = 0;
        while i < self.user_to_grant.len()
            invariant
                self.well_formed(),
                self@.consistent(),
                i <= self.user_to_grant@.len(),
                src.len() == out@.len(),
                forall|a: int|
                    0 <= a < out@.len() ==> 0 <= #[trigger] src[a] < i && self.user_to_grant@[src[a]].0@
                        == identity@ && self.user_to_grant@[src[a]].1@ == out@[a].0@ && rules_view(
                        out@[a].1@,
                    ) == self@.perms[out@[a].0@.target],
                forall|a: int, b: int| 0 <= a < b < out@.len() ==> #[trigger] src[a] < #[trigger] src[b],
                forall|k: int|
                    0 <= k < i && (#[trigger] self.user_to_grant@[k]).0@ == identity@ ==> exists|
                        a: int,
                    | 0 <= a < out@.len() && #[trigger] src[a] == k,
            decreases self.user_to_grant@.len() - i,
        {
            if self.user_to_grant[i].0 == *identity {
                let g = &self.user_to_grant[i].1;
                proof {
                    assert(self@.grants.contains(entry_view(self.user_to_grant@[i as int])));
                }
                let pos = self.find_perm(&g.permissions_id);
                match pos {
                    Some(j) => {
                        proof {
                            self.lemma_perm_at(j as int);
                        }
                        let item = (g.duplicate(), copy_rules(&self.grant_to_permissions[j].1));
                        out.push(item);
                        proof {
                            let ghost old_src = src;
                            src = src.push(i as int);
                            assert forall|k: int|
                                0 <= k < i + 1 && (#[trigger] self.user_to_grant@[k]).0@ == identity@
                                    implies exists|a: int| 0 <= a < out@.len() && #[trigger] src[a] == k by {
                                if k == i {
                                    assert(src[src.len() - 1] == k);
                                } else {
                                    let a = choose|a: int| 0 <= a < old_src.len() && #[trigger] old_src[a] == k;
                                    assert(src[a] == k);
                                }
                            }
                        }
                    },
                    None => {
                        proof {
                            assert(self.stores(self.user_to_grant@[i as int].1.permissions_id@));
                        }
                    },
                }
            }
            i = i + 1;
        }
        proof {
            let m = self@.snapshot(identity@);
            assert forall|g: GrantModel| #[trigger] m.contains_key(g) implies exists|a: int|
                0 <= a < out@.len() && (#[trigger] out@[a]).0@ == g by {
                let k = choose|k: int|
                    0 <= k < self.user_to_grant@.len() && #[trigger] entry_view(self.user_to_grant@[k])
                        == (identity@, g);
                assert(self.user_to_grant@[k].0@ == identity@);
                let a = choose|a: int| 0 <= a < out@.len() && #[trigger] src[a] == k;
                assert(out@[a].0@ == g);
            }
            assert forall|a: int, b: int|
                0 <= a < out@.len() && 0 <= b < out@.len() && (#[trigger] out@[a]).0@ == (
                #[trigger] out@[b]).0@ implies a == b by {
                assert(entry_view(self.user_to_grant@[src[a]]) == entry_view(self.user_to_grant@[src[b]]));
                if a < b {
                    assert(src[a] < src[b]);
                } else if b < a {
                    assert(src[b] < src[a]);
                }
            }
            assert forall|a: int| 0 <= a < out@.len() implies m.contains_key((#[trigger] out@[a]).0@)
                && m[out@[a].0@] == rules_view(out@[a].1@) by {
                assert(entry_view(self.user_to_grant@[src[a]]) == (identity@, out@[a].0@));
            }
        }
        out
    }

    /// The stored rules of a rule set, if it has been resolved.
    pub fn rules_for(&self, id: &RBACId) -> (r: Option<Vec<Rule>>)
        requires
            self.well_formed(),
        ensures
            match r {
                Some(v) => self@.perms.contains_key(id@) && rules_view(v@) == self@.perms[id@],
                None => !self@.perms.contains_key(id@),
            },
    {
        match self.find_perm(id) {
            Some(j) => {
                proof {
                    self.lemma_perm_at(j as int);
                }
                Some(copy_rules(&self.grant_to_permissions[j].1))
            },
            None => {
                proof {
                    if self@.perms.contains_key(id@) {
                        let j = self.perm_index_of(id@)->Some_0;
                        assert(self.grant_to_permissions@[j].0@ == id@);
                    }
                }
                None
            },
        }
    }

    /// How many grants each identity holds, for every identity that holds at
    /// least one, each identity once.
    pub fn grant_counts(&self) -> (r: Vec<(String, usize)>)
        requires
            self.well_formed(),
        ensures
            forall|a: int|
                0 <= a < r@.len() ==> self@.grants_of((#[trigger] r@[a]).0@).finite()
                    && self@.grants_of(r@[a].0@).len() == r@[a].1 as nat && r@[a].1 > 0,
            forall|a: int, b: int|
                0 <= a < r@.len() && 0 <= b < r@.len() && (#[trigger] r@[a]).0@ == (
                #[trigger] r@[b]).0@ ==> a == b,
            forall|p: (Seq<char>, GrantModel)| #[trigger]
                self@.grants.contains(p) ==> exists|a: int| 0 <= a < r@.len() && (#[trigger] r@[a]).0@ == p.0,
    {
        let mut out: Vec<(String, usize)> = Vec::new();
        let ghost mut sets: Map<Seq<char>, Set<GrantModel>> = Map::empty();
        let mut i: usize = 0;
        while i < self.user_to_grant.len()
            invariant
                self.well_formed(),
                i <= self.user_to_grant@.len(),
                forall|id: Seq<char>| #[trigger]
                    sets.contains_key(id) ==> sets[id].finite() && forall|g: GrantModel|
                        #[trigger] sets[id].contains(g) <==> exists|k: int|
                            0 <= k < i && #[trigger] entry_view(self.user_to_grant@[k]) == (id, g),
                forall|k: int| 0 <= k < i ==> sets.contains_key(#[trigger] self.user_to_grant@[k].0@),
                forall|a: int|
                    0 <= a < out@.len() ==> sets.contains_key((#[trigger] out@[a]).0@) && out@[a].1
                        == sets[out@[a].0@].len() && 0 < out@[a].1 <= i,
                forall|a: int, b: int|
                    0 <= a < out@.len() && 0 <= b < out@.len() && (#[trigger] out@[a]).0@ == (
                    #[trigger] out@[b]).0@ ==> a == b,
                forall|id: Seq<char>| #[trigger]
                    sets.contains_key(id) ==> exists|a: int| 0 <= a < out@.len() && (#[trigger] out@[a]).0@ == id,
            decreases self.user_to_grant@.len() - i,
        {
            let ghost id = self.user_to_grant@[i as int].0@;
            let ghost g = self.user_to_grant@[i as int].1@;
            let ghost old_sets = sets;
            let ghost old_out = out@;
            let ghost pos: int;
            proof {
                if old_sets.contains_key(id) && old_sets[id].contains(g) {
                    let k = choose|k: int|
                        0 <= k < i && #[trigger] entry_view(self.user_to_grant@[k]) == (id, g);
                    assert(entry_view(self.user_to_grant@[k]) == entry_view(self.user_to_grant@[i as int]));
                }
            }
            match position_of(&out, &self.user_to_grant[i].0) {
                Some(a) => {
                    let n = out[a].1;
                    let name = out[a].0.clone();
                    out.set(a, (name, n + 1));
                    proof {
                        pos = a as int;
                        assert(old_out[pos].0@ == id);
                        sets = old_sets.insert(id, old_sets[id].insert(g));
                    }
                },
                None => {
                    out.push((self.user_to_grant[i].0.clone(), 1));
                    proof {
                        if old_sets.contains_key(id) {
                            let a = choose|a: int| 0 <= a < out@.len() - 1 && (#[trigger] out@[a]).0@ == id;
                            assert(out@[a].0@ == id);
                        }
                        pos = old_out.len() as int;
                        sets = old_sets.insert(id, Set::empty().insert(g));
                    }
                },
            }
            proof {
                assert forall|x: Seq<char>| #[trigger]
                    sets.contains_key(x) implies sets[x].finite() && forall|h: GrantModel|
                        #[trigger] sets[x].contains(h) <==> exists|k: int|
                            0 <= k < i + 1 && #[trigger] entry_view(self.user_to_grant@[k]) == (x, h) by {
                    assert forall|h: GrantModel|
                        #[trigger] sets[x].contains(h) <==> exists|k: int|
                            0 <= k < i + 1 && #[trigger] entry_view(self.user_to_grant@[k]) == (x, h) by {
                        if exists|k: int| 0 <= k < i + 1 && #[trigger] entry_view(self.user_to_grant@[k]) == (x, h) {
                            let k = choose|k: int| 0 <= k < i + 1 && #[trigger] entry_view(self.user_to_grant@[k]) == (x, h);
                            if k < i {
                                assert(old_sets.contains_key(self.user_to_grant@[k].0@));
                                assert(old_sets[x].contains(h));
                            } else {
                                assert(x == id && h == g);
                            }
                        }
                        if sets[x].contains(h) {
                            if x != id {
                                assert(old_sets.contains_key(x));
                                assert(old_sets[x].contains(h));
                            } else if h != g {
                                assert(old_sets.contains_key(id));
                                assert(old_sets[id].contains(h));
                            } else {
                                assert(entry_view(self.user_to_grant@[i as int]) == (x, h));
                            }
                        }
                    }
                }
                assert forall|k: int| 0 <= k < i + 1 implies sets.contains_key(
                    #[trigger] self.user_to_grant@[k].0@,
                ) by {
                    if k < i {
                        assert(old_sets.contains_key(self.user_to_grant@[k].0@));
                    }
                }
                assert forall|x: Seq<char>| #[trigger]
                    sets.contains_key(x) implies exists|a: int| 0 <= a < out@.len() && (#[trigger] out@[a]).0@ == x by {
                    if x == id {
                        assert(out@[pos].0@ == id);
                    } else {
                        assert(old_sets.contains_key(x));
                        let a = choose|a: int| 0 <= a < old_out.len() && (#[trigger] old_out[a]).0@ == x;
                        assert(out@[a].0@ == x);
                    }
                }
            }
            i = i + 1;
        }
        proof {
            assert forall|a: int|
                0 <= a < out@.len() implies self@.grants_of((#[trigger] out@[a]).0@).finite()
                    && self@.grants_of(out@[a].0@).len() == out@[a].1 as nat && out@[a].1 > 0 by {
                let x = out@[a].0@;
                assert forall|h: GrantModel| #[trigger] sets[x].contains(h) <==> self@.grants_of(x).contains(h) by {
                    if self@.grants_of(x).contains(h) {
                        assert(self@.grants.contains((x, h)));
                    }
                }
                assert(sets[x] =~= self@.grants_of(x));
            }
            assert forall|p: (Seq<char>, GrantModel)| #[trigger]
                self@.grants.contains(p) implies exists|a: int| 0 <= a < out@.len() && (#[trigger] out@[a]).0@ == p.0 by {
                let k = choose|k: int|
                    0 <= k < self.user_to_grant@.len() && #[trigger] entry_view(self.user_to_grant@[k]) == p;
                assert(sets.contains_key(self.user_to_grant@[k].0@));
            }
        }
        out
    }
}

/// The position of `id` among the identities of a count list, if present.
fn position_of(v: &Vec<(String, usize)>, id: &String) -> (r: Option<usize>)
    ensures
        match r {
            Some(a) => a < v@.len() && v@[a as int].0@ == id@,
            None => forall|a: int| 0 <= a < v@.len() ==> (#[trigger] v@[a]).0@ != id@,
        },
{
    let mut a: usize = 0;
    while a < v.len()
        invariant
            a <= v@.len(),
            forall|b: int| 0 <= b < a ==> (#[trigger] v@[b]).0@ != id@,
        decreases v@.len() - a,
    {
        if v[a].0 == *id {
            return Some(a);
        }
        a = a + 1;
    }
    None
}

/// An empty index, ready for the first event.
pub fn new() -> (r: RBACController)
    ensures
        r.well_formed(),
        r@ == empty_index(),
{
    RBACController::new()
}

/// Applying the same grant with the same rules a second time leaves the index
/// as the first application left it.
pub proof fn lemma_apply_idempotent(
    m: IndexModel,
    subjects: Seq<Seq<char>>,
    g: GrantModel,
    rules: Seq<RuleModel>,
)
    ensures
        m.apply(subjects, g, rules).apply(subjects, g, rules) == m.apply(subjects, g, rules),
{
    let once = m.apply(subjects, g, rules);
    let twice = once.apply(subjects, g, rules);
    assert(twice.grants =~= once.grants);
    assert(twice.perms =~= once.perms);
}

/// Removing a grant and applying it again leaves no trace of the removal:
/// exactly the new subjects hold a grant with that key, and each of them sees
/// the grant with the new rules.
pub proof fn lemma_remove_then_apply(
    m: IndexModel,
    subjects: Seq<Seq<char>>,
    g: GrantModel,
    rules: Seq<RuleModel>,
)
    ensures
        ({
            let r = m.remove(g.key()).apply(subjects, g, rules);
            &&& forall|p: (Seq<char>, GrantModel)|
                p.1.key() == g.key() ==> (#[trigger] r.grants.contains(p) <==> (subjects.contains(
                    p.0,
                ) && p.1 == g))
            &&& forall|s: Seq<char>|
                subjects.contains(s) ==> #[trigger] r.snapshot(s).contains_key(g) && r.snapshot(
                    s,
                )[g] == rules
        }),
{
}

/// An identity that holds no grant sees an empty mapping.
pub proof fn lemma_no_grants_empty_snapshot(m: IndexModel, identity: Seq<char>)
    requires
        m.grants_of(identity) == Set::<GrantModel>::empty(),
    ensures
        m.snapshot(identity) == Map::<GrantModel, Seq<RuleModel>>::empty(),
{
    assert forall|g: GrantModel| !m.snapshot(identity).contains_key(g) by {
        if m.grants.contains((identity, g)) {
            assert(m.grants_of(identity).contains(g));
        }
    }
    assert(m.snapshot(identity) =~= Map::<GrantModel, Seq<RuleModel>>::empty());
}

/// Every sequence of applied and removed grants keeps the index consistent:
/// the empty index is consistent, and applying or removing a grant keeps it so.
pub proof fn lemma_events_keep_consistent(
    m: IndexModel,
    subjects: Seq<Seq<char>>,
    g: GrantModel,
    rules: Seq<RuleModel>,
    key: KeyModel,
)
    requires
        m.consistent(),
    ensures
        empty_index().consistent(),
        m.apply(subjects, g, rules).consistent(),
        m.remove(key).consistent(),
{
    let a = m.apply(subjects, g, rules);
    assert forall|p: (Seq<char>, GrantModel)| #[trigger]
        a.grants.contains(p) implies a.perms.contains_key(p.1.target) by {
        if !m.grants.contains(p) {
            assert(p.1 == g);
        }
    }
    let d = m.remove(key);
    assert forall|p: (Seq<char>, GrantModel)| #[trigger]
        d.grants.contains(p) implies d.perms.contains_key(p.1.target) by {
        assert(m.grants.contains(p));
    }
}

} // verus!
