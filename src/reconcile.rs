use crate::binding::{get_rules, parse_grant, parse_spec, BindingObject, FetchOutcome, ParseError, ResolveError};
use crate::grant::RBACGrant;
use crate::index::RBACController;
use crate::rules::{rules_view, texts, RuleModel};
use vstd::prelude::*;

verus! {

/// The rules that a lookup's outcome yields, as text: the object's rules, none
/// for an object without rules, and nothing at all for a failed lookup.
pub open spec fn outcome_rules(o: FetchOutcome) -> Option<Seq<RuleModel>> {
    match o {
        FetchOutcome::Found(Some(v)) => Some(rules_view(v@)),
        FetchOutcome::Found(None) => Some(Seq::empty()),
        _ => None,
    }
}

/// Finishes an applied binding event once the grant's rule set has been
/// looked up. A successful lookup applies the grant to `subjects` with the
/// rules it found; a failed one leaves the index as it was, so a grant applied
/// earlier stays visible, and says why.
pub fn reconcile_applied(
    index: &mut RBACController,
    subjects: &Vec<String>,
    grant: &RBACGrant,
    outcome: FetchOutcome,
) -> (r: Result<(), ResolveError>)
    requires
        old(index).well_formed(),
    ensures
        final(index).well_formed(),
        match outcome_rules(outcome) {
            Some(rules) => r is Ok && final(index)@ == old(index)@.apply(
                texts(subjects@),
                grant@,
                rules,
            ),
            None => final(index)@ == old(index)@ && r is Err,
        },
        outcome is NotFound ==> r == Err::<(), ResolveError>(ResolveError::NotFound),
        outcome is Failed ==> r == Err::<(), ResolveError>(
            ResolveError::Backend(outcome->Failed_0),
        ),
{
    match get_rules(outcome) {
        Ok(rules) => {
            index.apply_grant(subjects, grant, rules);
            proof {
                if outcome is Found && outcome->Found_0 is None {
                    assert(rules_view(rules@) =~= Seq::<RuleModel>::empty());
                }
            }
            Ok(())
        },
        Err(e) => Err(e),
    }
}

/// Handles a deleted binding event: the grant that the binding made is removed
/// from every identity. A binding that makes no grant leaves the index as it
/// was, and says why.
pub fn reconcile_deleted(index: &mut RBACController, binding: &BindingObject) -> (r: Result<(), ParseError>)
    requires
        old(index).well_formed(),
    ensures
        final(index).well_formed(),
        match parse_spec(binding@) {
            Ok(g) => r is Ok && final(index)@ == old(index)@.remove(g.key()),
            Err(e) => r == Err::<(), ParseError>(e) && final(index)@ == old(index)@,
        },
{
    match parse_grant(binding) {
        Ok(grant) => {
            index.remove_grant(&grant.key());
            Ok(())
        },
        Err(e) => Err(e),
    }
}

} // verus!
