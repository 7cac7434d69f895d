use vstd::prelude::*;

verus! {

/// The text of each string in a list.
pub open spec fn texts(v: Seq<String>) -> Seq<Seq<char>> {
    v.map_values(|s: String| s@)
}

/// A copy of a list of strings.
pub fn copy_strings(v: &Vec<String>) -> (r: Vec<String>)
    ensures
        r@ == v@,
{
    let mut r: Vec<String> = Vec::new();
    let mut i: usize = 0;
    while i < v.len()
        invariant
            i <= v@.len(),
            r@ == v@.subrange(0, i as int),
        decreases v@.len() - i,
    {
        r.push(v[i].clone());
        i = i + 1;
        assert(r@ =~= v@.subrange(0, i as int));
    }
    assert(r@ =~= v@);
    r
}

/// One permission rule: the verbs it allows on the resources of the API groups.
#[derive(Debug)]
pub struct Rule {
    pub verbs: Vec<String>,
    pub resources: Vec<String>,
    pub api_groups: Vec<String>,
}

/// The text of a rule.
pub struct RuleModel {
    pub verbs: Seq<Seq<char>>,
    pub resources: Seq<Seq<char>>,
    pub api_groups: Seq<Seq<char>>,
}

impl View for Rule {
    type V = RuleModel;

    open spec fn view(&self) -> RuleModel {
        RuleModel {
            verbs: texts(self.verbs@),
            resources: texts(self.resources@),
            api_groups: texts(self.api_groups@),
        }
    }
}

impl Rule {
    /// A copy with the same view.
    pub fn duplicate(&self) -> (r: Rule)
        ensures
            r@ == self@,
    {
        Rule {
            verbs: copy_strings(&self.verbs),
            resources: copy_strings(&self.resources),
            api_groups: copy_strings(&self.api_groups),
        }
    }
}

/// The views of a list of rules.
pub open spec fn rules_view(v: Seq<Rule>) -> Seq<RuleModel> {
    v.map_values(|r: Rule| r@)
}

/// A copy of a list of rules.
pub fn copy_rules(v: &Vec<Rule>) -> (r: Vec<Rule>)
    ensures
        rules_view(r@) == rules_view(v@),
{
    let mut r: Vec<Rule> = Vec::new();
    let mut i: usize = 0;
    while i < v.len()
        invariant
            i <= v@.len(),
            r@.len() == i,
            forall|j: int| 0 <= j < i ==> #[trigger] r@[j]@ == v@[j]@,
        decreases v@.len() - i,
    {
        r.push(v[i].duplicate());
        i = i + 1;
    }
    assert(rules_view(r@) =~= rules_view(v@));
    r
}

} // verus!
