use crate::grant::opt_view;
use crate::rules::{copy_strings, texts};
use vstd::prelude::*;

verus! {

/// What a namespace lookup came back with.
#[derive(Clone, Copy, Debug, PartialEq, Eq, Structural)]
pub enum NamespaceOutcome {
    /// The namespace exists.
    Found,
    /// The API answered with an error status code.
    ApiError(u16),
    /// The lookup failed before the API answered.
    OtherError,
}

/// Whether a namespace exists, from the outcome of looking it up: none where
/// the outcome does not tell. A 404 answer means that it does not exist.
pub fn validate_namespace(outcome: &NamespaceOutcome) -> (r: Option<bool>)
    ensures
        r == match *outcome {
            NamespaceOutcome::Found => Some(true),
            NamespaceOutcome::ApiError(code) => if code == 404 {
                Some(false)
            } else {
                None
            },
            NamespaceOutcome::OtherError => None,
        },
{
    match outcome {
        NamespaceOutcome::Found => Some(true),
        NamespaceOutcome::ApiError(code) => {
            if *code == 404 {
                Some(false)
            } else {
                None
            }
        },
        NamespaceOutcome::OtherError => None,
    }
}

/// What the grouping reads of a pod: its name and the service account it
/// runs as, either of which may be absent.
#[derive(Debug)]
pub struct PodInfo {
    pub name: Option<String>,
    pub service_account: Option<String>,
}

/// The text of a pod's name and service account.
pub struct PodModel {
    pub name: Option<Seq<char>>,
    pub service_account: Option<Seq<char>>,
}

impl View for PodInfo {
    type V = PodModel;

    open spec fn view(&self) -> PodModel {
        PodModel { name: opt_view(self.name), service_account: opt_view(self.service_account) }
    }
}

/// The views of a list of pods.
pub open spec fn pods_view(v: Seq<PodInfo>) -> Seq<PodModel> {
    v.map_values(|p: PodInfo| p@)
}

/// The names, in order, of the named pods that run as service account `sa`.
pub open spec fn pods_of(pods: Seq<PodModel>, sa: Seq<char>) -> Seq<Seq<char>>
    decreases pods.len(),
{
    if pods.len() == 0 {
        Seq::empty()
    } else {
        let rest = pods_of(pods.drop_last(), sa);
        let p = pods.last();
        if p.name is Some && p.service_account == Some(sa) {
            rest.push(p.name->Some_0)
        } else {
            rest
        }
    }
}

/// The position of `key` among the keys of a grouping, if present.
fn find_group(v: &Vec<(String, Vec<String>)>, key: &String) -> (r: Option<usize>)
    ensures
        match r {
            Some(a) => a < v@.len() && v@[a as int].0@ == key@,
            None => forall|a: int| 0 <= a < v@.len() ==> (#[trigger] v@[a]).0@ != key@,
        },
{
    let mut a: usize = 0;
    while a < v.len()
        invariant
            a <= v@.len(),
            forall|b: int| 0 <= b < a ==> (#[trigger] v@[b]).0@ != key@,
        decreases v@.len() - a,
    {
        if v[a].0 == *key {
            return Some(a);
        }
        a = a + 1;
    }
    None
}

/// Groups the named pods by the service account they run as: each service
/// account once, with the names of its pods in their order in `pods`.
pub fn service_accounts_to_pods(pods: &Vec<PodInfo>) -> (r: Vec<(String, Vec<String>)>)
    ensures
        forall|a: int|
            0 <= a < r@.len() ==> texts((#[trigger] r@[a]).1@) == pods_of(pods_view(pods@), r@[a].0@)
                && r@[a].1@.len() > 0,
        forall|a: int, b: int|
            0 <= a < r@.len() && 0 <= b < r@.len() && (#[trigger] r@[a]).0@ == (#[trigger] r@[b]).0@
                ==> a == b,
        forall|sa: Seq<char>|
            #[trigger] pods_of(pods_view(pods@), sa).len() > 0 ==> exists|a: int|
                0 <= a < r@.len() && (#[trigger] r@[a]).0@ == sa,
{
    let ghost pv = pods_view(pods@);
    let mut out: Vec<(String, Vec<String>)> = Vec::new();
    let mut i: usize = 0;
    while i < pods.len()
        invariant
            pv == pods_view(pods@),
            i <= pods@.len(),
            forall|a: int|
                0 <= a < out@.len() ==> texts((#[trigger] out@[a]).1@) == pods_of(
                    pv.subrange(0, i as int),
                    out@[a].0@,
                ) && out@[a].1@.len() > 0,
            forall|a: int, b: int|
                0 <= a < out@.len() && 0 <= b < out@.len() && (#[trigger] out@[a]).0@ == (
                #[trigger] out@[b]).0@ ==> a == b,
            forall|sa: Seq<char>|
                #[trigger] pods_of(pv.subrange(0, i as int), sa).len() > 0 ==> exists|a: int|
                    0 <= a < out@.len() && (#[trigger] out@[a]).0@ == sa,
        decreases pods@.len() - i,
    {
        let ghost before = pv.subrange(0, i as int);
        let ghost after = pv.subrange(0, i + 1);
        let ghost old_out = out@;
        proof {
            assert(after.drop_last() =~= before);
            assert(after.last() == pods@[i as int]@);
        }
        let p = &pods[i];
        match (&p.name, &p.service_account) {
            (Some(n), Some(s)) => {
                match find_group(&out, s) {
                    Some(a) => {
                        let mut list = copy_strings(&out[a].1);
                        list.push(n.clone());
                        let key = out[a].0.clone();
                        out.set(a, (key, list));
                        proof {
                            assert(pods_of(after, s@) == pods_of(before, s@).push(n@));
                            assert(texts(out@[a as int].1@) =~= texts(old_out[a as int].1@).push(n@));
                            assert forall|b: int| 0 <= b < out@.len() && b != a implies #[trigger] out@[b]
                                == old_out[b] by {}
                            assert forall|sa: Seq<char>|
                                #[trigger] pods_of(after, sa).len() > 0 implies exists|b: int|
                                    0 <= b < out@.len() && (#[trigger] out@[b]).0@ == sa by {
                                if sa == s@ {
                                    assert(out@[a as int].0@ == sa);
                                } else {
                                    assert(pods_of(after, sa) == pods_of(before, sa));
                                    let b = choose|b: int| 0 <= b < old_out.len() && (#[trigger] old_out[b]).0@ == sa;
                                    assert(out@[b].0@ == sa);
                                }
                            }
                        }
                    },
                    None => {
                        let mut list: Vec<String> = Vec::new();
                        list.push(n.clone());
                        out.push((s.clone(), list));
                        proof {
                            let last = old_out.len() as int;
                            assert(pods_of(before, s@).len() == 0);
                            assert(texts(out@[last].1@) =~= pods_of(before, s@).push(n@));
                            assert forall|b: int| 0 <= b < last implies #[trigger] out@[b] == old_out[b] by {}
                            assert forall|sa: Seq<char>|
                                #[trigger] pods_of(after, sa).len() > 0 implies exists|b: int|
                                    0 <= b < out@.len() && (#[trigger] out@[b]).0@ == sa by {
                                if sa == s@ {
                                    assert(out@[last].0@ == sa);
                                } else {
                                    assert(pods_of(after, sa) == pods_of(before, sa));
                                    let b = choose|b: int| 0 <= b < old_out.len() && (#[trigger] old_out[b]).0@ == sa;
                                    assert(out@[b].0@ == sa);
                                }
                            }
                        }
                    },
                }
            },
            _ => {
                proof {
                    assert forall|sa: Seq<char>| #[trigger] pods_of(after, sa) == pods_of(before, sa) by {}
                }
            },
        }
        i = i + 1;
    }
    proof {
        assert(pv.subrange(0, pods@.len() as int) =~= pv);
    }
    out
}

} // verus!
