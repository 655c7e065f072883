//! Pods and the service-name filter applied to cluster pod listings.

use vstd::prelude::*;

verus! {

/// A running pod, as reported by the cluster: its own name and the service
/// label it runs under.
#[derive(Debug, Clone)]
pub struct Pod {
    pub name: String,
    pub service_name: String,
}

/// Selects pods by service name within one system.
#[derive(Debug, Clone)]
pub struct PodsProvider {
    pub system: String,
}

impl Pod {
    /// A copy of this pod record.
    pub fn duplicate(&self) -> (p: Pod)
        ensures
            p == *self,
    {
        Pod { name: self.name.clone(), service_name: self.service_name.clone() }
    }
}

/// Whether a pod's service label is `<system>-<name>` for one of the
/// requested names.
pub open spec fn pod_selected(system: Seq<char>, names: Seq<String>, pod: Pod) -> bool {
    exists|i: int| 0 <= i < names.len() && pod.service_name@ == system + seq!['-'] + names[i]@
}

/// The pods among the first `k` whose service label matches a requested
/// name.
pub open spec fn selected_pods(system: Seq<char>, names: Seq<String>, pods: Seq<Pod>, k: int) -> Seq<
    Pod,
>
    decreases k,
{
    if k <= 0 {
        Seq::empty()
    } else {
        let prev = selected_pods(system, names, pods, k - 1);
        if pod_selected(system, names, pods[k - 1]) {
            prev.push(pods[k - 1])
        } else {
            prev
        }
    }
}

impl PodsProvider {
    /// Filter a pod listing by service names: a pod is kept when its
    /// service label is `<system>-<name>` for one of the requested names;
    /// with no names requested, every pod is kept.
    pub fn get_pods_by_service_names(&self, pods: Vec<Pod>, service_names: &Option<Vec<String>>) -> (r:
        Vec<Pod>)
        ensures
            match service_names {
                Some(names) => r@ == selected_pods(
                    self.system@,
                    names@,
                    pods@,
                    pods@.len() as int,
                ),
                None => r@ == pods@,
            },
    {
        match service_names {
            Some(names) => {
                let n = pods.len();
                let mut r: Vec<Pod> = Vec::new();
                let mut k: usize = 0;
                while k < n
                    invariant
                        n == pods@.len(),
                        k <= n,
                        r@ == selected_pods(self.system@, names@, pods@, k as int),
                    decreases n - k,
                {
                    if self.pod_matches(&pods[k], names) {
                        r.push(pods[k].duplicate());
                    }
                    k = k + 1;
                }
                r
            },
            None => pods,
        }
    }

    /// Whether one pod's service label matches one of the requested names.
    fn pod_matches(&self, pod: &Pod, names: &Vec<String>) -> (r: bool)
        ensures
            r == pod_selected(self.system@, names@, *pod),
    {
        let n = names.len();
        let mut i: usize = 0;
        while i < n
            invariant
                n == names@.len(),
                i <= n,
                forall|j: int|
                    0 <= j < i ==> pod.service_name@ != self.system@ + seq!['-'] + names@[j]@,
            decreases n - i,
        {
            let mut expected = self.system.clone();
            expected.append("-");
            expected.append(names[i].as_str());
            proof {
                reveal_strlit("-");
                assert("-"@ =~= seq!['-']);
            }
            if crate::text::eq_str(expected.as_str(), pod.service_name.as_str()) {
                return true;
            }
            i = i + 1;
        }
        false
    }
}

} // verus!
