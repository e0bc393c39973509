//! What each lane holds for itself: the redactors and the data stores of the deployments it serves,
//! and the cap on inbound payloads.

use vstd::prelude::*;

use crate::assembly;
use crate::assembly::{BindingView, DeploymentPlan, PlanView, StoreBinding};
use crate::keyed;
use crate::keyed::TextMap;
use crate::registries;
use crate::text;

verus! {

// ---- redactors ---------------------------------------------------------------------------------

/// The redactors of a row of plans, by name; where two have one name the later one stands.
pub open spec fn redactors_of(v: Seq<PlanView>) -> Seq<(Seq<char>, Seq<char>)>
    decreases v.len(),
{
    if v.len() == 0 {
        Seq::empty()
    } else {
        registries::put_all(redactors_of(v.drop_last()), v.last().redactors)
    }
}

/// Register the redactors of a plan's archive under their names.
pub fn register_archive_redactors(registry: &mut TextMap<String>, plan: &DeploymentPlan)
    ensures
        final(registry)@ == registries::put_all(old(registry)@, plan@.redactors),
{
    registries::put_pairs(registry, &plan.redactors);
}

/// The redactors that a lane's own registry holds.
pub fn lane_redactors(v: &Vec<&DeploymentPlan>) -> (r: TextMap<String>)
    ensures
        r@ == redactors_of(registries::plans(v@)),
{
    let ghost all = registries::plans(v@);
    let mut out: TextMap<String> = TextMap::new();
    let mut i: usize = 0;
    while i < v.len()
        invariant
            i <= v.len(),
            all == registries::plans(v@),
            out@ == redactors_of(all.take(i as int)),
        decreases v.len() - i,
    {
        assert(all.take(i + 1).drop_last() =~= all.take(i as int));
        assert(all.take(i + 1).last() == v@[i as int]@);
        register_archive_redactors(&mut out, v[i]);
        i = i + 1;
    }
    assert(all.take(v.len() as int) =~= all);
    out
}

/// The redactor that a reference of a deployment names.
pub open spec fn named_redactor(
    registry: Seq<(Seq<char>, Seq<char>)>,
    reference: Seq<char>,
    deployment: Seq<char>,
) -> Option<Seq<char>> {
    keyed::lookup(registry, assembly::archive_urn("redactor"@, reference, deployment))
}

/// The redactor that a reference names within a deployment: the one of the deployment's own archive
/// with that local id.
pub fn resolve_redactor<'a>(
    registry: &'a TextMap<String>,
    reference: &str,
    deployment: &str,
) -> (r: Option<&'a String>)
    ensures
        ({
            let name = assembly::archive_urn("redactor"@, reference@, deployment@);
            match r {
                Some(source) => keyed::lookup(registry@, name) == Some(source@),
                None => keyed::lookup(registry@, name) is None,
            }
        }),
        match r {
            Some(source) => named_redactor(registry@, reference@, deployment@) == Some(source@),
            None => named_redactor(registry@, reference@, deployment@) is None,
        },
{
    registry.get(&assembly::urn("redactor", reference, deployment))
}

// ---- data stores -------------------------------------------------------------------------------

/// A store of a deployment.
pub struct BoundStore<'a> {
    pub deployment: String,
    pub store: &'a StoreBinding,
}

/// The stores of the deployments that a lane serves.
pub struct DataStores<'a> {
    /// In the order in which they were bound; a later one stands for an earlier one of its name.
    pub entries: Vec<BoundStore<'a>>,
}

/// What stores are found by: the deployment and the store's name.
pub type StoreMap = Map<(Seq<char>, Seq<char>), BindingView>;

/// What a row of bound stores holds.
pub open spec fn bound(v: Seq<BoundStore>) -> Seq<(Seq<char>, BindingView)> {
    v.map_values(|e: BoundStore| (e.deployment@, e.store@))
}

/// The stores by deployment and name, the later one of a name standing.
pub open spec fn by_name(v: Seq<(Seq<char>, BindingView)>) -> StoreMap
    decreases v.len(),
{
    if v.len() == 0 {
        Map::empty()
    } else {
        by_name(v.drop_last()).insert((v.last().0, v.last().1.name), v.last().1)
    }
}

impl<'a> View for DataStores<'a> {
    type V = StoreMap;

    open spec fn view(&self) -> StoreMap {
        by_name(bound(self.entries@))
    }
}

/// The stores with those of a deployment bound behind them.
pub open spec fn with_stores(m: StoreMap, dep: Seq<char>, stores: Seq<BindingView>) -> StoreMap
    decreases stores.len(),
{
    if stores.len() == 0 {
        m
    } else {
        with_stores(m, dep, stores.drop_last()).insert((dep, stores.last().name), stores.last())
    }
}

/// The stores of a row of plans, each under its own deployment.
pub open spec fn stores_of(v: Seq<PlanView>) -> StoreMap
    decreases v.len(),
{
    if v.len() == 0 {
        Map::empty()
    } else {
        with_stores(stores_of(v.drop_last()), v.last().dep, v.last().stores)
    }
}

proof fn last_of_a_name(v: Seq<(Seq<char>, BindingView)>, dep: Seq<char>, name: Seq<char>, at: int)
    requires
        -1 <= at < v.len(),
        at >= 0 ==> v[at].0 == dep && v[at].1.name == name,
        forall|k: int| at < k < v.len() ==> !((#[trigger] v[k]).0 == dep && v[k].1.name == name),
    ensures
        by_name(v).contains_key((dep, name)) == (at >= 0),
        at >= 0 ==> by_name(v)[(dep, name)] == v[at].1,
    decreases v.len(),
{
    if v.len() > 0 {
        let rest = v.drop_last();
        if at < v.len() - 1 {
            assert(!(v[v.len() - 1].0 == dep && v[v.len() - 1].1.name == name));
            assert forall|k: int| at < k < rest.len() implies !((#[trigger] rest[k]).0 == dep
                && rest[k].1.name == name) by {
                assert(rest[k] == v[k]);
            }
            last_of_a_name(rest, dep, name, at);
        }
    }
}

impl<'a> DataStores<'a> {
    /// The store of a deployment under a name.
    pub fn find(&self, deployment: &str, name: &str) -> (r: Option<&'a StoreBinding>)
        ensures
            match r {
                Some(s) => self@.contains_key((deployment@, name@)) && self@[(
                    deployment@,
                    name@,
                )] == s@,
                None => !self@.contains_key((deployment@, name@)),
            },
    {
        let ghost all = bound(self.entries@);
        let mut i: usize = self.entries.len();
        while i > 0
            invariant
                i <= self.entries.len(),
                all == bound(self.entries@),
                forall|k: int|
                    i <= k < all.len() ==> !((#[trigger] all[k]).0 == deployment@ && all[k].1.name
                        == name@),
            decreases i,
        {
            i = i - 1;
            let e = &self.entries[i];
            assert(all[i as int] == (e.deployment@, e.store@));
            if text::same(&e.deployment, deployment) && text::same(&e.store.name, name) {
                proof {
                    last_of_a_name(all, deployment@, name@, i as int);
                }
                return Some(e.store);
            }
        }
        proof {
            last_of_a_name(all, deployment@, name@, -1);
        }
        None
    }
}

fn bind_stores<'a>(out: &mut DataStores<'a>, plan: &'a DeploymentPlan)
    ensures
        final(out)@ == with_stores(old(out)@, plan@.dep, plan@.stores),
{
    let ghost start = out@;
    let ghost own = plan@.stores;
    let mut i: usize = 0;
    assert(with_stores(start, plan@.dep, own.take(0)) == start);
    while i < plan.stores.len()
        invariant
            i <= plan.stores.len(),
            own == plan@.stores,
            out@ == with_stores(start, plan@.dep, own.take(i as int)),
        decreases plan.stores.len() - i,
    {
        let store: &'a StoreBinding = &plan.stores[i];
        let ghost prior = bound(out.entries@);
        out.entries.push(BoundStore { deployment: plan.dep.clone(), store });
        assert(bound(out.entries@) =~= prior.push((plan@.dep, store@)));
        assert(bound(out.entries@).drop_last() =~= prior);
        assert(own.take(i + 1).drop_last() =~= own.take(i as int));
        assert(own.take(i + 1).last() == store@);
        i = i + 1;
    }
    assert(own.take(plan.stores.len() as int) =~= own);
}

/// The stores that a lane binds.
pub fn lane_stores<'a>(v: &Vec<&'a DeploymentPlan>) -> (r: DataStores<'a>)
    ensures
        r@ == stores_of(registries::plans(v@)),
{
    let ghost all = registries::plans(v@);
    let mut out = DataStores { entries: Vec::new() };
    let mut i: usize = 0;
    assert(bound(out.entries@) =~= Seq::empty());
    assert(out@ == stores_of(all.take(0)));
    while i < v.len()
        invariant
            i <= v.len(),
            all == registries::plans(v@),
            out@ == stores_of(all.take(i as int)),
        decreases v.len() - i,
    {
        assert(all.take(i + 1).drop_last() =~= all.take(i as int));
        assert(all.take(i + 1).last() == v@[i as int]@);
        bind_stores(&mut out, v[i]);
        i = i + 1;
    }
    assert(all.take(v.len() as int) =~= all);
    out
}

proof fn stores_of_others_stay(m: StoreMap, dep: Seq<char>, stores: Seq<BindingView>, key: (Seq<char>, Seq<char>))
    requires
        key.0 != dep,
    ensures
        with_stores(m, dep, stores).contains_key(key) == m.contains_key(key),
        m.contains_key(key) ==> with_stores(m, dep, stores)[key] == m[key],
    decreases stores.len(),
{
    if stores.len() > 0 {
        stores_of_others_stay(m, dep, stores.drop_last(), key);
    }
}

proof fn last_store_stands(m: StoreMap, dep: Seq<char>, stores: Seq<BindingView>, at: int)
    requires
        0 <= at < stores.len(),
        forall|k: int| at < k < stores.len() ==> (#[trigger] stores[k]).name != stores[at].name,
    ensures
        with_stores(m, dep, stores).contains_key((dep, stores[at].name)),
        with_stores(m, dep, stores)[(dep, stores[at].name)] == stores[at],
    decreases stores.len(),
{
    if at < stores.len() - 1 {
        let rest = stores.drop_last();
        assert(stores[stores.len() - 1].name != stores[at].name);
        assert forall|k: int| at < k < rest.len() implies (#[trigger] rest[k]).name
            != rest[at].name by {
            assert(rest[k] == stores[k]);
        }
        last_store_stands(m, dep, rest, at);
    }
}

/// A deployment finds its own stores, whatever the other deployments bind: an instance that is pinned
/// to a draining deployment goes on reading what it always read.
pub proof fn a_deployment_keeps_its_stores(v: Seq<PlanView>, at: int, store: int)
    requires
        0 <= at < v.len(),
        forall|k: int| at < k < v.len() ==> (#[trigger] v[k]).dep != v[at].dep,
        0 <= store < v[at].stores.len(),
        forall|k: int|
            store < k < v[at].stores.len() ==> (#[trigger] v[at].stores[k]).name
                != v[at].stores[store].name,
    ensures
        stores_of(v).contains_key((v[at].dep, v[at].stores[store].name)),
        stores_of(v)[(v[at].dep, v[at].stores[store].name)] == v[at].stores[store],
    decreases v.len(),
{
    let rest = v.drop_last();
    if at == v.len() - 1 {
        last_store_stands(stores_of(rest), v.last().dep, v.last().stores, store);
    } else {
        assert(v[v.len() - 1].dep != v[at].dep);
        assert forall|k: int| at < k < rest.len() implies (#[trigger] rest[k]).dep
            != rest[at].dep by {
            assert(rest[k] == v[k]);
        }
        a_deployment_keeps_its_stores(rest, at, store);
        stores_of_others_stay(
            stores_of(rest),
            v.last().dep,
            v.last().stores,
            (v[at].dep, v[at].stores[store].name),
        );
    }
}

// ---- payloads ----------------------------------------------------------------------------------

/// The cap on inbound payloads that a byte count sets: none for zero, nor for a count that a signed
/// number of bytes cannot hold.
pub open spec fn payload_cap(bytes: u64) -> Option<u64> {
    if 0 < bytes <= i64::MAX {
        Some(bytes)
    } else {
        None
    }
}

/// The cap on inbound payloads that a byte count sets.
pub fn payload_cap_policy(bytes: u64) -> (r: Option<u64>)
    ensures
        r == payload_cap(bytes),
{
    if 0 < bytes && bytes <= 0x7fff_ffff_ffff_ffff {
        Some(bytes)
    } else {
        None
    }
}

} // verus!
