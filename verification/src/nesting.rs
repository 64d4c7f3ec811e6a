use vstd::prelude::*;
use crate::assets::{asset_by_id, expands_within, nested_layers, AssetEntry, LayerLink};

verus! {

/// The precomposition that layer `l` shows: the asset its reference names, when
/// that asset has layers.
pub open spec fn nested_asset(l: LayerLink, assets: Seq<AssetEntry>) -> Option<int> {
    match l.ref_id {
        Some(r) => match asset_by_id(assets, r@) {
            Some(k) => if assets[k].layers is Some {
                Some(k)
            } else {
                None
            },
            None => None,
        },
        None => None,
    }
}

/// Precomposition `k` shows precomposition `k2` through one of its layers.
pub open spec fn shows(assets: Seq<AssetEntry>, k: int, k2: int) -> bool {
    &&& 0 <= k < assets.len()
    &&& assets[k].layers is Some
    &&& exists|j: int|
        0 <= j < assets[k].layers->0@.len() && nested_asset(
            #[trigger] assets[k].layers->0@[j],
            assets,
        ) == Some(k2)
}

/// Each asset of the chain is a precomposition that shows the next one.
pub open spec fn is_chain(assets: Seq<AssetEntry>, s: Seq<int>) -> bool {
    forall|i: int| 0 <= i < s.len() - 1 ==> shows(assets, #[trigger] s[i], s[i + 1])
}

/// Precomposition `k` contains itself, directly or through other precompositions.
pub open spec fn contains_itself(assets: Seq<AssetEntry>, k: int) -> bool {
    exists|s: Seq<int>| s.len() >= 2 && is_chain(assets, s) && s[0] == k && s.last() == k
}

/// When some asset has id `id`, a last one does.
proof fn lemma_last_with_id(assets: Seq<AssetEntry>, id: Seq<char>)
    requires
        exists|k: int| 0 <= k < assets.len() && assets[k].id@ == id,
    ensures
        exists|k: int|
            0 <= k < assets.len() && assets[k].id@ == id && forall|m: int|
                k < m < assets.len() ==> assets[m].id@ != id,
    decreases assets.len(),
{
    let n = assets.len() as int;
    if assets[n - 1].id@ == id {
        assert(forall|m: int| n - 1 < m < n ==> assets[m].id@ != id);
    } else {
        let k0 = choose|k: int| 0 <= k < assets.len() && assets[k].id@ == id;
        let prefix = assets.drop_last();
        assert(prefix[k0] == assets[k0]);
        lemma_last_with_id(prefix, id);
        let k = choose|k: int|
            0 <= k < prefix.len() && prefix[k].id@ == id && forall|m: int|
                k < m < prefix.len() ==> prefix[m].id@ != id;
        assert(assets[k] == prefix[k]);
        assert forall|m: int| k < m < assets.len() implies assets[m].id@ != id by {
            if m < n - 1 {
                assert(assets[m] == prefix[m]);
            }
        }
    }
}

proof fn lemma_asset_by_id_in_range(assets: Seq<AssetEntry>, id: Seq<char>)
    ensures
        asset_by_id(assets, id) matches Some(k) ==> 0 <= k < assets.len(),
{
    reveal(asset_by_id);
    if exists|k: int| 0 <= k < assets.len() && assets[k].id@ == id {
        lemma_last_with_id(assets, id);
    }
}

/// Nesting that goes `fuel` levels deep gives a chain of `fuel` precompositions,
/// the first shown by one of the layers.
proof fn lemma_deep_nesting_chain(layers: Seq<LayerLink>, assets: Seq<AssetEntry>, fuel: nat)
    requires
        !expands_within(layers, assets, fuel),
    ensures
        exists|s: Seq<int>|
            {
                &&& s.len() == fuel
                &&& is_chain(assets, s)
                &&& forall|i: int| 0 <= i < s.len() ==> 0 <= #[trigger] s[i] < assets.len()
                &&& fuel > 0 ==> exists|j: int|
                    0 <= j < layers.len() && nested_asset(#[trigger] layers[j], assets) == Some(s[0])
            },
    decreases fuel, layers.len(),
{
    if fuel == 0 {
        let s: Seq<int> = Seq::empty();
        assert(is_chain(assets, s));
        assert(s.len() == fuel && is_chain(assets, s) && (forall|i: int| 0 <= i < s.len() ==> 0 <= #[trigger] s[i] < assets.len()));
    } else if !expands_within(layers.drop_last(), assets, fuel) {
        lemma_deep_nesting_chain(layers.drop_last(), assets, fuel);
        let s = choose|s: Seq<int>|
            {
                &&& s.len() == fuel
                &&& is_chain(assets, s)
                &&& forall|i: int| 0 <= i < s.len() ==> 0 <= #[trigger] s[i] < assets.len()
                &&& fuel > 0 ==> exists|j: int|
                    0 <= j < layers.drop_last().len() && nested_asset(
                        #[trigger] layers.drop_last()[j],
                        assets,
                    ) == Some(s[0])
            };
        let j = choose|j: int|
            0 <= j < layers.drop_last().len() && nested_asset(
                #[trigger] layers.drop_last()[j],
                assets,
            ) == Some(s[0]);
        assert(layers[j] == layers.drop_last()[j]);
        assert(exists|j: int| 0 <= j < layers.len() && nested_asset(#[trigger] layers[j], assets) == Some(s[0]));
    } else {
        let last = layers.last();
        let sub = nested_layers(last, assets)->0;
        let r = last.ref_id->0;
        lemma_asset_by_id_in_range(assets, r@);
        let k = asset_by_id(assets, r@)->0;
        assert(nested_asset(last, assets) == Some(k));
        assert(sub == assets[k].layers->0@);
        lemma_deep_nesting_chain(sub, assets, (fuel - 1) as nat);
        let t = choose|t: Seq<int>|
            {
                &&& t.len() == fuel - 1
                &&& is_chain(assets, t)
                &&& forall|i: int| 0 <= i < t.len() ==> 0 <= #[trigger] t[i] < assets.len()
                &&& fuel - 1 > 0 ==> exists|j: int|
                    0 <= j < sub.len() && nested_asset(#[trigger] sub[j], assets) == Some(t[0])
            };
        let s = seq![k] + t;
        assert forall|i: int| 0 <= i < s.len() - 1 implies shows(assets, #[trigger] s[i], s[i + 1]) by {
            if i == 0 {
                let j = choose|j: int| 0 <= j < sub.len() && nested_asset(#[trigger] sub[j], assets) == Some(t[0]);
                assert(nested_asset(assets[k].layers->0@[j], assets) == Some(s[1]));
            } else {
                assert(s[i] == t[i - 1] && s[i + 1] == t[i]);
            }
        }
        assert forall|i: int| 0 <= i < s.len() implies 0 <= #[trigger] s[i] < assets.len() by {
            if i > 0 {
                assert(s[i] == t[i - 1]);
            }
        }
        assert(nested_asset(layers[layers.len() - 1], assets) == Some(s[0]));
        assert(exists|j: int| 0 <= j < layers.len() && nested_asset(#[trigger] layers[j], assets) == Some(s[0]));
        assert(s.len() == fuel);
    }
}

/// A sequence of `n + 1` numbers below `n` repeats one of them.
pub(crate) proof fn lemma_pigeonhole(s: Seq<int>, n: int)
    requires
        n >= 0,
        s.len() == n + 1,
        forall|i: int| 0 <= i < s.len() ==> 0 <= #[trigger] s[i] < n,
    ensures
        exists|i: int, j: int| 0 <= i < j < s.len() && #[trigger] s[i] == #[trigger] s[j],
{
    if s.no_duplicates() {
        s.unique_seq_to_set();
        vstd::set_lib::lemma_int_range(0, n);
        assert(s.to_set().subset_of(vstd::set_lib::set_int_range(0, n)));
        vstd::set_lib::lemma_len_subset(s.to_set(), vstd::set_lib::set_int_range(0, n));
    } else {
        let (i, j) = choose|i: int, j: int|
            0 <= i < s.len() && 0 <= j < s.len() && i != j && s[i] == s[j];
        if i < j {
            assert(s[i] == s[j]);
        } else {
            assert(s[j] == s[i]);
        }
    }
}

/// When precompositions nest deeper than there are assets, some precomposition
/// contains itself, directly or through others: walking a list of layers through
/// the precompositions they show fails to end only because of such a cycle.
pub proof fn lemma_deep_nesting_means_self_containment(
    layers: Seq<LayerLink>,
    assets: Seq<AssetEntry>,
)
    requires
        !expands_within(layers, assets, (assets.len() + 1) as nat),
    ensures
        exists|k: int| 0 <= k < assets.len() && #[trigger] contains_itself(assets, k),
{
    let n = assets.len() as int;
    lemma_deep_nesting_chain(layers, assets, (n + 1) as nat);
    let s = choose|s: Seq<int>|
        {
            &&& s.len() == n + 1
            &&& is_chain(assets, s)
            &&& forall|i: int| 0 <= i < s.len() ==> 0 <= #[trigger] s[i] < assets.len()
            &&& n + 1 > 0 ==> exists|j: int|
                0 <= j < layers.len() && nested_asset(#[trigger] layers[j], assets) == Some(s[0])
        };
    lemma_pigeonhole(s, n);
    let (i, j) = choose|i: int, j: int| 0 <= i < j < s.len() && #[trigger] s[i] == #[trigger] s[j];
    let c = s.subrange(i, j + 1);
    assert forall|x: int| 0 <= x < c.len() - 1 implies shows(assets, #[trigger] c[x], c[x + 1]) by {
        assert(c[x] == s[i + x] && c[x + 1] == s[i + x + 1]);
    }
    assert(c.len() >= 2 && is_chain(assets, c) && c[0] == s[i] && c.last() == s[i]);
    assert(contains_itself(assets, s[i]));
}

} // verus!
