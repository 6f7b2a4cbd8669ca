//! Resolving a release listing to the ordered set of assets that can be served.

use crate::asset::{
    asset_lt, lemma_asset_order_strict, lemma_asset_order_total, lemma_asset_order_transitive, Asset, AssetView,
};
use crate::text::{contains, has_substring, Order};
use vstd::prelude::*;

verus! {

/// The listing of a tagged release as the platform gives it: each asset with
/// the MIME string that was declared for it.
#[derive(Debug, Clone, PartialEq, Eq)]
pub struct Release {
    pub assets: Vec<Asset<String>>,
}

/// A name passes the filters when there are none, or when one of them occurs
/// in it. The match is case-sensitive.
pub open spec fn name_passes(name: Seq<char>, filters: Seq<Seq<char>>) -> bool {
    filters.len() == 0 || exists|k: int| 0 <= k < filters.len() && contains(name, #[trigger] filters[k])
}

/// The asset that a listing entry contributes under the filters, if any: its
/// declared MIME string must tag a type and its name must pass.
pub open spec fn selects(entry: Asset<String>, filters: Seq<Seq<char>>) -> Option<AssetView> {
    match entry.recognized() {
        Some(a) => if name_passes(a.name, filters) {
            Some(a)
        } else {
            None
        },
        None => None,
    }
}

/// The views of a sequence of assets.
pub open spec fn views_of(assets: Seq<Asset>) -> Seq<AssetView> {
    assets.map_values(|a: Asset| a@)
}

/// Each asset comes strictly before all later ones, so none occurs twice.
pub open spec fn ascending(s: Seq<AssetView>) -> bool {
    forall|i: int, j: int| 0 <= i < j < s.len() ==> asset_lt(#[trigger] s[i], #[trigger] s[j])
}

/// The listing entries `listed` resolve under `filters` to exactly the assets
/// of `out`, in ascending order.
pub open spec fn resolves_to(listed: Seq<Asset<String>>, filters: Seq<Seq<char>>, out: Seq<AssetView>) -> bool {
    &&& ascending(out)
    &&& forall|a: AssetView| #[trigger]
        out.contains(a) <==> exists|i: int|
            0 <= i < listed.len() && selects(#[trigger] listed[i], filters) == Some(a)
}

/// Whether `name` passes `filters`.
pub fn passes(name: &str, filters: &Vec<String>) -> (r: bool)
    ensures
        r == name_passes(name@, filters.deep_view()),
{
    if filters.len() == 0 {
        return true;
    }
    let ghost fs = filters.deep_view();
    let mut k: usize = 0;
    while k < filters.len()
        invariant
            k <= filters.len(),
            fs == filters.deep_view(),
            fs.len() == filters.len(),
            forall|j: int| 0 <= j < k ==> !contains(name@, #[trigger] fs[j]),
        decreases filters.len() - k,
    {
        assert(fs[k as int] == filters[k as int]@);
        if has_substring(name, filters[k].as_str()) {
            return true;
        }
        k += 1;
    }
    false
}

/// Puts `asset` at its place in an ascending sequence, unless an equal asset
/// is there already.
pub fn insert(set: &mut Vec<Asset>, asset: Asset)
    requires
        ascending(views_of(old(set)@)),
    ensures
        ascending(views_of(final(set)@)),
        forall|a: AssetView| #[trigger]
            views_of(final(set)@).contains(a) <==> (a == asset@ || views_of(old(set)@).contains(a)),
{
    let ghost before = views_of(set@);
    let mut i: usize = 0;
    while i < set.len()
        invariant
            i <= set.len(),
            before == views_of(set@),
            ascending(before),
            forall|k: int| 0 <= k < i ==> asset_lt(#[trigger] before[k], asset@),
        ensures
            i < set.len() ==> asset_lt(before[i as int], asset@) || asset_lt(asset@, before[i as int]),
            i < set.len() ==> !asset_lt(before[i as int], asset@),
        decreases set.len() - i,
    {
        assert(before[i as int] == set@[i as int]@);
        match set[i].order(&asset) {
            Order::Less => {
                i += 1;
            },
            Order::Equal => {
                assert(before.contains(asset@));
                return ;
            },
            Order::Greater => {
                proof {
                    lemma_asset_order_total(before[i as int], asset@);
                }
                break ;
            },
        }
    }
    set.insert(i, asset);
    proof {
        let after = views_of(set@);
        assert(after =~= before.insert(i as int, asset@));
        assert forall|p: int, q: int| 0 <= p < q < after.len() implies asset_lt(
            #[trigger] after[p],
            #[trigger] after[q],
        ) by {
            if q < i {
                assert(after[p] == before[p] && after[q] == before[q]);
            } else if q == i {
                assert(after[p] == before[p]);
            } else if p == i {
                assert(after[q] == before[q - 1]);
                if q - 1 > i {
                    lemma_asset_order_transitive(asset@, before[i as int], before[q - 1]);
                }
            } else if p < i {
                assert(after[p] == before[p] && after[q] == before[q - 1]);
            } else {
                assert(after[p] == before[p - 1] && after[q] == before[q - 1]);
            }
        }
        assert forall|a: AssetView| #[trigger] after.contains(a) <==> (a == asset@ || before.contains(a)) by {
            if after.contains(a) {
                let k = choose|k: int| 0 <= k < after.len() && after[k] == a;
                if k < i {
                    assert(before[k] == a);
                } else if k > i {
                    assert(before[k - 1] == a);
                }
            }
            if before.contains(a) {
                let k = choose|k: int| 0 <= k < before.len() && before[k] == a;
                if k < i {
                    assert(after[k] == a);
                } else {
                    assert(after[k + 1] == a);
                }
            }
            if a == asset@ {
                assert(after[i as int] == a);
            }
        }
    }
}

/// Resolves a release listing: classifies each entry by its declared MIME
/// string, drops the entries whose string tags no type, keeps those whose
/// name passes the filters, and returns them in ascending order, each once.
pub fn resolve(release: Release, filters: &Vec<String>) -> (out: Vec<Asset>)
    ensures
        resolves_to(release.assets@, filters.deep_view(), views_of(out@)),
{
    let ghost listed = release.assets@;
    let ghost fs = filters.deep_view();
    let mut entries = release.assets;
    let mut out: Vec<Asset> = Vec::new();
    while entries.len() > 0
        invariant
            entries@.len() <= listed.len(),
            entries@ == listed.take(entries@.len() as int),
            fs == filters.deep_view(),
            ascending(views_of(out@)),
            forall|a: AssetView| #[trigger]
                views_of(out@).contains(a) <==> exists|i: int|
                    entries@.len() <= i < listed.len() && selects(#[trigger] listed[i], fs) == Some(a),
        decreases entries.len(),
    {
        let ghost n = entries@.len() - 1;
        let ghost seen = views_of(out@);
        let entry = entries.pop().unwrap();
        assert(entry == listed[n]);
        assert(entries@ == listed.take(n));
        match entry.classify().known() {
            Some(asset) => {
                if passes(asset.name.as_str(), filters) {
                    assert(selects(listed[n], fs) == Some(asset@));
                    insert(&mut out, asset);
                } else {
                    assert(selects(listed[n], fs) is None);
                }
            },
            None => {
                assert(selects(listed[n], fs) is None);
            },
        }
        proof {
            let now = views_of(out@);
            assert forall|a: AssetView| #[trigger]
                now.contains(a) <==> exists|i: int|
                    n <= i < listed.len() && selects(#[trigger] listed[i], fs) == Some(a) by {
                if seen.contains(a) {
                    let i = choose|i: int| n + 1 <= i < listed.len() && selects(#[trigger] listed[i], fs) == Some(a);
                    assert(n <= i < listed.len() && selects(listed[i], fs) == Some(a));
                }
                if exists|i: int| n <= i < listed.len() && selects(#[trigger] listed[i], fs) == Some(a) {
                    let i = choose|i: int| n <= i < listed.len() && selects(#[trigger] listed[i], fs) == Some(a);
                    if i > n {
                        assert(n + 1 <= i < listed.len() && selects(listed[i], fs) == Some(a));
                    }
                }
            }
        }
    }
    assert(listed.take(0) =~= entries@);
    out
}

/// An ascending sequence is determined by the assets that occur in it.
pub proof fn lemma_ascending_unique(s: Seq<AssetView>, t: Seq<AssetView>)
    requires
        ascending(s),
        ascending(t),
        forall|a: AssetView| s.contains(a) <==> t.contains(a),
    ensures
        s == t,
    decreases s.len(),
{
    if s.len() == 0 {
        if t.len() > 0 {
            assert(t.contains(t[0]));
        }
        assert(s =~= t);
    } else {
        assert(s.contains(s[0]));
        let j = choose|j: int| 0 <= j < t.len() && t[j] == s[0];
        assert(t.contains(t[0]));
        let i = choose|i: int| 0 <= i < s.len() && s[i] == t[0];
        lemma_asset_order_strict(s[0], t[0]);
        lemma_asset_order_strict(t[0], s[0]);
        assert(s[0] == t[0]);
        let s1 = s.drop_first();
        let t1 = t.drop_first();
        assert forall|a: AssetView| s1.contains(a) <==> t1.contains(a) by {
            if s1.contains(a) {
                let k = choose|k: int| 0 <= k < s1.len() && s1[k] == a;
                assert(s[k + 1] == a);
                assert(s.contains(a));
                lemma_asset_order_strict(s[0], s[k + 1]);
                let m = choose|m: int| 0 <= m < t.len() && t[m] == a;
                assert(t1[m - 1] == a);
            }
            if t1.contains(a) {
                let k = choose|k: int| 0 <= k < t1.len() && t1[k] == a;
                assert(t[k + 1] == a);
                assert(t.contains(a));
                lemma_asset_order_strict(t[0], t[k + 1]);
                let m = choose|m: int| 0 <= m < s.len() && s[m] == a;
                assert(s1[m - 1] == a);
            }
        }
        assert(ascending(s1)) by {
            assert forall|p: int, q: int| 0 <= p < q < s1.len() implies asset_lt(
                #[trigger] s1[p],
                #[trigger] s1[q],
            ) by {
                assert(s1[p] == s[p + 1] && s1[q] == s[q + 1]);
            }
        }
        assert(ascending(t1)) by {
            assert forall|p: int, q: int| 0 <= p < q < t1.len() implies asset_lt(
                #[trigger] t1[p],
                #[trigger] t1[q],
            ) by {
                assert(t1[p] == t[p + 1] && t1[q] == t[q + 1]);
            }
        }
        lemma_ascending_unique(s1, t1);
        assert(s =~= seq![s[0]] + s1);
        assert(t =~= seq![t[0]] + t1);
    }
}

/// Resolution is deterministic: a listing and a filter list have one
/// resolved sequence, so resolving the same input again gives it again.
pub proof fn lemma_resolution_deterministic(
    listed: Seq<Asset<String>>,
    filters: Seq<Seq<char>>,
    first: Seq<AssetView>,
    second: Seq<AssetView>,
)
    requires
        resolves_to(listed, filters, first),
        resolves_to(listed, filters, second),
    ensures
        first == second,
{
    assert forall|a: AssetView| first.contains(a) <==> second.contains(a) by {
        assert(first.contains(a) <==> exists|i: int|
            0 <= i < listed.len() && selects(#[trigger] listed[i], filters) == Some(a));
        assert(second.contains(a) <==> exists|i: int|
            0 <= i < listed.len() && selects(#[trigger] listed[i], filters) == Some(a));
    }
    lemma_ascending_unique(first, second);
}

} // verus!
