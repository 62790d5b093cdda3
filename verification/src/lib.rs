//! A directory registry of decentralized applications.
//!
//! The registry stores listing records, each owned by an account and indexed
//! for lookup by unique slug, by the listed application's own account, and by
//! category membership.  New listings go through an asynchronous
//! verification-commit protocol: the claimed endpoint is probed with a web
//! request, the submitter's deposit is held in escrow during the round trip,
//! and the listing is committed only when the probe answers (with one bounded
//! retry when the probe call itself fails to complete).
//!
//! The host environment (caller identity, attached deposit, the actual network
//! calls and transfers) lives outside this crate; every operation here takes
//! those observations as plain arguments and returns the actions to perform,
//! so the whole decision logic is verified.
use vstd::prelude::*;

pub mod app;
pub mod category;
pub mod errors;
pub mod guardians;
pub mod index;
pub mod members;
pub mod text;
pub mod utils;
pub mod web4;

use crate::app::{App, AppJSON, VApp, json_of};
use crate::category::{Category, CategoryJSON, VCategory};
use crate::errors::RegistryError;
use crate::index::{index_lookup, keys_distinct, lemma_lookup_characterize, spec_key_index, spec_lookup};
use crate::utils::{cjson_of, page_end, page_from, unordered_map_pagination, vapp_json, vcat_json};

verus! {

/// Identifier of a listing; listing ids are dense and monotonically assigned.
pub type AppId = u64;

/// Identifier of a category; category ids are dense and monotonically assigned.
pub type CategoryId = u64;

/// The registry: listings, categories, guardians, and the derived indices.
pub struct Contract {
    /// Accounts allowed to moderate; never empty.
    pub guardians: Vec<String>,
    /// Listing records; the vector index is the listing id.
    pub apps: Vec<VApp>,
    /// Category records; the vector index is the category id.
    pub categories: Vec<VCategory>,
    /// Slug of each listing, pointing back at its id.
    pub app_id_by_slug: Vec<(String, AppId)>,
    /// For each category id, the listings currently indexed under it.
    pub apps_ids_by_category_id: Vec<Vec<AppId>>,
    /// Account of each listed application, pointing back at the listing id.
    pub app_id_by_dapp_account_id: Vec<(String, AppId)>,
    pub next_app_id: AppId,
    pub next_category_id: CategoryId,
    /// Running count of listings whose active flag is exactly `false`.
    pub disabled_apps: u64,
}

/// No identifier occurs twice.
pub open spec fn distinct_ids(s: Seq<AppId>) -> bool {
    forall|k: int, l: int| 0 <= k < l < s.len() ==> s[k] != s[l]
}

/// A stored listing is disabled when its active flag is exactly `false`.
pub open spec fn is_disabled(v: VApp) -> bool {
    v.spec_app().active == Some(false)
}

/// How many stored listings are disabled.
pub open spec fn count_disabled(s: Seq<VApp>) -> int
    decreases s.len(),
{
    if s.len() == 0 {
        0
    } else {
        count_disabled(s.drop_last()) + if is_disabled(s.last()) { 1int } else { 0int }
    }
}

/// The disabled count lies between zero and the number of listings.
pub proof fn lemma_count_disabled_bounds(s: Seq<VApp>)
    ensures
        0 <= count_disabled(s) <= s.len(),
    decreases s.len(),
{
    if s.len() > 0 {
        lemma_count_disabled_bounds(s.drop_last());
    }
}

/// Replacing one record moves the count by the difference of the two records.
pub proof fn lemma_count_disabled_update(s: Seq<VApp>, i: int, v: VApp)
    requires
        0 <= i < s.len(),
    ensures
        count_disabled(s.update(i, v)) == count_disabled(s) - (if is_disabled(s[i]) { 1int } else { 0int })
            + (if is_disabled(v) { 1int } else { 0int }),
    decreases s.len(),
{
    let t = s.update(i, v);
    if i == s.len() - 1 {
        assert(t.drop_last() =~= s.drop_last());
        assert(t.last() == v);
    } else {
        assert(t.drop_last() =~= s.drop_last().update(i, v));
        assert(t.last() == s.last());
        lemma_count_disabled_update(s.drop_last(), i, v);
    }
}

/// Appending a record adds its own contribution to the count.
pub proof fn lemma_count_disabled_push(s: Seq<VApp>, v: VApp)
    ensures
        count_disabled(s.push(v)) == count_disabled(s) + (if is_disabled(v) { 1int } else { 0int }),
{
    assert(s.push(v).drop_last() =~= s);
    assert(s.push(v).last() == v);
}

/// Well-formedness does not depend on the running counter, and on the
/// guardians only through their number and distinctness: a state whose
/// listings, categories and indices agree with a well-formed one is itself
/// well-formed.
pub proof fn lemma_wf_frame(pre: Contract, post: Contract)
    requires
        pre.wf(),
        post.guardians@.len() > 0,
        post.guardians_distinct(),
        post.apps@ == pre.apps@,
        post.categories@ == pre.categories@,
        post.app_id_by_slug@ == pre.app_id_by_slug@,
        post.apps_ids_by_category_id@ == pre.apps_ids_by_category_id@,
        post.app_id_by_dapp_account_id@ == pre.app_id_by_dapp_account_id@,
        post.next_app_id == pre.next_app_id,
        post.next_category_id == pre.next_category_id,
    ensures
        post.wf(),
{
    assert forall|i: int| 0 <= i < post.apps@.len() implies app_valid(
        #[trigger] post.app_at(i),
        post.categories@.len() as int,
    ) by {
        assert(post.app_at(i) == pre.app_at(i));
        assert(app_valid(pre.app_at(i), pre.categories@.len() as int));
    }
    assert forall|i: int| 0 <= i < post.apps@.len() implies spec_lookup(
        post.app_id_by_slug@,
        (#[trigger] post.app_at(i)).slug@,
    ) == Some(i as AppId) by {
        assert(post.app_at(i) == pre.app_at(i));
        assert(spec_lookup(pre.app_id_by_slug@, pre.app_at(i).slug@) == Some(i as AppId));
    }
    assert forall|i: int| 0 <= i < post.apps@.len() implies spec_lookup(
        post.app_id_by_dapp_account_id@,
        (#[trigger] post.app_at(i)).dapp_account_id@,
    ) == Some(i as AppId) by {
        assert(post.app_at(i) == pre.app_at(i));
        assert(spec_lookup(pre.app_id_by_dapp_account_id@, pre.app_at(i).dapp_account_id@) == Some(
            i as AppId,
        ));
    }
    assert forall|j: int| 0 <= j < post.app_id_by_slug@.len() implies (
    #[trigger] post.app_id_by_slug@[j]).1 < post.apps@.len() && post.app_at(
        post.app_id_by_slug@[j].1 as int,
    ).slug@ == post.app_id_by_slug@[j].0@ by {
        assert(pre.app_id_by_slug@[j] == post.app_id_by_slug@[j]);
        assert(post.app_at(post.app_id_by_slug@[j].1 as int) == pre.app_at(
            pre.app_id_by_slug@[j].1 as int,
        ));
    }
    assert forall|j: int| 0 <= j < post.app_id_by_dapp_account_id@.len() implies (
    #[trigger] post.app_id_by_dapp_account_id@[j]).1 < post.apps@.len() && post.app_at(
        post.app_id_by_dapp_account_id@[j].1 as int,
    ).dapp_account_id@ == post.app_id_by_dapp_account_id@[j].0@ by {
        assert(pre.app_id_by_dapp_account_id@[j] == post.app_id_by_dapp_account_id@[j]);
        assert(post.app_at(post.app_id_by_dapp_account_id@[j].1 as int) == pre.app_at(
            pre.app_id_by_dapp_account_id@[j].1 as int,
        ));
    }
    assert forall|c: int| 0 <= c < post.apps_ids_by_category_id@.len() implies distinct_ids(
        #[trigger] post.members_at(c),
    ) && (forall|k: int| 0 <= k < post.members_at(c).len() ==> (#[trigger] post.members_at(c)[k])
        < post.apps@.len() && post.app_at(post.members_at(c)[k] as int).categories@.contains(
        c as CategoryId,
    )) by {
        assert(post.members_at(c) == pre.members_at(c));
        assert(distinct_ids(pre.members_at(c)));
        assert forall|k: int| 0 <= k < post.members_at(c).len() implies (#[trigger] post.members_at(
            c,
        )[k]) < post.apps@.len() && post.app_at(post.members_at(c)[k] as int).categories@.contains(
            c as CategoryId,
        ) by {
            assert((pre.members_at(c)[k]) < pre.apps@.len() && pre.app_at(
                pre.members_at(c)[k] as int,
            ).categories@.contains(c as CategoryId));
            assert(post.app_at(post.members_at(c)[k] as int) == pre.app_at(
                pre.members_at(c)[k] as int,
            ));
        }
    }
    assert forall|i: int, k: int|
        0 <= i < post.apps@.len() && post.app_at(i).active != Some(false) && 0 <= k < post.app_at(
            i,
        ).categories@.len() implies post.members_at(
        (#[trigger] post.app_at(i).categories@[k]) as int,
    ).contains(i as AppId) by {
        assert(post.app_at(i) == pre.app_at(i));
        let cc = pre.app_at(i).categories@[k] as int;
        assert(pre.members_at(cc).contains(i as AppId));
        assert(post.members_at(cc) == pre.members_at(cc));
    }
}

/// Index consistency: in a well-formed registry every listing is found in the
/// slug index under its own slug and in the account index under its own
/// application account; a listing id stands in a category's membership list
/// only if that category is in the listing's own category set; and every
/// displayable listing stands in the membership list of each of its
/// categories.
pub proof fn lemma_index_consistency(c: Contract, i: int)
    requires
        c.wf(),
        0 <= i < c.apps@.len(),
    ensures
        spec_lookup(c.app_id_by_slug@, c.app_at(i).slug@) == Some(i as AppId),
        spec_lookup(c.app_id_by_dapp_account_id@, c.app_at(i).dapp_account_id@) == Some(i as AppId),
        c.app_at(i).active != Some(false) ==> forall|k: int|
            0 <= k < c.app_at(i).categories@.len() ==> c.members_at(
                (#[trigger] c.app_at(i).categories@[k]) as int,
            ).contains(i as AppId),
        forall|cc: int, k: int|
            0 <= cc < c.apps_ids_by_category_id@.len() && 0 <= k < c.members_at(cc).len() && (
            #[trigger] c.members_at(cc)[k]) == i as AppId ==> c.app_at(i).categories@.contains(
                cc as CategoryId,
            ),
{
}

/// A listing request is valid against a registry of `ncats` categories when
/// its category ids are distinct and all known.
pub open spec fn app_valid(a: App, ncats: int) -> bool {
    &&& distinct_ids(a.categories@)
    &&& forall|k: int| 0 <= k < a.categories@.len() ==> #[trigger] a.categories@[k] < ncats
}

impl Contract {
    /// The stored listing record with the given id.
    pub open spec fn app_at(self, i: int) -> App {
        self.apps@[i].spec_app()
    }

    /// The stored category record with the given id.
    pub open spec fn cat_at(self, c: int) -> Category {
        self.categories@[c].spec_cat()
    }

    /// The listings indexed under a category id.
    pub open spec fn members_at(self, c: int) -> Seq<AppId> {
        self.apps_ids_by_category_id@[c]@
    }

    /// Every stored listing is valid against the category registry.
    pub open spec fn apps_wf(self) -> bool {
        forall|i: int| 0 <= i < self.apps@.len() ==> app_valid(
            #[trigger] self.app_at(i),
            self.categories@.len() as int,
        )
    }

    /// The slug index holds distinct keys, each entry points at a listing
    /// carrying that slug, and every listing's slug resolves to its id.
    pub open spec fn slug_index_wf(self) -> bool {
        &&& keys_distinct(self.app_id_by_slug@)
        &&& forall|j: int| 0 <= j < self.app_id_by_slug@.len() ==> (#[trigger] self.app_id_by_slug@[j]).1
            < self.apps@.len() && self.app_at(self.app_id_by_slug@[j].1 as int).slug@
            == self.app_id_by_slug@[j].0@
        &&& forall|i: int| 0 <= i < self.apps@.len() ==> spec_lookup(
            self.app_id_by_slug@,
            (#[trigger] self.app_at(i)).slug@,
        ) == Some(i as AppId)
    }

    /// The account index holds distinct keys, each entry points at a listing
    /// with that application account, and every listing's account resolves to
    /// its id.
    pub open spec fn account_index_wf(self) -> bool {
        &&& keys_distinct(self.app_id_by_dapp_account_id@)
        &&& forall|j: int| 0 <= j < self.app_id_by_dapp_account_id@.len() ==> (
            #[trigger] self.app_id_by_dapp_account_id@[j]).1 < self.apps@.len() && self.app_at(
            self.app_id_by_dapp_account_id@[j].1 as int,
        ).dapp_account_id@ == self.app_id_by_dapp_account_id@[j].0@
        &&& forall|i: int| 0 <= i < self.apps@.len() ==> spec_lookup(
            self.app_id_by_dapp_account_id@,
            (#[trigger] self.app_at(i)).dapp_account_id@,
        ) == Some(i as AppId)
    }

    /// Every category membership entry names a listing that carries the
    /// category, and no listing is listed twice under one category.
    pub open spec fn members_wf(self) -> bool {
        forall|c: int| 0 <= c < self.apps_ids_by_category_id@.len() ==> distinct_ids(
            #[trigger] self.members_at(c),
        ) && (forall|k: int| 0 <= k < self.members_at(c).len() ==> (#[trigger] self.members_at(c)[k])
            < self.apps@.len() && self.app_at(self.members_at(c)[k] as int).categories@.contains(
            c as CategoryId,
        ))
    }

    /// Every displayable listing is indexed under each of its categories.
    pub open spec fn active_membership_wf(self) -> bool {
        forall|i: int, k: int| 0 <= i < self.apps@.len() && self.app_at(i).active != Some(false) && 0
            <= k < self.app_at(i).categories@.len() ==> self.members_at(
            (#[trigger] self.app_at(i).categories@[k]) as int,
        ).contains(i as AppId)
    }

    /// No account is listed twice among the guardians.
    pub open spec fn guardians_distinct(self) -> bool {
        forall|i: int, j: int| 0 <= i < j < self.guardians@.len() ==> self.guardians@[i]@
            != self.guardians@[j]@
    }

    /// Structural well-formedness: dense ids and mutually consistent indices.
    pub open spec fn wf(self) -> bool {
        &&& self.next_app_id as int == self.apps@.len()
        &&& self.next_category_id as int == self.categories@.len()
        &&& self.apps_ids_by_category_id@.len() == self.categories@.len()
        &&& self.guardians@.len() > 0
        &&& self.guardians_distinct()
        &&& self.apps_wf()
        &&& self.slug_index_wf()
        &&& self.account_index_wf()
        &&& self.members_wf()
        &&& self.active_membership_wf()
    }

    /// The running disabled count agrees with the stored records.
    pub open spec fn counter_consistent(self) -> bool {
        self.disabled_apps as int == count_disabled(self.apps@)
    }

    /// Whether an account is a guardian.
    pub open spec fn spec_is_guardian(self, account: Seq<char>) -> bool {
        exists|g: int| 0 <= g < self.guardians@.len() && #[trigger] self.guardians@[g]@ == account
    }

    /// Creates the registry with a single initial guardian.
    pub fn new(guardian_id: String) -> (c: Contract)
        ensures
            c.wf(),
            c.counter_consistent(),
            c.guardians@.len() == 1 && c.guardians@[0] == guardian_id,
            c.apps@.len() == 0,
            c.categories@.len() == 0,
            c.next_app_id == 0,
            c.next_category_id == 0,
            c.disabled_apps == 0,
    {
        let mut guardians: Vec<String> = Vec::new();
        guardians.push(guardian_id);
        Contract {
            guardians,
            apps: Vec::new(),
            categories: Vec::new(),
            app_id_by_slug: Vec::new(),
            apps_ids_by_category_id: Vec::new(),
            app_id_by_dapp_account_id: Vec::new(),
            next_app_id: 0,
            next_category_id: 0,
            disabled_apps: 0,
        }
    }

    /// Fetches one listing by id.
    pub fn get_app(&self, app_id: AppId) -> (r: Result<AppJSON, RegistryError>)
        ensures
            match r {
                Ok(j) => app_id < self.apps@.len() && json_of(self.app_at(app_id as int), j),
                Err(e) => app_id >= self.apps@.len() && e == RegistryError::NotFoundError,
            },
    {
        if app_id < self.apps.len() as u64 {
            Ok(vapp_json(&self.apps[app_id as usize]))
        } else {
            Err(RegistryError::NotFoundError)
        }
    }

    /// Fetches one listing by slug.
    pub fn get_app_by_slug(&self, slug: String) -> (r: Result<AppJSON, RegistryError>)
        requires
            self.wf(),
        ensures
            match r {
                Ok(j) => spec_lookup(self.app_id_by_slug@, slug@) matches Some(id) && json_of(
                    self.app_at(id as int),
                    j,
                ),
                Err(e) => spec_lookup(self.app_id_by_slug@, slug@) is None && e
                    == RegistryError::NotFoundError,
            },
    {
        match self.internal_get_app_by_slug(&slug) {
            Ok((_, v)) => Ok(AppJSON::from(v)),
            Err(e) => Err(e),
        }
    }

    /// Fetches one listing by the listed application's account.
    pub fn get_app_by_account_id(&self, account_id: String) -> (r: Result<AppJSON, RegistryError>)
        requires
            self.wf(),
        ensures
            match r {
                Ok(j) => spec_lookup(self.app_id_by_dapp_account_id@, account_id@) matches Some(id)
                    && json_of(self.app_at(id as int), j),
                Err(e) => spec_lookup(self.app_id_by_dapp_account_id@, account_id@) is None && e
                    == RegistryError::NotFoundError,
            },
    {
        match index_lookup(&self.app_id_by_dapp_account_id, account_id.as_str()) {
            Some(app_id) => {
                proof {
                    lemma_lookup_characterize(self.app_id_by_dapp_account_id@, account_id@);
                    let p = spec_key_index(self.app_id_by_dapp_account_id@, account_id@);
                    assert(self.app_id_by_dapp_account_id@[p].1 == app_id);
                    assert(app_id < self.apps@.len());
                }
                let nlen = self.apps.len();
                assert(app_id < nlen as u64);
                Ok(vapp_json(&self.apps[app_id as usize]))
            }
            None => Err(RegistryError::NotFoundError),
        }
    }

    /// How many listings are indexed under a category.
    pub fn get_category_apps_count(&self, category_id: CategoryId) -> (r: Result<u64, RegistryError>)
        ensures
            match r {
                Ok(n) => category_id < self.apps_ids_by_category_id@.len() && n as int
                    == self.members_at(category_id as int).len(),
                Err(e) => category_id >= self.apps_ids_by_category_id@.len() && e
                    == RegistryError::NotFoundError,
            },
    {
        if category_id < self.apps_ids_by_category_id.len() as u64 {
            Ok(self.apps_ids_by_category_id[category_id as usize].len() as u64)
        } else {
            Err(RegistryError::NotFoundError)
        }
    }

    /// A stable page of listings in insertion order.
    pub fn get_apps(&self, from_index: Option<u64>, limit: Option<u64>) -> (r: Vec<(AppId, AppJSON)>)
        ensures
            ({
                let from = page_from(from_index) as int;
                let end = page_end(self.apps@.len() as int, from_index, limit);
                &&& r@.len() == if from <= end { end - from } else { 0int }
                &&& forall|k: int| 0 <= k < r@.len() ==> (#[trigger] r@[k]).0 == from + k && json_of(
                    self.app_at(from + k),
                    r@[k].1,
                )
            }),
    {
        let page = unordered_map_pagination(&self.apps, from_index, limit);
        let mut r: Vec<(AppId, AppJSON)> = Vec::new();
        let n = page.len();
        let mut j: usize = 0;
        while j < n
            invariant
                0 <= j <= n,
                n == page@.len(),
                r@.len() == j,
                forall|k: int| 0 <= k < page@.len() ==> *((#[trigger] page@[k]).1)
                    == self.apps@[page@[k].0 as int] && 0 <= page@[k].0 < self.apps@.len(),
                forall|k: int| 0 <= k < j ==> (#[trigger] r@[k]).0 == page@[k].0 && json_of(
                    self.app_at(page@[k].0 as int),
                    r@[k].1,
                ),
            decreases n - j,
        {
            r.push((page[j].0, vapp_json(page[j].1)));
            j = j + 1;
        }
        r
    }

    /// A stable page of categories in insertion order.
    pub fn get_categories(&self, from_index: Option<u64>, limit: Option<u64>) -> (r: Vec<
        (CategoryId, CategoryJSON),
    >)
        ensures
            ({
                let from = page_from(from_index) as int;
                let end = page_end(self.categories@.len() as int, from_index, limit);
                &&& r@.len() == if from <= end { end - from } else { 0int }
                &&& forall|k: int| 0 <= k < r@.len() ==> (#[trigger] r@[k]).0 == from + k && cjson_of(
                    self.cat_at(from + k),
                    r@[k].1,
                )
            }),
    {
        let page = unordered_map_pagination(&self.categories, from_index, limit);
        let mut r: Vec<(CategoryId, CategoryJSON)> = Vec::new();
        let n = page.len();
        let mut j: usize = 0;
        while j < n
            invariant
                0 <= j <= n,
                n == page@.len(),
                r@.len() == j,
                forall|k: int| 0 <= k < page@.len() ==> *((#[trigger] page@[k]).1)
                    == self.categories@[page@[k].0 as int] && 0 <= page@[k].0
                    < self.categories@.len(),
                forall|k: int| 0 <= k < j ==> (#[trigger] r@[k]).0 == page@[k].0 && cjson_of(
                    self.cat_at(page@[k].0 as int),
                    r@[k].1,
                ),
            decreases n - j,
        {
            r.push((page[j].0, vcat_json(page[j].1)));
            j = j + 1;
        }
        r
    }
}

} // verus!
