//! Moderation: guardian management and category creation.
//!
//! All operations here are guarded: the caller must be a guardian.  The caller
//! account is an observation of the host and is passed in as an argument.
use vstd::prelude::*;
use crate::{Contract, lemma_wf_frame, lemma_count_disabled_bounds, lemma_count_disabled_update,
    app_valid, count_disabled, distinct_ids, is_disabled};
use crate::app::{App, AppJSON, VApp, app_eqv_mod_active, opt_str_eqv};
use crate::category::{Category, VCategory};
use crate::errors::{Field, RegistryError};
use crate::index::{index_lookup, index_remove, keys_distinct, lemma_distinct_push,
    lemma_distinct_remove, lemma_lookup_characterize, lemma_lookup_push, lemma_lookup_remove,
    spec_key_index, spec_lookup};
use crate::members::{clear_membership, install_membership, removed_from};
use crate::text::{lower_of, str_eq, to_lowercase_string};
use crate::utils::{dedup_strings, dedup_strs, resolved_cats, LISTING_FEE};
use crate::AppId;
use crate::CategoryId;

verus! {

/// The position of the first of the strings with the given text.
pub fn find_str(v: &Vec<String>, s: &str) -> (r: Option<usize>)
    ensures
        match r {
            Some(p) => p < v@.len() && v@[p as int]@ == s@ && forall|k: int| 0 <= k < p
                ==> #[trigger] v@[k]@ != s@,
            None => forall|k: int| 0 <= k < v@.len() ==> #[trigger] v@[k]@ != s@,
        },
{
    let n = v.len();
    let mut i: usize = 0;
    while i < n
        invariant
            0 <= i <= n,
            n == v@.len(),
            forall|k: int| 0 <= k < i ==> #[trigger] v@[k]@ != s@,
        decreases n - i,
    {
        if str_eq(v[i].as_str(), s) {
            return Some(i);
        }
        i = i + 1;
    }
    None
}

/// Whether some existing category already uses the slug or the title.
pub open spec fn cat_conflict(cats: Seq<VCategory>, slug: Seq<char>, title: Seq<char>) -> bool {
    exists|c: int| 0 <= c < cats.len() && ((#[trigger] cats[c].spec_cat()).slug@ == slug
        || cats[c].spec_cat().title@ == title)
}

/// Scans all categories for a slug or title already in use.
fn cat_conflict_scan(cats: &Vec<VCategory>, slug: &str, title: &str) -> (b: bool)
    ensures
        b == cat_conflict(cats@, slug@, title@),
{
    let n = cats.len();
    let mut c: usize = 0;
    while c < n
        invariant
            0 <= c <= n,
            n == cats@.len(),
            forall|k: int| 0 <= k < c ==> (#[trigger] cats@[k].spec_cat()).slug@ != slug@
                && cats@[k].spec_cat().title@ != title@,
        decreases n - c,
    {
        match &cats[c] {
            VCategory::Current(cat) => {
                if str_eq(cat.slug.as_str(), slug) || str_eq(cat.title.as_str(), title) {
                    proof {
                        assert(cats@[c as int].spec_cat() == *cat);
                    }
                    return true;
                }
            }
        }
        c = c + 1;
    }
    false
}

/// The error `add_category` reports, if any.
pub open spec fn add_category_error(
    pre: Contract,
    slug: Seq<char>,
    title: Seq<char>,
    predecessor: Seq<char>,
) -> Option<RegistryError> {
    if !pre.spec_is_guardian(predecessor) {
        Some(RegistryError::AccessDeniedError)
    } else if cat_conflict(pre.categories@, slug, title) {
        Some(RegistryError::ConflictError)
    } else {
        None
    }
}

impl Contract {
    /// Overwrites the running disabled count; a guardian-only repair tool.
    /// This is the one operation that may put the counter out of step with
    /// the stored records.
    pub fn set_disabled_apps_number(&mut self, disabled_apps: u64, predecessor: &String) -> (r:
        Result<(), RegistryError>)
        ensures
            match r {
                Ok(_) => old(self).spec_is_guardian(predecessor@) && *final(self) == (Contract {
                    disabled_apps,
                    ..*old(self)
                }),
                Err(e) => !old(self).spec_is_guardian(predecessor@) && e
                    == RegistryError::AccessDeniedError && *final(self) == *old(self),
            },
            old(self).wf() ==> final(self).wf(),
    {
        match self.assert_guardian(predecessor) {
            Ok(_) => {
                self.disabled_apps = disabled_apps;
                proof {
                    if old(self).wf() {
                        lemma_wf_frame(*old(self), *self);
                    }
                }
                Ok(())
            }
            Err(e) => Err(e),
        }
    }

    /// The guardian accounts.
    pub fn get_guardians(&self) -> (r: Vec<String>)
        ensures
            r@ == self.guardians@,
    {
        let r = self.guardians.clone();
        proof {
            assert(r@ =~= self.guardians@);
        }
        r
    }

    /// Adds a guardian account; adding an existing guardian changes nothing.
    pub fn add_guardian(&mut self, account_id: String, predecessor: &String) -> (r: Result<
        (),
        RegistryError,
    >)
        ensures
            match r {
                Ok(_) => old(self).spec_is_guardian(predecessor@) && (if old(self).spec_is_guardian(
                    account_id@,
                ) {
                    *final(self) == *old(self)
                } else {
                    final(self).guardians@ == old(self).guardians@.push(account_id) && *final(self)
                        == (Contract { guardians: final(self).guardians, ..*old(self) })
                }),
                Err(e) => !old(self).spec_is_guardian(predecessor@) && e
                    == RegistryError::AccessDeniedError && *final(self) == *old(self),
            },
            old(self).wf() ==> final(self).wf(),
    {
        match self.assert_guardian(predecessor) {
            Ok(_) => {
                if !self.is_guardian(account_id.as_str()) {
                    let ghost pre = self.guardians@;
                    self.guardians.push(account_id);
                    proof {
                        if old(self).wf() {
                            assert forall|i: int, j: int|
                                0 <= i < j < self.guardians@.len() implies self.guardians@[i]@
                                != self.guardians@[j]@ by {
                                if j < pre.len() {
                                    assert(self.guardians@[i] == pre[i]);
                                    assert(self.guardians@[j] == pre[j]);
                                } else {
                                    assert(self.guardians@[i] == pre[i]);
                                    assert(!old(self).spec_is_guardian(self.guardians@[j]@));
                                }
                            }
                            lemma_wf_frame(*old(self), *self);
                        }
                    }
                }
                Ok(())
            }
            Err(e) => Err(e),
        }
    }

    /// Removes a guardian account; the last guardian can never be removed.
    pub fn remove_guardian(&mut self, account_id: String, predecessor: &String) -> (r: Result<
        (),
        RegistryError,
    >)
        requires
            old(self).wf(),
        ensures
            match r {
                Ok(_) => {
                    &&& old(self).spec_is_guardian(predecessor@)
                    &&& old(self).guardians@.len() > 1
                    &&& !final(self).spec_is_guardian(account_id@)
                    &&& forall|acct: Seq<char>| acct != account_id@ ==> (#[trigger] final(self).spec_is_guardian(acct)) == old(self).spec_is_guardian(acct)
                    &&& final(self).guardians@.len() == old(self).guardians@.len() - (if old(self).spec_is_guardian(account_id@) {
                        1int
                    } else {
                        0int
                    })
                    &&& *final(self) == (Contract { guardians: final(self).guardians, ..*old(self) })
                },
                Err(e) => *final(self) == *old(self) && if !old(self).spec_is_guardian(
                    predecessor@,
                ) {
                    e == RegistryError::AccessDeniedError
                } else {
                    old(self).guardians@.len() <= 1 && e == RegistryError::ValidationError(
                        Field::Guardians,
                    )
                },
            },
            final(self).wf(),
    {
        match self.assert_guardian(predecessor) {
            Ok(_) => {}
            Err(e) => {
                return Err(e);
            }
        }
        if self.guardians.len() <= 1 {
            return Err(RegistryError::ValidationError(Field::Guardians));
        }
        let ghost pre = self.guardians@;
        match find_str(&self.guardians, account_id.as_str()) {
            Some(p) => {
                self.guardians.remove(p);
                proof {
                    let post = self.guardians@;
                    assert(pre[p as int]@ == account_id@);
                    assert forall|x: int, y: int| 0 <= x < y < post.len() implies post[x]@
                        != post[y]@ by {
                        let x0: int = if x < p as int { x } else { x + 1 };
                        let y0: int = if y < p as int { y } else { y + 1 };
                        assert(post[x] == pre[x0] && post[y] == pre[y0]);
                    }
                    assert forall|k: int| 0 <= k < post.len() implies post[k]@ != account_id@ by {
                        let k0: int = if k < p as int { k } else { k + 1 };
                        assert(post[k] == pre[k0]);
                        if k0 != p as int {
                            assert(pre[k0]@ != pre[p as int]@);
                        }
                    }
                    assert(!final(self).spec_is_guardian(account_id@));
                    assert forall|acct: Seq<char>| acct != account_id@ implies (#[trigger] final(self).spec_is_guardian(acct)) == old(self).spec_is_guardian(acct) by {
                        if old(self).spec_is_guardian(acct) {
                            let w = choose|w: int| 0 <= w < pre.len() && pre[w]@ == acct;
                            if w < p as int {
                                assert(post[w]@ == acct);
                            } else {
                                assert(w != p as int);
                                assert(post[w - 1]@ == acct);
                            }
                        }
                        if final(self).spec_is_guardian(acct) {
                            let w = choose|w: int| 0 <= w < post.len() && post[w]@ == acct;
                            let w0: int = if w < p as int { w } else { w + 1 };
                            assert(pre[w0]@ == acct);
                        }
                    }
                    lemma_wf_frame(*old(self), *self);
                }
                Ok(())
            }
            None => {
                proof {
                    assert(!old(self).spec_is_guardian(account_id@));
                    assert(!final(self).spec_is_guardian(account_id@));
                }
                Ok(())
            }
        }
    }

    /// Creates a category with a fresh dense id and an empty membership index.
    /// Fails when the caller is not a guardian or when any existing category
    /// already uses the slug or the title.
    pub fn add_category(&mut self, title: String, slug: String, predecessor: &String) -> (r: Result<
        (),
        RegistryError,
    >)
        requires
            old(self).next_category_id < u64::MAX,
            old(self).wf(),
        ensures
            match r {
                Ok(_) => {
                    &&& add_category_error(*old(self), slug@, title@, predecessor@) is None
                    &&& final(self).categories@ == old(self).categories@.push(
                        VCategory::Current(Category { slug, title }),
                    )
                    &&& final(self).next_category_id == old(self).next_category_id + 1
                    &&& final(self).apps_ids_by_category_id@.len() == old(self).apps_ids_by_category_id@.len() + 1
                    &&& forall|c: int| 0 <= c < old(self).apps_ids_by_category_id@.len()
                        ==> #[trigger] final(self).apps_ids_by_category_id@[c] == old(self).apps_ids_by_category_id@[c]
                    &&& final(self).members_at(old(self).categories@.len() as int)
                        == Seq::<AppId>::empty()
                    &&& final(self).apps@ == old(self).apps@
                    &&& final(self).guardians@ == old(self).guardians@
                    &&& final(self).app_id_by_slug@ == old(self).app_id_by_slug@
                    &&& final(self).app_id_by_dapp_account_id@ == old(self).app_id_by_dapp_account_id@
                    &&& final(self).next_app_id == old(self).next_app_id
                    &&& final(self).disabled_apps == old(self).disabled_apps
                },
                Err(e) => Some(e) == add_category_error(*old(self), slug@, title@, predecessor@)
                    && *final(self) == *old(self),
            },
            final(self).wf(),
            old(self).counter_consistent() ==> final(self).counter_consistent(),
    {
        match self.assert_guardian(predecessor) {
            Ok(_) => {}
            Err(e) => {
                return Err(e);
            }
        }
        if cat_conflict_scan(&self.categories, slug.as_str(), title.as_str()) {
            return Err(RegistryError::ConflictError);
        }
        let ghost pre = *self;
        self.categories.push(VCategory::Current(Category { slug, title }));
        self.apps_ids_by_category_id.push(Vec::new());
        self.next_category_id = self.next_category_id + 1;
        proof {
            let post = *self;
            assert(post.members_at(pre.categories@.len() as int) =~= Seq::<AppId>::empty());
            assert forall|i: int| 0 <= i < post.apps@.len() implies crate::app_valid(
                #[trigger] post.app_at(i),
                post.categories@.len() as int,
            ) by {
                assert(crate::app_valid(pre.app_at(i), pre.categories@.len() as int));
                assert(post.app_at(i) == pre.app_at(i));
                assert forall|k: int| 0 <= k < post.app_at(i).categories@.len()
                    implies #[trigger] post.app_at(i).categories@[k]
                    < post.categories@.len() as int by {
                    assert(pre.app_at(i).categories@[k] < pre.categories@.len() as int);
                }
            }
            assert forall|i: int| 0 <= i < post.apps@.len() implies crate::index::spec_lookup(
                post.app_id_by_slug@,
                (#[trigger] post.app_at(i)).slug@,
            ) == Some(i as AppId) by {
                assert(post.app_at(i) == pre.app_at(i));
            }
            assert forall|i: int| 0 <= i < post.apps@.len() implies crate::index::spec_lookup(
                post.app_id_by_dapp_account_id@,
                (#[trigger] post.app_at(i)).dapp_account_id@,
            ) == Some(i as AppId) by {
                assert(post.app_at(i) == pre.app_at(i));
            }
            assert forall|cc: int| 0 <= cc < post.apps_ids_by_category_id@.len() implies
                crate::distinct_ids(#[trigger] post.members_at(cc)) && (forall|k: int|
                0 <= k < post.members_at(cc).len() ==> (#[trigger] post.members_at(cc)[k])
                    < post.apps@.len() && post.app_at(post.members_at(cc)[k] as int).categories@
                    .contains(cc as crate::CategoryId)) by {
                if cc < pre.apps_ids_by_category_id@.len() {
                    assert(post.members_at(cc) == pre.members_at(cc));
                } else {
                    assert(post.members_at(cc) =~= Seq::<AppId>::empty());
                }
            }
            assert forall|i: int, k: int|
                0 <= i < post.apps@.len() && post.app_at(i).active != Some(false) && 0 <= k
                    < post.app_at(i).categories@.len() implies post.members_at(
                (#[trigger] post.app_at(i).categories@[k]) as int,
            ).contains(i as AppId) by {
                assert(post.app_at(i) == pre.app_at(i));
                let cc = pre.app_at(i).categories@[k] as int;
                assert(pre.members_at(cc).contains(i as AppId));
                assert(cc < pre.apps_ids_by_category_id@.len());
                assert(post.members_at(cc) == pre.members_at(cc));
            }
        }
        Ok(())
    }
}


/// How a state after `disable_app` relates to the state before: the listing's
/// active flag is exactly `false`, every other field of the record and every
/// other record is unchanged, the listing is out of every category membership
/// list, and the disabled count grew exactly when the listing was displayable.
pub open spec fn disable_post(pre: Contract, post: Contract, app_id: AppId) -> bool {
    &&& app_id < pre.apps@.len()
    &&& post.apps@.len() == pre.apps@.len()
    &&& app_eqv_mod_active(pre.app_at(app_id as int), post.app_at(app_id as int))
    &&& post.app_at(app_id as int).active == Some(false)
    &&& forall|i: int| #![trigger post.apps@[i]] 0 <= i < pre.apps@.len() && i != app_id
        ==> post.apps@[i] == pre.apps@[i]
    &&& post.apps_ids_by_category_id@.len() == pre.apps_ids_by_category_id@.len()
    &&& forall|c: int| #![trigger post.apps_ids_by_category_id@[c]] 0 <= c
        < pre.apps_ids_by_category_id@.len() ==> removed_from(
        pre.members_at(c),
        post.members_at(c),
        app_id,
    )
    &&& post.disabled_apps == if pre.app_at(app_id as int).active != Some(false)
        && pre.disabled_apps < u64::MAX {
        (pre.disabled_apps + 1) as u64
    } else {
        pre.disabled_apps
    }
    &&& post.guardians@ == pre.guardians@
    &&& post.categories@ == pre.categories@
    &&& post.app_id_by_slug@ == pre.app_id_by_slug@
    &&& post.app_id_by_dapp_account_id@ == pre.app_id_by_dapp_account_id@
    &&& post.next_app_id == pre.next_app_id
    &&& post.next_category_id == pre.next_category_id
}

/// Disabling an already-disabled listing changes neither the disabled count
/// nor any category membership list: disable is idempotent.
pub proof fn lemma_idempotent_disable(s0: Contract, s1: Contract, s2: Contract, app_id: AppId)
    requires
        disable_post(s0, s1, app_id),
        disable_post(s1, s2, app_id),
    ensures
        s2.disabled_apps == s1.disabled_apps,
        forall|c: int| 0 <= c < s2.apps_ids_by_category_id@.len() ==> #[trigger] s2.members_at(c)
            == s1.members_at(c),
{
    assert(s1.app_at(app_id as int).active == Some(false));
    assert forall|c: int| 0 <= c < s2.apps_ids_by_category_id@.len() implies #[trigger] s2.members_at(
        c,
    ) == s1.members_at(c) by {
        assert(removed_from(s0.members_at(c), s1.members_at(c), app_id));
        assert(removed_from(s1.members_at(c), s2.members_at(c), app_id));
        assert(!s1.members_at(c).contains(app_id));
    }
}

impl Contract {
    /// Disables a listing: guardian-only.  Sets the active flag to exactly
    /// `false`, removes the listing from every category membership list, and
    /// counts the transition when the listing was displayable before.
    pub fn disable_app(&mut self, app_id: AppId, predecessor: &String) -> (r: Result<
        (),
        RegistryError,
    >)
        requires
            old(self).wf(),
        ensures
            match r {
                Ok(_) => old(self).spec_is_guardian(predecessor@) && disable_post(
                    *old(self),
                    *final(self),
                    app_id,
                ),
                Err(e) => *final(self) == *old(self) && if !old(self).spec_is_guardian(
                    predecessor@,
                ) {
                    e == RegistryError::AccessDeniedError
                } else {
                    app_id >= old(self).apps@.len() && e == RegistryError::NotFoundError
                },
            },
            final(self).wf(),
            old(self).counter_consistent() ==> final(self).counter_consistent(),
    {
        match self.assert_guardian(predecessor) {
            Ok(_) => {}
            Err(e) => {
                return Err(e);
            }
        }
        let nlen = self.apps.len();
        if app_id >= nlen as u64 {
            return Err(RegistryError::NotFoundError);
        }
        let i = app_id as usize;
        let a0 = match &self.apps[i] {
            VApp::Current(a) => a.clone(),
        };
        let was_disabled = match a0.active {
            Some(b) => !b,
            None => false,
        };
        proof {
            assert(app_valid(old(self).app_at(app_id as int), old(self).categories@.len() as int));
            assert(a0.categories@ == old(self).app_at(app_id as int).categories@);
            assert forall|k: int| 0 <= k < a0.categories@.len() implies (
            #[trigger] a0.categories@[k]) < self.apps_ids_by_category_id@.len() by {
                assert(old(self).app_at(app_id as int).categories@[k]
                    < old(self).categories@.len());
            }
            assert forall|c: int| 0 <= c < self.apps_ids_by_category_id@.len() implies distinct_ids(
                #[trigger] self.apps_ids_by_category_id@[c]@,
            ) by {
                assert(distinct_ids(old(self).members_at(c)));
            }
        }
        if !was_disabled && self.disabled_apps < u64::MAX {
            self.disabled_apps = self.disabled_apps + 1;
        }
        clear_membership(&mut self.apps_ids_by_category_id, app_id, &a0.categories);
        let ghost mid = *self;
        self.apps[i] = VApp::Current(App { active: Some(false), ..a0 });
        proof {
            let pre = *old(self);
            let post = *self;
            let id = app_id as int;
            assert(post.apps@ == mid.apps@.update(id, post.apps@[id]));
            // the record changed only in its active flag
            assert(app_eqv_mod_active(pre.app_at(id), post.app_at(id)));
            // membership lists: removed where the record was listed, untouched
            // but already free of the id elsewhere
            assert forall|c: int| #![trigger post.apps_ids_by_category_id@[c]] 0 <= c
                < pre.apps_ids_by_category_id@.len() implies removed_from(
                pre.members_at(c),
                post.members_at(c),
                app_id,
            ) by {
                assert(post.members_at(c) == mid.members_at(c));
                if a0.categories@.contains(c as crate::CategoryId) {
                    assert(removed_from(pre.members_at(c), mid.members_at(c), app_id));
                } else {
                    assert(mid.apps_ids_by_category_id@[c] == pre.apps_ids_by_category_id@[c]);
                    assert(!pre.members_at(c).contains(app_id)) by {
                        if pre.members_at(c).contains(app_id) {
                            let w = choose|w: int|
                                0 <= w < pre.members_at(c).len() && pre.members_at(c)[w] == app_id;
                            assert(pre.app_at(pre.members_at(c)[w] as int).categories@.contains(
                                c as crate::CategoryId));
                        }
                    }
                }
            }
            // the disabled count
            assert(count_disabled(post.apps@) == count_disabled(pre.apps@) - (if is_disabled(
                pre.apps@[id],
            ) {
                1int
            } else {
                0int
            }) + 1) by {
                lemma_count_disabled_update(pre.apps@, id, post.apps@[id]);
                assert(post.apps@ =~= pre.apps@.update(id, post.apps@[id]));
                assert(is_disabled(post.apps@[id]));
            }
            if pre.counter_consistent() {
                lemma_count_disabled_bounds(pre.apps@);
                if !is_disabled(pre.apps@[id]) {
                    lemma_count_disabled_bounds(post.apps@);
                    assert(count_disabled(post.apps@) <= post.apps@.len());
                    assert(pre.disabled_apps < u64::MAX);
                }
                assert(post.counter_consistent());
            }
            // well-formedness of the new state
            assert forall|k: int| 0 <= k < post.apps@.len() implies app_valid(
                #[trigger] post.app_at(k),
                post.categories@.len() as int,
            ) by {
                assert(app_valid(pre.app_at(k), pre.categories@.len() as int));
                if k != id {
                    assert(post.apps@[k] == pre.apps@[k]);
                }
            }
            assert forall|k: int| 0 <= k < post.apps@.len() implies crate::index::spec_lookup(
                post.app_id_by_slug@,
                (#[trigger] post.app_at(k)).slug@,
            ) == Some(k as AppId) by {
                if k != id {
                    assert(post.apps@[k] == pre.apps@[k]);
                }
                assert(post.app_at(k).slug@ == pre.app_at(k).slug@);
                assert(crate::index::spec_lookup(pre.app_id_by_slug@, pre.app_at(k).slug@) == Some(
                    k as AppId));
            }
            assert forall|k: int| 0 <= k < post.apps@.len() implies crate::index::spec_lookup(
                post.app_id_by_dapp_account_id@,
                (#[trigger] post.app_at(k)).dapp_account_id@,
            ) == Some(k as AppId) by {
                if k != id {
                    assert(post.apps@[k] == pre.apps@[k]);
                }
                assert(post.app_at(k).dapp_account_id@ == pre.app_at(k).dapp_account_id@);
                assert(crate::index::spec_lookup(
                    pre.app_id_by_dapp_account_id@,
                    pre.app_at(k).dapp_account_id@,
                ) == Some(k as AppId));
            }
            assert forall|j: int| 0 <= j < post.app_id_by_slug@.len() implies (
            #[trigger] post.app_id_by_slug@[j]).1 < post.apps@.len() && post.app_at(
                post.app_id_by_slug@[j].1 as int,
            ).slug@ == post.app_id_by_slug@[j].0@ by {
                let t = pre.app_id_by_slug@[j].1 as int;
                assert(pre.app_at(t).slug@ == pre.app_id_by_slug@[j].0@);
                assert(post.app_at(t).slug@ == pre.app_at(t).slug@) by {
                    if t != id {
                        assert(post.apps@[t] == pre.apps@[t]);
                    }
                }
            }
            assert forall|j: int| 0 <= j < post.app_id_by_dapp_account_id@.len() implies (
            #[trigger] post.app_id_by_dapp_account_id@[j]).1 < post.apps@.len() && post.app_at(
                post.app_id_by_dapp_account_id@[j].1 as int,
            ).dapp_account_id@ == post.app_id_by_dapp_account_id@[j].0@ by {
                let t = pre.app_id_by_dapp_account_id@[j].1 as int;
                assert(pre.app_at(t).dapp_account_id@ == pre.app_id_by_dapp_account_id@[j].0@);
                assert(post.app_at(t).dapp_account_id@ == pre.app_at(t).dapp_account_id@) by {
                    if t != id {
                        assert(post.apps@[t] == pre.apps@[t]);
                    }
                }
            }
            assert forall|c: int| 0 <= c < post.apps_ids_by_category_id@.len() implies distinct_ids(
                #[trigger] post.members_at(c),
            ) && (forall|k: int| 0 <= k < post.members_at(c).len() ==> (#[trigger] post.members_at(
                c,
            )[k]) < post.apps@.len() && post.app_at(post.members_at(c)[k] as int).categories@
                .contains(c as crate::CategoryId)) by {
                assert(post.members_at(c) == mid.members_at(c));
                assert(distinct_ids(mid.members_at(c)));
                assert(removed_from(pre.members_at(c), post.members_at(c), app_id));
                assert forall|k: int| 0 <= k < post.members_at(c).len() implies (
                #[trigger] post.members_at(c)[k]) < post.apps@.len() && post.app_at(
                    post.members_at(c)[k] as int,
                ).categories@.contains(c as crate::CategoryId) by {
                    let x = post.members_at(c)[k];
                    assert(post.members_at(c).contains(x));
                    assert(x != app_id);
                    assert(pre.members_at(c).contains(x));
                    let w = choose|w: int|
                        0 <= w < pre.members_at(c).len() && pre.members_at(c)[w] == x;
                    assert(pre.app_at(x as int).categories@.contains(c as crate::CategoryId));
                    assert(post.apps@[x as int] == pre.apps@[x as int]);
                }
            }
            assert forall|k: int, m: int|
                0 <= k < post.apps@.len() && post.app_at(k).active != Some(false) && 0 <= m
                    < post.app_at(k).categories@.len() implies post.members_at(
                (#[trigger] post.app_at(k).categories@[m]) as int,
            ).contains(k as AppId) by {
                assert(k != id);
                assert(post.apps@[k] == pre.apps@[k]);
                let cc = pre.app_at(k).categories@[m] as int;
                assert(pre.members_at(cc).contains(k as AppId));
                assert(app_valid(pre.app_at(k), pre.categories@.len() as int));
                assert(cc < pre.apps_ids_by_category_id@.len());
                assert(removed_from(pre.members_at(cc), post.members_at(cc), app_id));
                assert(k as AppId != app_id);
            }
        }
        Ok(())
    }
}


/// How the running disabled count moves when a listing's active flag changes:
/// one down when a disabled listing becomes displayable, one up for the
/// reverse transition, never past its bounds.
pub open spec fn counter_adjust(n: u64, old_active: Option<bool>, new_active: Option<bool>) -> u64 {
    let od = old_active == Some(false);
    let nd = new_active == Some(false);
    if od && !nd && n > 0 {
        (n - 1) as u64
    } else if !od && nd && n < u64::MAX {
        (n + 1) as u64
    } else {
        n
    }
}

/// The error `update_app` reports, if any, in the order the checks are made:
/// existence, access (a guardian, or the listing's recorded owning account),
/// fee, endpoint immutability, slug uniqueness.
pub open spec fn update_error(
    pre: Contract,
    app_id: AppId,
    req: AppJSON,
    predecessor: Seq<char>,
    deposit: u128,
) -> Option<RegistryError> {
    let by_guardian = pre.spec_is_guardian(predecessor);
    if app_id >= pre.apps@.len() {
        Some(RegistryError::NotFoundError)
    } else if !by_guardian && pre.app_at(app_id as int).added_by_account_id@ != predecessor {
        Some(RegistryError::AccessDeniedError)
    } else if !by_guardian && deposit < LISTING_FEE {
        Some(RegistryError::PaymentRequiredError)
    } else if req.dapp_account_id@ != pre.app_at(app_id as int).dapp_account_id@ {
        Some(RegistryError::ImmutableFieldError)
    } else if (match spec_lookup(pre.app_id_by_slug@, lower_of(req.slug@)) {
        Option::Some(other) => other != app_id,
        Option::None => false,
    }) {
        Some(RegistryError::ConflictError)
    } else {
        None
    }
}

/// How a state after a successful `update_app` relates to the state before.
pub open spec fn update_post(
    pre: Contract,
    post: Contract,
    app_id: AppId,
    req: AppJSON,
    by_guardian: bool,
) -> bool {
    let old_rec = pre.app_at(app_id as int);
    let new_rec = post.app_at(app_id as int);
    &&& app_id < pre.apps@.len()
    &&& post.apps@.len() == pre.apps@.len()
    &&& forall|i: int| #![trigger post.apps@[i]] 0 <= i < pre.apps@.len() && i != app_id
        ==> post.apps@[i] == pre.apps@[i]
    &&& new_rec.added_by_account_id@ == (match req.added_by_account_id {
        Option::Some(x) => x@,
        Option::None => old_rec.added_by_account_id@,
    })
    &&& new_rec.dapp_account_id@ == req.dapp_account_id@
    &&& new_rec.slug@ == lower_of(req.slug@)
    &&& new_rec.title@ == req.title@
    &&& new_rec.categories@ == resolved_cats(req.categories@, pre.categories@.len() as int)
    &&& opt_str_eqv(req.oneliner, new_rec.oneliner)
    &&& opt_str_eqv(req.description, new_rec.description)
    &&& opt_str_eqv(req.logo_url, new_rec.logo_url)
    &&& opt_str_eqv(req.twitter, new_rec.twitter)
    &&& opt_str_eqv(req.facebook, new_rec.facebook)
    &&& opt_str_eqv(req.medium, new_rec.medium)
    &&& opt_str_eqv(req.telegram, new_rec.telegram)
    &&& opt_str_eqv(req.github, new_rec.github)
    &&& opt_str_eqv(req.discord, new_rec.discord)
    &&& opt_str_eqv(req.symbol, new_rec.symbol)
    &&& opt_str_eqv(req.token_address, new_rec.token_address)
    &&& new_rec.contracts@ == dedup_strs(
        match req.contracts {
            Option::Some(v) => v@,
            Option::None => Seq::<String>::empty(),
        },
    )
    &&& new_rec.active == (if by_guardian {
        req.active
    } else {
        old_rec.active
    })
    &&& post.apps_ids_by_category_id@.len() == pre.apps_ids_by_category_id@.len()
    &&& forall|c: int| #![trigger post.apps_ids_by_category_id@[c]] 0 <= c
        < pre.apps_ids_by_category_id@.len() ==> (post.members_at(c).contains(app_id)
        <==> new_rec.categories@.contains(c as CategoryId)) && (forall|x: AppId|
        x != app_id ==> (post.members_at(c).contains(x) <==> pre.members_at(c).contains(x)))
    &&& post.disabled_apps == counter_adjust(pre.disabled_apps, old_rec.active, new_rec.active)
    &&& post.guardians@ == pre.guardians@
    &&& post.categories@ == pre.categories@
    &&& post.next_app_id == pre.next_app_id
    &&& post.next_category_id == pre.next_category_id
}

impl Contract {
    /// Rewrites a listing wholesale from a request: permitted to guardians
    /// and to the listing's recorded owning account.  A non-guardian must attach the
    /// listing fee and cannot change the active flag.  The application account
    /// is immutable; the new slug is stored lower-cased and must not belong to
    /// another listing; category membership is rebuilt from the request, and
    /// the disabled count follows the active flag.
    #[verifier::rlimit(80)]
    pub fn update_app(
        &mut self,
        app_id: AppId,
        app: AppJSON,
        predecessor: &String,
        attached_deposit: u128,
    ) -> (r: Result<(), RegistryError>)
        requires
            old(self).wf(),
        ensures
            match r {
                Ok(_) => update_error(*old(self), app_id, app, predecessor@, attached_deposit)
                    is None && update_post(
                    *old(self),
                    *final(self),
                    app_id,
                    app,
                    old(self).spec_is_guardian(predecessor@),
                ),
                Err(e) => Some(e) == update_error(
                    *old(self),
                    app_id,
                    app,
                    predecessor@,
                    attached_deposit,
                ) && *final(self) == *old(self),
            },
            final(self).wf(),
            old(self).counter_consistent() ==> final(self).counter_consistent(),
    {
        let by_guardian = self.is_guardian(predecessor.as_str());
        let nlen = self.apps.len();
        if app_id >= nlen as u64 {
            return Err(RegistryError::NotFoundError);
        }
        let i = app_id as usize;
        let a0 = match &self.apps[i] {
            VApp::Current(a) => a.clone(),
        };
        let by_author = str_eq(a0.added_by_account_id.as_str(), predecessor.as_str());
        if !by_guardian && !by_author {
            return Err(RegistryError::AccessDeniedError);
        }
        if !by_guardian && attached_deposit < LISTING_FEE {
            return Err(RegistryError::PaymentRequiredError);
        }
        if !str_eq(a0.dapp_account_id.as_str(), app.dapp_account_id.as_str()) {
            return Err(RegistryError::ImmutableFieldError);
        }
        let lowered = to_lowercase_string(app.slug.as_str());
        match index_lookup(&self.app_id_by_slug, lowered.as_str()) {
            Some(other) => {
                if other != app_id {
                    return Err(RegistryError::ConflictError);
                }
            }
            None => {}
        }
        let ghost s0 = *old(self);
        let ghost id = app_id as int;
        proof {
            assert(update_error(s0, app_id, app, predecessor@, attached_deposit) is None);
        }
        // the new active flag and the counter transition
        let new_active = if by_guardian {
            app.active
        } else {
            a0.active
        };
        let od = match a0.active {
            Some(b) => !b,
            None => false,
        };
        let nd = match new_active {
            Some(b) => !b,
            None => false,
        };
        if od && !nd {
            if self.disabled_apps > 0 {
                self.disabled_apps = self.disabled_apps - 1;
            }
        } else if !od && nd {
            if self.disabled_apps < u64::MAX {
                self.disabled_apps = self.disabled_apps + 1;
            }
        }
        proof {
            assert(self.disabled_apps == counter_adjust(s0.disabled_apps, a0.active, new_active));
        }
        // take the old slug and account out of the indices
        let ghost es_slug0 = self.app_id_by_slug@;
        index_remove(&mut self.app_id_by_slug, a0.slug.as_str());
        let ghost es_acct0 = self.app_id_by_dapp_account_id@;
        index_remove(&mut self.app_id_by_dapp_account_id, a0.dapp_account_id.as_str());
        let ghost es_slug1 = self.app_id_by_slug@;
        let ghost es_acct1 = self.app_id_by_dapp_account_id@;
        proof {
            assert(a0.slug@ == s0.app_at(id).slug@);
            assert(a0.dapp_account_id@ == s0.app_at(id).dapp_account_id@);
            assert(spec_lookup(es_slug0, a0.slug@) == Some(app_id));
            assert(spec_lookup(es_acct0, a0.dapp_account_id@) == Some(app_id));
            lemma_lookup_characterize(es_slug0, a0.slug@);
            let ps = spec_key_index(es_slug0, a0.slug@);
            assert(es_slug1 == es_slug0.remove(ps));
            lemma_distinct_remove(es_slug0, ps);
            lemma_lookup_characterize(es_acct0, a0.dapp_account_id@);
            let pa = spec_key_index(es_acct0, a0.dapp_account_id@);
            assert(es_acct1 == es_acct0.remove(pa));
            lemma_distinct_remove(es_acct0, pa);
            // the new slug is free after the removal
            assert(spec_lookup(es_slug1, lowered@) is None) by {
                match spec_lookup(es_slug0, lowered@) {
                    Option::Some(other) => {
                        assert(other == app_id);
                        lemma_lookup_characterize(es_slug0, lowered@);
                        let q = spec_key_index(es_slug0, lowered@);
                        assert(es_slug0[q].1 == app_id);
                        assert(s0.app_at(id).slug@ == es_slug0[q].0@);
                        assert(lowered@ == a0.slug@);
                        lemma_lookup_remove(es_slug0, ps, lowered@);
                        assert(es_slug0[ps].0@ == a0.slug@);
                    }
                    Option::None => {
                        lemma_lookup_remove(es_slug0, ps, lowered@);
                    }
                }
            }
            // the account key is free after the removal
            assert(spec_lookup(es_acct1, a0.dapp_account_id@) is None) by {
                lemma_lookup_remove(es_acct0, pa, a0.dapp_account_id@);
                assert(es_acct0[pa].0@ == a0.dapp_account_id@);
            }
        }
        // rebuild category membership
        proof {
            assert(app_valid(s0.app_at(id), s0.categories@.len() as int));
            assert(a0.categories@ == s0.app_at(id).categories@);
            assert forall|k: int| 0 <= k < a0.categories@.len() implies (
            #[trigger] a0.categories@[k]) < self.apps_ids_by_category_id@.len() by {
                assert(s0.app_at(id).categories@[k] < s0.categories@.len());
            }
            assert forall|c: int| 0 <= c < self.apps_ids_by_category_id@.len() implies distinct_ids(
                #[trigger] self.apps_ids_by_category_id@[c]@,
            ) by {
                assert(distinct_ids(s0.members_at(c)));
            }
        }
        clear_membership(&mut self.apps_ids_by_category_id, app_id, &a0.categories);
        let ghost mem1 = self.apps_ids_by_category_id@;
        proof {
            // after the clearing, the listing is out of every list
            assert forall|c: int| 0 <= c < mem1.len() implies !(#[trigger] mem1[c]@).contains(
                app_id,
            ) by {
                if a0.categories@.contains(c as CategoryId) {
                    assert(removed_from(s0.members_at(c), mem1[c]@, app_id));
                } else {
                    assert(mem1[c] == s0.apps_ids_by_category_id@[c]);
                    if s0.members_at(c).contains(app_id) {
                        let w = choose|w: int|
                            0 <= w < s0.members_at(c).len() && s0.members_at(c)[w] == app_id;
                        assert(s0.app_at(s0.members_at(c)[w] as int).categories@.contains(
                            c as CategoryId));
                    }
                }
            }
        }
        let ids = self.resolve_categories(&app.categories);
        proof {
            assert forall|k: int| 0 <= k < ids@.len() implies (#[trigger] ids@[k])
                < self.apps_ids_by_category_id@.len() by {
                assert(ids@[k] < self.categories@.len());
            }
        }
        install_membership(&mut self.apps_ids_by_category_id, app_id, &ids);
        let ghost mem2 = self.apps_ids_by_category_id@;
        // the new record
        let added_by = match app.added_by_account_id {
            Some(x) => Some(x),
            None => Some(a0.added_by_account_id),
        };
        let contracts = dedup_strings(
            match app.contracts {
                Some(v) => v,
                None => Vec::new(),
            },
        );
        proof {
            assert(dedup_strs(Seq::<String>::empty()) =~= Seq::<String>::empty());
        }
        let req2 = AppJSON {
            added_by_account_id: None,
            dapp_account_id: app.dapp_account_id,
            slug: lowered,
            title: app.title,
            categories: Vec::new(),
            oneliner: app.oneliner,
            description: app.description,
            logo_url: app.logo_url,
            twitter: app.twitter,
            facebook: app.facebook,
            medium: app.medium,
            telegram: app.telegram,
            github: app.github,
            discord: app.discord,
            symbol: app.symbol,
            contracts: None,
            token_address: app.token_address,
            active: new_active,
        };
        let ghost s_before_insert = *self;
        self.internal_insert_app(app_id, req2, added_by, ids, contracts);
        proof {
            let post = *self;
            let new_rec = post.app_at(id);
            assert(post.apps@ == s_before_insert.apps@.update(id, post.apps@[id]));
            assert(post.apps@.len() == s0.apps@.len());
            assert forall|k: int| #![trigger post.apps@[k]] 0 <= k < s0.apps@.len() && k != id
                implies post.apps@[k] == s0.apps@[k] by {}
            // membership description
            assert forall|c: int| #![trigger post.apps_ids_by_category_id@[c]] 0 <= c
                < s0.apps_ids_by_category_id@.len() implies (post.members_at(c).contains(app_id)
                <==> new_rec.categories@.contains(c as CategoryId)) && (forall|x: AppId|
                x != app_id ==> (post.members_at(c).contains(x) <==> s0.members_at(c).contains(
                x,
            ))) by {
                assert(post.members_at(c) == mem2[c]@);
                assert(new_rec.categories@ == ids@);
                if ids@.contains(c as CategoryId) {
                    assert(mem2[c]@ == mem1[c]@.push(app_id));
                    assert(mem2[c]@.last() == app_id);
                    assert(mem2[c]@.contains(app_id));
                } else {
                    assert(mem2[c] == mem1[c]);
                    assert(!mem1[c]@.contains(app_id));
                    if new_rec.categories@.contains(c as CategoryId) {
                        assert(ids@.contains(c as CategoryId));
                    }
                }
                assert forall|x: AppId| x != app_id implies (post.members_at(c).contains(x)
                    <==> s0.members_at(c).contains(x)) by {
                    let base = mem1[c]@;
                    if ids@.contains(c as CategoryId) {
                        assert(mem2[c]@ == base.push(app_id));
                        assert forall|y: AppId| y != app_id implies (base.push(app_id).contains(y)
                            <==> base.contains(y)) by {
                            if base.push(app_id).contains(y) {
                                let w = choose|w: int|
                                    0 <= w < base.push(app_id).len() && base.push(app_id)[w] == y;
                                if w < base.len() {
                                    assert(base[w] == y);
                                }
                            }
                            if base.contains(y) {
                                let w = choose|w: int| 0 <= w < base.len() && base[w] == y;
                                assert(base.push(app_id)[w] == y);
                            }
                        }
                    }
                    if a0.categories@.contains(c as CategoryId) {
                        assert(removed_from(s0.members_at(c), base, app_id));
                    } else {
                        assert(base == s0.members_at(c));
                    }
                }
            }
            // counter
            assert(post.disabled_apps == counter_adjust(s0.disabled_apps, a0.active, new_active));
            assert(new_rec.active == new_active);
            assert(a0.active == s0.app_at(id).active);
            assert(count_disabled(post.apps@) == count_disabled(s0.apps@) - (if is_disabled(
                s0.apps@[id],
            ) {
                1int
            } else {
                0int
            }) + (if is_disabled(post.apps@[id]) {
                1int
            } else {
                0int
            })) by {
                lemma_count_disabled_update(s0.apps@, id, post.apps@[id]);
                assert(post.apps@ =~= s0.apps@.update(id, post.apps@[id]));
            }
            if s0.counter_consistent() {
                lemma_count_disabled_bounds(s0.apps@);
                lemma_count_disabled_bounds(post.apps@);
                assert(post.counter_consistent());
            }
            // well-formedness
            assert forall|k: int| 0 <= k < post.apps@.len() implies app_valid(
                #[trigger] post.app_at(k),
                post.categories@.len() as int,
            ) by {
                if k != id {
                    assert(post.apps@[k] == s0.apps@[k]);
                    assert(app_valid(s0.app_at(k), s0.categories@.len() as int));
                } else {
                    assert(new_rec.categories@ == ids@);
                }
            }
            // slug index
            let es_slug2 = post.app_id_by_slug@;
            assert(es_slug2 == es_slug1.push((req2.slug, app_id)));
            assert(req2.slug@ == lowered@);
            lemma_lookup_characterize(es_slug1, lowered@);
            assert forall|j: int| 0 <= j < es_slug1.len() implies es_slug1[j].0@ != lowered@ by {}
            lemma_distinct_push(es_slug1, (req2.slug, app_id));
            assert(keys_distinct(es_slug2));
            assert forall|j: int| 0 <= j < es_slug2.len() implies (#[trigger] es_slug2[j]).1
                < post.apps@.len() && post.app_at(es_slug2[j].1 as int).slug@ == es_slug2[j].0@ by {
                if j < es_slug1.len() {
                    let ps = spec_key_index(es_slug0, a0.slug@);
                    let j0: int = if j < ps { j } else { j + 1 };
                    assert(es_slug1[j] == es_slug0[j0]);
                    let t = es_slug0[j0].1;
                    assert(t < s0.apps@.len() && s0.app_at(t as int).slug@ == es_slug0[j0].0@);
                    assert(t != app_id) by {
                        if t == app_id {
                            assert(es_slug0[j0].0@ == a0.slug@);
                            assert(es_slug0[ps].0@ == a0.slug@);
                            assert(j0 != ps);
                        }
                    }
                    assert(post.apps@[t as int] == s0.apps@[t as int]);
                } else {
                    assert(es_slug2[j] == (req2.slug, app_id));
                    assert(new_rec.slug@ == lowered@);
                }
            }
            assert forall|k: int| 0 <= k < post.apps@.len() implies spec_lookup(
                es_slug2,
                (#[trigger] post.app_at(k)).slug@,
            ) == Some(k as AppId) by {
                lemma_lookup_push(es_slug1, (req2.slug, app_id), post.app_at(k).slug@);
                if k != id {
                    assert(post.apps@[k] == s0.apps@[k]);
                    let sk = s0.app_at(k).slug@;
                    assert(spec_lookup(es_slug0, sk) == Some(k as AppId));
                    assert(sk != a0.slug@) by {
                        if sk == a0.slug@ {
                            assert(spec_lookup(es_slug0, a0.slug@) == Some(app_id));
                        }
                    }
                    let ps = spec_key_index(es_slug0, a0.slug@);
                    lemma_lookup_remove(es_slug0, ps, sk);
                    assert(es_slug0[ps].0@ == a0.slug@);
                    assert(spec_lookup(es_slug1, sk) == Some(k as AppId));
                } else {
                    assert(spec_lookup(es_slug1, lowered@) is None);
                }
            }
            // account index
            let es_acct2 = post.app_id_by_dapp_account_id@;
            assert(es_acct2 == es_acct1.push((req2.dapp_account_id, app_id)));
            assert(req2.dapp_account_id@ == a0.dapp_account_id@);
            lemma_lookup_characterize(es_acct1, a0.dapp_account_id@);
            lemma_distinct_push(es_acct1, (req2.dapp_account_id, app_id));
            assert(keys_distinct(es_acct2));
            assert forall|j: int| 0 <= j < es_acct2.len() implies (#[trigger] es_acct2[j]).1
                < post.apps@.len() && post.app_at(es_acct2[j].1 as int).dapp_account_id@
                == es_acct2[j].0@ by {
                if j < es_acct1.len() {
                    let pa = spec_key_index(es_acct0, a0.dapp_account_id@);
                    let j0: int = if j < pa { j } else { j + 1 };
                    assert(es_acct1[j] == es_acct0[j0]);
                    let t = es_acct0[j0].1;
                    assert(t < s0.apps@.len() && s0.app_at(t as int).dapp_account_id@
                        == es_acct0[j0].0@);
                    assert(t != app_id) by {
                        if t == app_id {
                            assert(es_acct0[j0].0@ == a0.dapp_account_id@);
                            assert(es_acct0[pa].0@ == a0.dapp_account_id@);
                            assert(j0 != pa);
                        }
                    }
                    assert(post.apps@[t as int] == s0.apps@[t as int]);
                } else {
                    assert(es_acct2[j] == (req2.dapp_account_id, app_id));
                    assert(new_rec.dapp_account_id@ == a0.dapp_account_id@);
                }
            }
            assert forall|k: int| 0 <= k < post.apps@.len() implies spec_lookup(
                es_acct2,
                (#[trigger] post.app_at(k)).dapp_account_id@,
            ) == Some(k as AppId) by {
                lemma_lookup_push(es_acct1, (req2.dapp_account_id, app_id), post.app_at(
                    k,
                ).dapp_account_id@);
                if k != id {
                    assert(post.apps@[k] == s0.apps@[k]);
                    let ak = s0.app_at(k).dapp_account_id@;
                    assert(spec_lookup(es_acct0, ak) == Some(k as AppId));
                    assert(ak != a0.dapp_account_id@) by {
                        if ak == a0.dapp_account_id@ {
                            assert(spec_lookup(es_acct0, a0.dapp_account_id@) == Some(app_id));
                        }
                    }
                    let pa = spec_key_index(es_acct0, a0.dapp_account_id@);
                    lemma_lookup_remove(es_acct0, pa, ak);
                    assert(es_acct0[pa].0@ == a0.dapp_account_id@);
                    assert(spec_lookup(es_acct1, ak) == Some(k as AppId));
                } else {
                    assert(new_rec.dapp_account_id@ == a0.dapp_account_id@);
                    assert(spec_lookup(es_acct1, a0.dapp_account_id@) is None);
                }
            }
            // membership well-formedness
            assert forall|c: int| 0 <= c < post.apps_ids_by_category_id@.len() implies distinct_ids(
                #[trigger] post.members_at(c),
            ) && (forall|k: int| 0 <= k < post.members_at(c).len() ==> (#[trigger] post.members_at(
                c,
            )[k]) < post.apps@.len() && post.app_at(post.members_at(c)[k] as int).categories@
                .contains(c as CategoryId)) by {
                assert(post.members_at(c) == mem2[c]@);
                assert(distinct_ids(mem2[c]@));
                assert forall|k: int| 0 <= k < post.members_at(c).len() implies (
                #[trigger] post.members_at(c)[k]) < post.apps@.len() && post.app_at(
                    post.members_at(c)[k] as int,
                ).categories@.contains(c as CategoryId) by {
                    let x = post.members_at(c)[k];
                    assert(mem2[c]@.contains(x));
                    if x == app_id {
                        assert(mem2[c]@.contains(app_id));
                        assert(!mem1[c]@.contains(app_id));
                        assert(ids@.contains(c as CategoryId)) by {
                            if !ids@.contains(c as CategoryId) {
                                assert(mem2[c] == mem1[c]);
                            }
                        }
                        assert(new_rec.categories@ == ids@);
                    } else {
                        assert(mem1[c]@.contains(x)) by {
                            if ids@.contains(c as CategoryId) {
                                assert(mem2[c]@ == mem1[c]@.push(app_id));
                                let w = choose|w: int|
                                    0 <= w < mem2[c]@.len() && mem2[c]@[w] == x;
                                assert(w < mem1[c]@.len());
                            } else {
                                assert(mem2[c] == mem1[c]);
                            }
                        }
                        assert(s0.members_at(c).contains(x)) by {
                            if a0.categories@.contains(c as CategoryId) {
                                assert(removed_from(s0.members_at(c), mem1[c]@, app_id));
                            } else {
                                assert(mem1[c] == s0.apps_ids_by_category_id@[c]);
                            }
                        }
                        let w = choose|w: int|
                            0 <= w < s0.members_at(c).len() && s0.members_at(c)[w] == x;
                        assert(s0.app_at(x as int).categories@.contains(c as CategoryId));
                        assert(post.apps@[x as int] == s0.apps@[x as int]);
                    }
                }
            }
            // every displayable listing is indexed under its categories
            assert forall|k: int, m: int|
                0 <= k < post.apps@.len() && post.app_at(k).active != Some(false) && 0 <= m
                    < post.app_at(k).categories@.len() implies post.members_at(
                (#[trigger] post.app_at(k).categories@[m]) as int,
            ).contains(k as AppId) by {
                let cc = post.app_at(k).categories@[m] as int;
                if k == id {
                    assert(new_rec.categories@ == ids@);
                    assert(ids@.contains(ids@[m]));
                    assert(cc < post.apps_ids_by_category_id@.len());
                    assert(mem2[cc]@ == mem1[cc]@.push(app_id));
                    assert(mem2[cc]@.last() == app_id);
                    assert(mem2[cc]@.contains(app_id));
                } else {
                    assert(post.apps@[k] == s0.apps@[k]);
                    assert(app_valid(s0.app_at(k), s0.categories@.len() as int));
                    assert(s0.members_at(cc).contains(k as AppId));
                    assert(cc < s0.apps_ids_by_category_id@.len());
                    assert(mem1[cc]@.contains(k as AppId)) by {
                        if a0.categories@.contains(cc as CategoryId) {
                            assert(removed_from(s0.members_at(cc), mem1[cc]@, app_id));
                        } else {
                            assert(mem1[cc] == s0.apps_ids_by_category_id@[cc]);
                        }
                    }
                    assert(mem2[cc]@.contains(k as AppId)) by {
                        if ids@.contains(cc as CategoryId) {
                            assert(mem2[cc]@ == mem1[cc]@.push(app_id));
                            let w = choose|w: int|
                                0 <= w < mem1[cc]@.len() && mem1[cc]@[w] == k as AppId;
                            assert(mem2[cc]@[w] == k as AppId);
                        } else {
                            assert(mem2[cc] == mem1[cc]);
                        }
                    }
                }
            }
        }
        Ok(())
    }
}

} // verus!
