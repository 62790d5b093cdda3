//! Listings: the durable records of directory entries.
//!
//! `App` is the stored record; `AppJSON` is the shape in which requests arrive
//! and read queries answer, with category identifiers spelled as decimal
//! strings.  `VApp` is the versioned wrapper under which records are stored.
use vstd::prelude::*;
use vstd::pervasive::unreached;
use crate::{AppId, CategoryId, Contract};
use crate::index::{index_insert, spec_lookup};
use crate::text::dec_string_of;
use crate::text::u64_to_string;

verus! {

/// Versioned wrapper of the durable listing record.
pub enum VApp {
    Current(App),
}

/// A listing record.
pub struct App {
    /// The account that submitted the listing and may edit it.
    pub added_by_account_id: String,
    /// The listed application's own account; immutable once committed.
    pub dapp_account_id: String,
    pub slug: String,
    pub title: String,
    /// Identifiers of the categories the listing belongs to; no duplicates,
    /// every one present in the category registry.
    pub categories: Vec<CategoryId>,
    pub oneliner: Option<String>,
    pub description: Option<String>,
    pub logo_url: Option<String>,
    pub twitter: Option<String>,
    pub facebook: Option<String>,
    pub medium: Option<String>,
    pub telegram: Option<String>,
    pub github: Option<String>,
    pub discord: Option<String>,
    pub symbol: Option<String>,
    /// Accounts of contracts linked to the listing; no duplicates.
    pub contracts: Vec<String>,
    pub token_address: Option<String>,
    /// `None` and `Some(true)` are displayable; `Some(false)` means disabled.
    pub active: Option<bool>,
}

/// The JSON shape of a listing.
pub struct AppJSON {
    pub added_by_account_id: Option<String>,
    pub dapp_account_id: String,
    pub slug: String,
    pub title: String,
    /// Category identifiers spelled as decimal strings.
    pub categories: Vec<String>,
    pub oneliner: Option<String>,
    pub description: Option<String>,
    pub logo_url: Option<String>,
    pub twitter: Option<String>,
    pub facebook: Option<String>,
    pub medium: Option<String>,
    pub telegram: Option<String>,
    pub github: Option<String>,
    pub discord: Option<String>,
    pub symbol: Option<String>,
    pub contracts: Option<Vec<String>>,
    pub token_address: Option<String>,
    pub active: Option<bool>,
}

impl VApp {
    /// The current record inside the versioned wrapper.
    pub open spec fn spec_app(self) -> App {
        match self {
            VApp::Current(a) => a,
        }
    }
}

/// Both absent, or present with the same text.
pub open spec fn opt_str_eqv(a: Option<String>, b: Option<String>) -> bool {
    match a {
        Option::None => b is None,
        Option::Some(x) => b matches Some(y) && y@ == x@,
    }
}

/// Two listing records with the same content apart from the active flag.
pub open spec fn app_eqv_mod_active(a: App, b: App) -> bool {
    &&& b.added_by_account_id@ == a.added_by_account_id@
    &&& b.dapp_account_id@ == a.dapp_account_id@
    &&& b.slug@ == a.slug@
    &&& b.title@ == a.title@
    &&& b.categories@ == a.categories@
    &&& opt_str_eqv(a.oneliner, b.oneliner)
    &&& opt_str_eqv(a.description, b.description)
    &&& opt_str_eqv(a.logo_url, b.logo_url)
    &&& opt_str_eqv(a.twitter, b.twitter)
    &&& opt_str_eqv(a.facebook, b.facebook)
    &&& opt_str_eqv(a.medium, b.medium)
    &&& opt_str_eqv(a.telegram, b.telegram)
    &&& opt_str_eqv(a.github, b.github)
    &&& opt_str_eqv(a.discord, b.discord)
    &&& opt_str_eqv(a.symbol, b.symbol)
    &&& b.contracts@ == a.contracts@
    &&& opt_str_eqv(a.token_address, b.token_address)
}

/// Two listing records with the same content.
pub open spec fn app_eqv(a: App, b: App) -> bool {
    &&& app_eqv_mod_active(a, b)
    &&& b.active == a.active
}

impl Clone for App {
    fn clone(&self) -> (res: Self)
        ensures
            app_eqv(*self, res),
    {
        let res = App {
            added_by_account_id: self.added_by_account_id.clone(),
            dapp_account_id: self.dapp_account_id.clone(),
            slug: self.slug.clone(),
            title: self.title.clone(),
            categories: self.categories.clone(),
            oneliner: self.oneliner.clone(),
            description: self.description.clone(),
            logo_url: self.logo_url.clone(),
            twitter: self.twitter.clone(),
            facebook: self.facebook.clone(),
            medium: self.medium.clone(),
            telegram: self.telegram.clone(),
            github: self.github.clone(),
            discord: self.discord.clone(),
            symbol: self.symbol.clone(),
            contracts: self.contracts.clone(),
            token_address: self.token_address.clone(),
            active: self.active,
        };
        proof {
            assert(res.categories@ =~= self.categories@);
            assert(res.contracts@ =~= self.contracts@);
        }
        res
    }
}

impl Clone for VApp {
    fn clone(&self) -> (res: Self)
        ensures
            app_eqv(self.spec_app(), res.spec_app()),
    {
        match self {
            VApp::Current(a) => VApp::Current(a.clone()),
        }
    }
}

impl From<VApp> for App {
    fn from(v_app: VApp) -> (r: Self) {
        match v_app {
            VApp::Current(app) => app,
        }
    }
}

impl vstd::std_specs::convert::FromSpecImpl<VApp> for App {
    open spec fn obeys_from_spec() -> bool {
        true
    }

    open spec fn from_spec(v: VApp) -> App {
        v.spec_app()
    }
}

/// The JSON answer for a stored listing: every field carried over, category
/// identifiers spelled in decimal, the submitter reported.
pub open spec fn json_of(a: App, j: AppJSON) -> bool {
    &&& j.added_by_account_id matches Some(x) && x@ == a.added_by_account_id@
    &&& j.dapp_account_id@ == a.dapp_account_id@
    &&& j.slug@ == a.slug@
    &&& j.title@ == a.title@
    &&& j.categories@.len() == a.categories@.len()
    &&& forall|k: int| 0 <= k < a.categories@.len() ==> #[trigger] j.categories@[k]@
        == dec_string_of(a.categories@[k] as int)
    &&& opt_str_eqv(a.oneliner, j.oneliner)
    &&& opt_str_eqv(a.description, j.description)
    &&& opt_str_eqv(a.logo_url, j.logo_url)
    &&& opt_str_eqv(a.twitter, j.twitter)
    &&& opt_str_eqv(a.facebook, j.facebook)
    &&& opt_str_eqv(a.medium, j.medium)
    &&& opt_str_eqv(a.telegram, j.telegram)
    &&& opt_str_eqv(a.github, j.github)
    &&& opt_str_eqv(a.discord, j.discord)
    &&& opt_str_eqv(a.symbol, j.symbol)
    &&& j.contracts matches Some(v) && v@ == a.contracts@
    &&& opt_str_eqv(a.token_address, j.token_address)
    &&& j.active == a.active
}

/// Builds the JSON answer for a stored listing.
pub fn app_json_of(a: &App) -> (j: AppJSON)
    ensures
        json_of(*a, j),
{
    let mut categories: Vec<String> = Vec::new();
    let n = a.categories.len();
    let mut i: usize = 0;
    while i < n
        invariant
            0 <= i <= n,
            n == a.categories@.len(),
            categories@.len() == i,
            forall|k: int| 0 <= k < i ==> #[trigger] categories@[k]@ == dec_string_of(
                a.categories@[k] as int),
        decreases n - i,
    {
        categories.push(u64_to_string(a.categories[i]));
        i = i + 1;
    }
    let contracts = self_contracts(a);
    AppJSON {
        added_by_account_id: Some(a.added_by_account_id.clone()),
        dapp_account_id: a.dapp_account_id.clone(),
        slug: a.slug.clone(),
        title: a.title.clone(),
        categories,
        oneliner: a.oneliner.clone(),
        description: a.description.clone(),
        logo_url: a.logo_url.clone(),
        twitter: a.twitter.clone(),
        facebook: a.facebook.clone(),
        medium: a.medium.clone(),
        telegram: a.telegram.clone(),
        github: a.github.clone(),
        discord: a.discord.clone(),
        symbol: a.symbol.clone(),
        contracts: Some(contracts),
        token_address: a.token_address.clone(),
        active: a.active,
    }
}

/// Copies the linked contract accounts of a listing.
fn self_contracts(a: &App) -> (r: Vec<String>)
    ensures
        r@ == a.contracts@,
{
    let r = a.contracts.clone();
    proof {
        assert(r@ =~= a.contracts@);
    }
    r
}

impl AppJSON {
    /// The JSON answer for a stored listing, as read queries return it.
    pub fn from(v_app: VApp) -> (r: AppJSON)
        ensures
            json_of(v_app.spec_app(), r),
    {
        match v_app {
            VApp::Current(app) => app_json_of(&app),
        }
    }
}


/// The listing record stored for a request: the request's fields, the
/// resolved submitter, category ids and deduplicated contract accounts.
pub open spec fn inserted_app(
    app: AppJSON,
    added_by: String,
    categories: Vec<CategoryId>,
    contracts: Vec<String>,
) -> App {
    App {
        added_by_account_id: added_by,
        dapp_account_id: app.dapp_account_id,
        slug: app.slug,
        title: app.title,
        categories,
        oneliner: app.oneliner,
        description: app.description,
        logo_url: app.logo_url,
        twitter: app.twitter,
        facebook: app.facebook,
        medium: app.medium,
        telegram: app.telegram,
        github: app.github,
        discord: app.discord,
        symbol: app.symbol,
        contracts,
        token_address: app.token_address,
        active: app.active,
    }
}

impl Contract {
    /// Stores a listing record under the given id and indexes its slug and
    /// its application account, both of which must be free.  The caller hands
    /// in the canonical (lower-cased) slug, the resolved category ids and the
    /// deduplicated contract accounts; membership lists are maintained by the
    /// caller.
    pub(crate) fn internal_insert_app(
        &mut self,
        app_id: AppId,
        app: AppJSON,
        added_by_account_id: Option<String>,
        categories: Vec<CategoryId>,
        contracts: Vec<String>,
    )
        requires
            added_by_account_id is Some,
            app_id as int <= old(self).apps@.len(),
            app_id as int == old(self).apps@.len() ==> old(self).apps@.len() < u64::MAX,
            spec_lookup(old(self).app_id_by_slug@, app.slug@) is None,
            spec_lookup(old(self).app_id_by_dapp_account_id@, app.dapp_account_id@) is None,
        ensures
            ({
                let rec = VApp::Current(
                    inserted_app(app, added_by_account_id.unwrap(), categories, contracts),
                );
                &&& final(self).apps@ == if app_id as int == old(self).apps@.len() {
                    old(self).apps@.push(rec)
                } else {
                    old(self).apps@.update(app_id as int, rec)
                }
                &&& final(self).app_id_by_slug@ == old(self).app_id_by_slug@.push(
                    (app.slug, app_id),
                )
                &&& final(self).app_id_by_dapp_account_id@ == old(
                    self,
                ).app_id_by_dapp_account_id@.push((app.dapp_account_id, app_id))
                &&& final(self).guardians@ == old(self).guardians@
                &&& final(self).categories@ == old(self).categories@
                &&& final(self).apps_ids_by_category_id@ == old(self).apps_ids_by_category_id@
                &&& final(self).next_app_id == old(self).next_app_id
                &&& final(self).next_category_id == old(self).next_category_id
                &&& final(self).disabled_apps == old(self).disabled_apps
            }),
    {
        let slug_key = app.slug.clone();
        let account_key = app.dapp_account_id.clone();
        index_insert(&mut self.app_id_by_slug, slug_key, app_id);
        index_insert(&mut self.app_id_by_dapp_account_id, account_key, app_id);
        let added_by = match added_by_account_id {
            Some(x) => x,
            None => unreached(),
        };
        let rec = VApp::Current(
            App {
                added_by_account_id: added_by,
                dapp_account_id: app.dapp_account_id,
                slug: app.slug,
                title: app.title,
                categories,
                oneliner: app.oneliner,
                description: app.description,
                logo_url: app.logo_url,
                twitter: app.twitter,
                facebook: app.facebook,
                medium: app.medium,
                telegram: app.telegram,
                github: app.github,
                discord: app.discord,
                symbol: app.symbol,
                contracts,
                token_address: app.token_address,
                active: app.active,
            },
        );
        let alen = self.apps.len();
        if app_id == alen as u64 {
            self.apps.push(rec);
        } else {
            self.apps[app_id as usize] = rec;
        }
    }
}

} // verus!
