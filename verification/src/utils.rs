//! Shared helpers: pagination, guardian checks, and internal lookups.
use vstd::prelude::*;
use crate::{AppId, CategoryId, distinct_ids};
use crate::app::{App, AppJSON, VApp, app_eqv, app_json_of, json_of};
use crate::errors::Field;
use crate::guardians::find_str;
use crate::index::{lemma_distinct_push, lemma_lookup_push};
use crate::members::{contains_id, install_membership};
use crate::text::{lower_of, to_lowercase_string};
use crate::web4::{Web4Request, Web4Response};
use crate::{app_valid, count_disabled, is_disabled, lemma_count_disabled_push};
use crate::app::opt_str_eqv;
use crate::text::{is_dec_string, dec_value, lemma_dec_value_nonneg, parse_u64};
use crate::category::{Category, CategoryJSON, VCategory};
use crate::errors::RegistryError;
use crate::index::{index_lookup, lemma_lookup_characterize, spec_key_index, spec_lookup};
use crate::text::str_eq;
use crate::Contract;

verus! {

/// The fee attached to a create or update by anyone who is not a guardian,
/// in the smallest currency unit.
pub const LISTING_FEE: u128 = 100_000_000_000_000_000_000_000;

/// The first index of a page.
pub open spec fn page_from(from_index: Option<u64>) -> u64 {
    match from_index {
        Option::Some(f) => f,
        Option::None => 0,
    }
}

/// One past the last index of a page over `len` records: the page never runs
/// past the end, and an omitted limit means the rest.
pub open spec fn page_end(len: int, from_index: Option<u64>, limit: Option<u64>) -> int {
    let from = page_from(from_index) as int;
    let lim = match limit {
        Option::Some(l) => l as int,
        Option::None => len,
    };
    if len < from + lim {
        len
    } else {
        from + lim
    }
}

/// A stable page of an insertion-ordered store: the records at indices
/// `from .. min(len, from + limit)`, each with its index.  Asking past the end
/// gives an empty page, never an error.
pub fn unordered_map_pagination<'a, T>(
    m: &'a Vec<T>,
    from_index: Option<u64>,
    limit: Option<u64>,
) -> (r: Vec<(u64, &'a T)>)
    ensures
        ({
            let from = page_from(from_index) as int;
            let end = page_end(m@.len() as int, from_index, limit);
            &&& r@.len() == if from <= end { end - from } else { 0int }
            &&& forall|k: int| 0 <= k < r@.len() ==> (#[trigger] r@[k]).0 == from + k && *(r@[k].1)
                == m@[from + k]
        }),
{
    let len_u = m.len() as u64;
    let from = match from_index {
        Some(f) => f,
        None => 0,
    };
    let lim = match limit {
        Some(l) => l,
        None => len_u,
    };
    let sum = match from.checked_add(lim) {
        Some(s) => s,
        None => len_u,
    };
    let end = if len_u < sum {
        len_u
    } else {
        sum
    };
    let mut r: Vec<(u64, &'a T)> = Vec::new();
    if from >= end {
        return r;
    }
    let from_us = from as usize;
    let end_us = end as usize;
    let mut j: usize = from_us;
    while j < end_us
        invariant
            from_us <= j <= end_us,
            from_us as int == from as int,
            end_us as int == end as int,
            end as int <= m@.len(),
            end as int == page_end(m@.len() as int, from_index, limit),
            from == page_from(from_index),
            r@.len() == j - from_us,
            forall|k: int| 0 <= k < r@.len() ==> (#[trigger] r@[k]).0 == from + k && *(r@[k].1)
                == m@[from as int + k],
        decreases end_us - j,
    {
        r.push((j as u64, &m[j]));
        j = j + 1;
    }
    r
}

/// The JSON answer for a stored listing record.
pub fn vapp_json(v: &VApp) -> (j: AppJSON)
    ensures
        json_of(v.spec_app(), j),
{
    match v {
        VApp::Current(a) => app_json_of(a),
    }
}

/// The JSON answer for a category: the same text.
pub open spec fn cjson_of(c: Category, j: CategoryJSON) -> bool {
    &&& j.slug@ == c.slug@
    &&& j.title@ == c.title@
}

/// Builds the JSON answer for a stored category record.
pub fn vcat_json(v: &VCategory) -> (j: CategoryJSON)
    ensures
        cjson_of(v.spec_cat(), j),
{
    match v {
        VCategory::Current(c) => CategoryJSON { slug: c.slug.clone(), title: c.title.clone() },
    }
}

impl Contract {
    /// Whether the account is one of the guardians.
    pub fn is_guardian(&self, account: &str) -> (b: bool)
        ensures
            b == self.spec_is_guardian(account@),
    {
        let n = self.guardians.len();
        let mut g: usize = 0;
        while g < n
            invariant
                0 <= g <= n,
                n == self.guardians@.len(),
                forall|k: int| 0 <= k < g ==> #[trigger] self.guardians@[k]@ != account@,
            decreases n - g,
        {
            if str_eq(self.guardians[g].as_str(), account) {
                return true;
            }
            g = g + 1;
        }
        false
    }

    /// Checks that the caller is a guardian; otherwise access is denied.
    pub fn assert_guardian(&self, predecessor: &String) -> (r: Result<(), RegistryError>)
        ensures
            match r {
                Ok(_) => self.spec_is_guardian(predecessor@),
                Err(e) => !self.spec_is_guardian(predecessor@) && e
                    == RegistryError::AccessDeniedError,
            },
    {
        if self.is_guardian(predecessor.as_str()) {
            Ok(())
        } else {
            Err(RegistryError::AccessDeniedError)
        }
    }

    /// A stable page of stored listing records in insertion order.
    pub fn internal_get_apps(&self, from_index: Option<u64>, limit: Option<u64>) -> (r: Vec<
        (AppId, App),
    >)
        ensures
            ({
                let from = page_from(from_index) as int;
                let end = page_end(self.apps@.len() as int, from_index, limit);
                &&& r@.len() == if from <= end { end - from } else { 0int }
                &&& forall|k: int| 0 <= k < r@.len() ==> (#[trigger] r@[k]).0 == from + k && app_eqv(
                    self.app_at(from + k),
                    r@[k].1,
                )
            }),
    {
        let page = unordered_map_pagination(&self.apps, from_index, limit);
        let mut r: Vec<(AppId, App)> = Vec::new();
        let n = page.len();
        let mut j: usize = 0;
        while j < n
            invariant
                0 <= j <= n,
                n == page@.len(),
                r@.len() == j,
                forall|k: int| 0 <= k < page@.len() ==> *((#[trigger] page@[k]).1)
                    == self.apps@[page@[k].0 as int] && 0 <= page@[k].0 < self.apps@.len(),
                forall|k: int| 0 <= k < j ==> (#[trigger] r@[k]).0 == page@[k].0 && app_eqv(
                    self.app_at(page@[k].0 as int),
                    r@[k].1,
                ),
            decreases n - j,
        {
            let a = match page[j].1 {
                VApp::Current(a) => a.clone(),
            };
            r.push((page[j].0, a));
            j = j + 1;
        }
        r
    }

    /// Finds the listing carrying a slug, with its id.
    pub fn internal_get_app_by_slug(&self, slug: &String) -> (r: Result<
        (AppId, VApp),
        RegistryError,
    >)
        requires
            self.wf(),
        ensures
            match r {
                Ok(p) => spec_lookup(self.app_id_by_slug@, slug@) == Some(p.0) && p.0
                    < self.apps@.len() && app_eqv(self.app_at(p.0 as int), p.1.spec_app()),
                Err(e) => spec_lookup(self.app_id_by_slug@, slug@) is None && e
                    == RegistryError::NotFoundError,
            },
    {
        match index_lookup(&self.app_id_by_slug, slug.as_str()) {
            Some(app_id) => {
                proof {
                    lemma_lookup_characterize(self.app_id_by_slug@, slug@);
                    let p = spec_key_index(self.app_id_by_slug@, slug@);
                    assert(self.app_id_by_slug@[p].1 == app_id);
                    assert(app_id < self.apps@.len());
                }
                let nlen = self.apps.len();
                assert(app_id < nlen as u64);
                Ok((app_id, self.apps[app_id as usize].clone()))
            }
            None => Err(RegistryError::NotFoundError),
        }
    }
}


/// Which category ids a list of decimal strings names, in order of first
/// occurrence: strings that do not spell a number, numbers that fit no
/// existing category, and repeated ids are dropped silently.
pub open spec fn resolved_cats(ss: Seq<String>, ncats: int) -> Seq<CategoryId>
    decreases ss.len(),
{
    if ss.len() == 0 {
        Seq::empty()
    } else {
        let rest = resolved_cats(ss.drop_last(), ncats);
        let s = ss.last()@;
        if is_dec_string(s) && dec_value(s) <= u64::MAX && dec_value(s) < ncats && !rest.contains(
            dec_value(s) as CategoryId,
        ) {
            rest.push(dec_value(s) as CategoryId)
        } else {
            rest
        }
    }
}

/// The resolved ids are distinct and all name existing categories.
pub proof fn lemma_resolved_cats_valid(ss: Seq<String>, ncats: int)
    ensures
        distinct_ids(resolved_cats(ss, ncats)),
        forall|k: int| 0 <= k < resolved_cats(ss, ncats).len()
            ==> #[trigger] resolved_cats(ss, ncats)[k] < ncats,
    decreases ss.len(),
{
    if ss.len() > 0 {
        lemma_resolved_cats_valid(ss.drop_last(), ncats);
        let rest = resolved_cats(ss.drop_last(), ncats);
        let r = resolved_cats(ss, ncats);
        if r.len() == rest.len() + 1 {
            assert forall|x: int, y: int| 0 <= x < y < r.len() implies r[x] != r[y] by {
                if y < rest.len() {
                    assert(r[x] == rest[x] && r[y] == rest[y]);
                } else {
                    assert(r[x] == rest[x]);
                    assert(rest.contains(rest[x]));
                }
            }
        }
        assert forall|k: int| 0 <= k < r.len() implies #[trigger] r[k] < ncats by {
            if k < rest.len() {
                assert(r[k] == rest[k]);
            } else {
                let s = ss.last()@;
                assert(is_dec_string(s) && dec_value(s) <= u64::MAX && dec_value(s) < ncats);
                lemma_dec_value_nonneg(s);
            }
        }
    }
}

/// Whether a string with the given text occurs in the list.
pub open spec fn str_in(ss: Seq<String>, s: Seq<char>) -> bool {
    exists|j: int| 0 <= j < ss.len() && #[trigger] ss[j]@ == s
}

/// A list of strings with later repetitions of the same text dropped.
pub open spec fn dedup_strs(ss: Seq<String>) -> Seq<String>
    decreases ss.len(),
{
    if ss.len() == 0 {
        Seq::empty()
    } else {
        let rest = dedup_strs(ss.drop_last());
        if str_in(rest, ss.last()@) {
            rest
        } else {
            rest.push(ss.last())
        }
    }
}

/// Drops later repetitions of the same text from a list of account names.
pub fn dedup_strings(src: Vec<String>) -> (r: Vec<String>)
    ensures
        r@ == dedup_strs(src@),
{
    let n = src.len();
    let mut r: Vec<String> = Vec::new();
    let mut i: usize = 0;
    while i < n
        invariant
            0 <= i <= n,
            n == src@.len(),
            r@ == dedup_strs(src@.subrange(0, i as int)),
        decreases n - i,
    {
        let seen = match find_str(&r, src[i].as_str()) {
            Some(p) => {
                proof {
                    assert(r@[p as int]@ == src@[i as int]@);
                    assert(str_in(r@, src@[i as int]@));
                }
                true
            }
            None => {
                proof {
                    if str_in(r@, src@[i as int]@) {
                        let w = choose|w: int| 0 <= w < r@.len() && #[trigger] r@[w]@
                            == src@[i as int]@;
                    }
                    assert(!str_in(r@, src@[i as int]@));
                }
                false
            }
        };
        proof {
            let ext = src@.subrange(0, i as int + 1);
            assert(ext.drop_last() =~= src@.subrange(0, i as int));
            assert(ext.last() == src@[i as int]);
        }
        if !seen {
            let item = src[i].clone();
            r.push(item);
        }
        i = i + 1;
    }
    proof {
        assert(src@.subrange(0, n as int) =~= src@);
    }
    r
}

impl Contract {
    /// Resolves the request's category strings against the category registry:
    /// the named categories that exist, each once, in order of first mention.
    pub fn resolve_categories(&self, strings: &Vec<String>) -> (ids: Vec<CategoryId>)
        ensures
            ids@ == resolved_cats(strings@, self.categories@.len() as int),
            distinct_ids(ids@),
            forall|k: int| 0 <= k < ids@.len() ==> #[trigger] ids@[k] < self.categories@.len(),
    {
        let ghost ncats = self.categories@.len() as int;
        let n = strings.len();
        let ncats_u = self.categories.len() as u64;
        let mut ids: Vec<CategoryId> = Vec::new();
        let mut i: usize = 0;
        while i < n
            invariant
                0 <= i <= n,
                n == strings@.len(),
                ncats == self.categories@.len() as int,
                ncats_u as int == ncats,
                ids@ == resolved_cats(strings@.subrange(0, i as int), ncats),
            decreases n - i,
        {
            proof {
                let ext = strings@.subrange(0, i as int + 1);
                assert(ext.drop_last() =~= strings@.subrange(0, i as int));
                assert(ext.last() == strings@[i as int]);
            }
            match parse_u64(strings[i].as_str()) {
                Some(v) => {
                    if v < ncats_u && !contains_id(&ids, v) {
                        ids.push(v);
                    }
                }
                None => {}
            }
            i = i + 1;
        }
        proof {
            assert(strings@.subrange(0, n as int) =~= strings@);
            lemma_resolved_cats_valid(strings@, ncats);
        }
        ids
    }
}


/// The probe call itself failed to complete: a transport-level failure,
/// distinct from the target answering.
#[derive(Clone, Copy, Debug, PartialEq, Eq, Structural)]
pub enum PromiseError {
    Failed,
}

/// A verification call the host must issue: send `request` to the listing's
/// claimed endpoint, and feed the outcome, together with the carried pending
/// payload, back into `after_web4_get`.
pub struct VerificationCall {
    pub request: Web4Request,
    pub app: AppJSON,
    pub deposit: u128,
    pub added_by_account_id: String,
    pub ignore_promise_success: bool,
}

/// What the registry asks the host to do after a resume: the create request
/// has either been committed, or refunded and discarded (the host returns the
/// amount to the submitter when it is positive), or must be probed once more.
pub enum CreateOutcome {
    Committed { app_id: AppId },
    RefundedAndDiscarded { account_id: String, amount: u128 },
    Retry(VerificationCall),
}

/// The three ways a resume step can go.
#[derive(Clone, Copy, Debug, PartialEq, Eq, Structural)]
pub enum ResumeStep {
    Commit,
    Refund,
    RetryProbe,
}

/// The decision taken on resume.  On a first attempt a transport failure
/// triggers the one retry; otherwise a missing answer, or a slug or account
/// taken while the call was in flight, refunds; any answer commits.
pub open spec fn resume_decision(
    ignore: bool,
    promise_success: bool,
    answered: bool,
    conflict: bool,
) -> ResumeStep {
    if !ignore && !promise_success {
        ResumeStep::RetryProbe
    } else if !answered {
        ResumeStep::Refund
    } else if conflict {
        ResumeStep::Refund
    } else {
        ResumeStep::Commit
    }
}

/// Whether committing this request would collide with a listing registered
/// while the verification call was in flight.
pub open spec fn commit_conflict(pre: Contract, req: AppJSON) -> bool {
    ||| spec_lookup(pre.app_id_by_slug@, lower_of(req.slug@)) is Some
    ||| spec_lookup(pre.app_id_by_dapp_account_id@, req.dapp_account_id@) is Some
}

/// The shape of a verification probe request: addressed to the endpoint, an
/// empty path, and parameter maps that are absent on the first probe and
/// present but empty on the retry.
pub open spec fn probe_request_wf(req: Web4Request, contract_id: Seq<char>, with_data: bool) -> bool {
    &&& req.account_id matches Some(x) && x@ == contract_id
    &&& req.path@ == Seq::<char>::empty()
    &&& if with_data {
        &&& req.params matches Some(v) && v@.len() == 0
        &&& req.query matches Some(v) && v@.len() == 0
        &&& req.preloads matches Some(v) && v@.len() == 0
    } else {
        &&& req.params is None
        &&& req.query is None
        &&& req.preloads is None
    }
}

/// The verification call that carries a pending create request.
pub open spec fn call_carries(
    call: VerificationCall,
    req: AppJSON,
    deposit: u128,
    added_by: String,
    with_data: bool,
) -> bool {
    &&& probe_request_wf(call.request, req.dapp_account_id@, with_data)
    &&& call.app == req
    &&& call.deposit == deposit
    &&& call.added_by_account_id == added_by
    &&& call.ignore_promise_success == with_data
}

/// The error `add_app` reports, if any, in the order the checks are made:
/// slug uniqueness (on the lower-cased slug, the form under which slugs are
/// stored), account uniqueness, field lengths, then the listing fee.
pub open spec fn add_app_error(
    pre: Contract,
    req: AppJSON,
    predecessor: Seq<char>,
    deposit: u128,
) -> Option<RegistryError> {
    if spec_lookup(pre.app_id_by_slug@, lower_of(req.slug@)) is Some {
        Some(RegistryError::ConflictError)
    } else if spec_lookup(pre.app_id_by_dapp_account_id@, req.dapp_account_id@) is Some {
        Some(RegistryError::ConflictError)
    } else if req.title@.len() > 50 {
        Some(RegistryError::ValidationError(Field::Title))
    } else if req.slug@.len() > 50 {
        Some(RegistryError::ValidationError(Field::Slug))
    } else if (match req.oneliner {
        Option::Some(s) => s@.len() > 200,
        Option::None => false,
    }) {
        Some(RegistryError::ValidationError(Field::Oneliner))
    } else if (match req.description {
        Option::Some(s) => s@.len() > 5000,
        Option::None => false,
    }) {
        Some(RegistryError::ValidationError(Field::Description))
    } else if !pre.spec_is_guardian(predecessor) && deposit < LISTING_FEE {
        Some(RegistryError::PaymentRequiredError)
    } else {
        None
    }
}

/// How a committed create request changed the registry: a fresh dense id, the
/// record built from the request with the submitter recorded and the active
/// flag set, category membership installed, and every older record untouched.
pub open spec fn commit_post(pre: Contract, post: Contract, req: AppJSON, added_by: String) -> bool {
    let id = pre.apps@.len() as int;
    let new_rec = post.app_at(id);
    &&& post.apps@.len() == pre.apps@.len() + 1
    &&& forall|i: int| #![trigger post.apps@[i]] 0 <= i < pre.apps@.len() ==> post.apps@[i]
        == pre.apps@[i]
    &&& post.next_app_id == pre.next_app_id + 1
    &&& new_rec.added_by_account_id@ == added_by@
    &&& new_rec.dapp_account_id@ == req.dapp_account_id@
    &&& new_rec.slug@ == lower_of(req.slug@)
    &&& new_rec.title@ == req.title@
    &&& new_rec.categories@ == resolved_cats(req.categories@, pre.categories@.len() as int)
    &&& opt_str_eqv(req.oneliner, new_rec.oneliner)
    &&& opt_str_eqv(req.description, new_rec.description)
    &&& opt_str_eqv(req.logo_url, new_rec.logo_url)
    &&& opt_str_eqv(req.twitter, new_rec.twitter)
    &&& opt_str_eqv(req.facebook, new_rec.facebook)
    &&& opt_str_eqv(req.medium, new_rec.medium)
    &&& opt_str_eqv(req.telegram, new_rec.telegram)
    &&& opt_str_eqv(req.github, new_rec.github)
    &&& opt_str_eqv(req.discord, new_rec.discord)
    &&& opt_str_eqv(req.symbol, new_rec.symbol)
    &&& opt_str_eqv(req.token_address, new_rec.token_address)
    &&& new_rec.contracts@ == dedup_strs(
        match req.contracts {
            Option::Some(v) => v@,
            Option::None => Seq::<String>::empty(),
        },
    )
    &&& new_rec.active == Some(true)
    &&& post.apps_ids_by_category_id@.len() == pre.apps_ids_by_category_id@.len()
    &&& forall|c: int| #![trigger post.apps_ids_by_category_id@[c]] 0 <= c
        < pre.apps_ids_by_category_id@.len() ==> post.members_at(c)
        == if new_rec.categories@.contains(c as CategoryId) {
        pre.members_at(c).push(id as AppId)
    } else {
        pre.members_at(c)
    }
    &&& post.disabled_apps == pre.disabled_apps
    &&& post.guardians@ == pre.guardians@
    &&& post.categories@ == pre.categories@
    &&& post.next_category_id == pre.next_category_id
}

/// The terminal step a create request reaches: the first resume's decision,
/// or, when that decision was the retry, the second resume's decision with
/// the ignore flag set.
pub open spec fn protocol_outcome(
    transport1: bool,
    answered1: bool,
    conflict1: bool,
    transport2: bool,
    answered2: bool,
    conflict2: bool,
) -> ResumeStep {
    let first = resume_decision(false, transport1, answered1, conflict1);
    if first == ResumeStep::RetryProbe {
        resume_decision(true, transport2, answered2, conflict2)
    } else {
        first
    }
}

/// Escrow conservation: whatever the transport and the answers do, a create
/// request reaches a terminal decision within two resume steps, and that
/// decision is a commit or a refund, exactly one of the two, never both and
/// never neither.
pub proof fn lemma_escrow_conservation(
    transport1: bool,
    answered1: bool,
    conflict1: bool,
    transport2: bool,
    answered2: bool,
    conflict2: bool,
)
    ensures
        protocol_outcome(transport1, answered1, conflict1, transport2, answered2, conflict2)
            != ResumeStep::RetryProbe,
        (protocol_outcome(transport1, answered1, conflict1, transport2, answered2, conflict2)
            == ResumeStep::Commit) <==> (protocol_outcome(
            transport1,
            answered1,
            conflict1,
            transport2,
            answered2,
            conflict2,
        ) != ResumeStep::Refund),
{
}

/// The retry bound: a transport failure on the first attempt decides on
/// exactly one retry, whatever was answered; and once the retried call
/// transports an answer, the request commits regardless of what that answer
/// reports, provided nothing took the slug or account meanwhile.
pub proof fn lemma_retry_bound(answered1: bool, conflict1: bool)
    ensures
        resume_decision(false, false, answered1, conflict1) == ResumeStep::RetryProbe,
        resume_decision(true, true, true, false) == ResumeStep::Commit,
{
}

impl Contract {
    /// Builds the verification call for a pending create request: the probe
    /// addressed to the claimed endpoint, carrying the full pending payload.
    pub fn assert_web4(
        &self,
        contract_id: String,
        app: AppJSON,
        deposit: u128,
        added_by_account_id: String,
        send_request_with_data: bool,
    ) -> (call: VerificationCall)
        requires
            contract_id@ == app.dapp_account_id@,
        ensures
            call_carries(call, app, deposit, added_by_account_id, send_request_with_data),
    {
        let request = if send_request_with_data {
            Web4Request {
                account_id: Some(contract_id),
                path: String::new(),
                params: Some(Vec::new()),
                query: Some(Vec::new()),
                preloads: Some(Vec::new()),
            }
        } else {
            Web4Request {
                account_id: Some(contract_id),
                path: String::new(),
                params: None,
                query: None,
                preloads: None,
            }
        };
        VerificationCall {
            request,
            app,
            deposit,
            added_by_account_id,
            ignore_promise_success: send_request_with_data,
        }
    }

    /// Accepts a create request.  After validation the listing is not yet
    /// visible: the returned verification call must be issued, and the
    /// listing is committed or refunded only when `after_web4_get` resumes
    /// with the call's outcome.
    pub fn add_app(&self, app: AppJSON, predecessor: String, attached_deposit: u128) -> (r: Result<
        VerificationCall,
        RegistryError,
    >)
        ensures
            match r {
                Ok(call) => add_app_error(*self, app, predecessor@, attached_deposit) is None
                    && call_carries(call, app, attached_deposit, predecessor, false),
                Err(e) => Some(e) == add_app_error(*self, app, predecessor@, attached_deposit),
            },
    {
        let lowered = to_lowercase_string(app.slug.as_str());
        if index_lookup(&self.app_id_by_slug, lowered.as_str()).is_some() {
            return Err(RegistryError::ConflictError);
        }
        if index_lookup(&self.app_id_by_dapp_account_id, app.dapp_account_id.as_str()).is_some() {
            return Err(RegistryError::ConflictError);
        }
        if app.title.as_str().unicode_len() > 50 {
            return Err(RegistryError::ValidationError(Field::Title));
        }
        if app.slug.as_str().unicode_len() > 50 {
            return Err(RegistryError::ValidationError(Field::Slug));
        }
        match &app.oneliner {
            Some(s) => {
                if s.as_str().unicode_len() > 200 {
                    return Err(RegistryError::ValidationError(Field::Oneliner));
                }
            }
            None => {}
        }
        match &app.description {
            Some(s) => {
                if s.as_str().unicode_len() > 5000 {
                    return Err(RegistryError::ValidationError(Field::Description));
                }
            }
            None => {}
        }
        if !self.is_guardian(predecessor.as_str()) && attached_deposit < LISTING_FEE {
            return Err(RegistryError::PaymentRequiredError);
        }
        let contract_id = app.dapp_account_id.clone();
        Ok(self.assert_web4(contract_id, app, attached_deposit, predecessor, false))
    }

    /// Resumes a pending create request with the outcome of its verification
    /// call.  A transport failure on the first attempt asks for exactly one
    /// retry; an answer commits the listing unless its slug or account was
    /// taken while the call was in flight; anything else refunds the full
    /// deposit and discards the request.
    #[verifier::rlimit(60)]
    pub fn after_web4_get(
        &mut self,
        response: Result<Web4Response, PromiseError>,
        app: AppJSON,
        deposit: u128,
        added_by_account_id: String,
        ignore_promise_success: bool,
        promise_success: bool,
    ) -> (r: CreateOutcome)
        requires
            old(self).wf(),
            old(self).next_app_id < u64::MAX,
        ensures
            final(self).wf(),
            old(self).counter_consistent() ==> final(self).counter_consistent(),
            ({
                let step = resume_decision(
                    ignore_promise_success,
                    promise_success,
                    response is Ok,
                    commit_conflict(*old(self), app),
                );
                match r {
                    CreateOutcome::Committed { app_id } => {
                        &&& step == ResumeStep::Commit
                        &&& app_id == old(self).next_app_id
                        &&& commit_post(*old(self), *final(self), app, added_by_account_id)
                    },
                    CreateOutcome::RefundedAndDiscarded { account_id, amount } => {
                        &&& step == ResumeStep::Refund
                        &&& account_id == added_by_account_id
                        &&& amount == deposit
                        &&& *final(self) == *old(self)
                    },
                    CreateOutcome::Retry(call) => {
                        &&& step == ResumeStep::RetryProbe
                        &&& *final(self) == *old(self)
                        &&& call_carries(call, app, deposit, added_by_account_id, true)
                    },
                }
            }),
    {
        if !ignore_promise_success && !promise_success {
            let contract_id = app.dapp_account_id.clone();
            return CreateOutcome::Retry(
                self.assert_web4(contract_id, app, deposit, added_by_account_id, true),
            );
        }
        match response {
            Err(_) => CreateOutcome::RefundedAndDiscarded {
                account_id: added_by_account_id,
                amount: deposit,
            },
            Ok(_) => {
                let ghost s0 = *old(self);
                let lowered = to_lowercase_string(app.slug.as_str());
                let slug_taken = match index_lookup(&self.app_id_by_slug, lowered.as_str()) {
                    Some(_) => true,
                    None => false,
                };
                let acct_taken = match index_lookup(
                    &self.app_id_by_dapp_account_id,
                    app.dapp_account_id.as_str(),
                ) {
                    Some(_) => true,
                    None => false,
                };
                if slug_taken || acct_taken {
                    return CreateOutcome::RefundedAndDiscarded {
                        account_id: added_by_account_id,
                        amount: deposit,
                    };
                }
                let app_id = self.next_app_id;
                let ghost id = app_id as int;
                let ids = self.resolve_categories(&app.categories);
                proof {
                    assert forall|k: int| 0 <= k < ids@.len() implies (#[trigger] ids@[k])
                        < self.apps_ids_by_category_id@.len() by {
                        assert(ids@[k] < self.categories@.len());
                    }
                    assert forall|c: int| 0 <= c < self.apps_ids_by_category_id@.len() implies !(
                    #[trigger] self.apps_ids_by_category_id@[c]@).contains(app_id) by {
                        if s0.members_at(c).contains(app_id) {
                            let w = choose|w: int|
                                0 <= w < s0.members_at(c).len() && s0.members_at(c)[w] == app_id;
                            assert(s0.members_at(c)[w] < s0.apps@.len());
                        }
                    }
                    assert forall|c: int| 0 <= c < self.apps_ids_by_category_id@.len() implies
                        crate::distinct_ids(#[trigger] self.apps_ids_by_category_id@[c]@) by {
                        assert(crate::distinct_ids(s0.members_at(c)));
                    }
                }
                install_membership(&mut self.apps_ids_by_category_id, app_id, &ids);
                let ghost mem1 = self.apps_ids_by_category_id@;
                let contracts = dedup_strings(
                    match app.contracts {
                        Some(v) => v,
                        None => Vec::new(),
                    },
                );
                proof {
                    assert(dedup_strs(Seq::<String>::empty()) =~= Seq::<String>::empty());
                }
                let req2 = AppJSON {
                    added_by_account_id: None,
                    dapp_account_id: app.dapp_account_id,
                    slug: lowered,
                    title: app.title,
                    categories: Vec::new(),
                    oneliner: app.oneliner,
                    description: app.description,
                    logo_url: app.logo_url,
                    twitter: app.twitter,
                    facebook: app.facebook,
                    medium: app.medium,
                    telegram: app.telegram,
                    github: app.github,
                    discord: app.discord,
                    symbol: app.symbol,
                    contracts: None,
                    token_address: app.token_address,
                    active: Some(true),
                };
                self.internal_insert_app(app_id, req2, Some(added_by_account_id), ids, contracts);
                self.next_app_id = self.next_app_id + 1;
                proof {
                    let post = *self;
                    let new_rec = post.app_at(id);
                    let es_slug0 = s0.app_id_by_slug@;
                    let es_acct0 = s0.app_id_by_dapp_account_id@;
                    let es_slug1 = post.app_id_by_slug@;
                    let es_acct1 = post.app_id_by_dapp_account_id@;
                    assert(post.apps@ == s0.apps@.push(post.apps@[id]));
                    assert(new_rec.slug@ == lower_of(app.slug@));
                    assert(new_rec.dapp_account_id@ == app.dapp_account_id@);
                    // the disabled count is untouched by an active record
                    assert(count_disabled(post.apps@) == count_disabled(s0.apps@)) by {
                        lemma_count_disabled_push(s0.apps@, post.apps@[id]);
                        assert(!is_disabled(post.apps@[id]));
                    }
                    // membership lists
                    assert forall|c: int| #![trigger post.apps_ids_by_category_id@[c]] 0 <= c
                        < s0.apps_ids_by_category_id@.len() implies post.members_at(c)
                        == if new_rec.categories@.contains(c as CategoryId) {
                        s0.members_at(c).push(id as AppId)
                    } else {
                        s0.members_at(c)
                    } by {
                        assert(post.members_at(c) == mem1[c]@);
                        assert(new_rec.categories@ == ids@);
                        if ids@.contains(c as CategoryId) {
                            assert(mem1[c]@ == s0.members_at(c).push(app_id));
                        } else {
                            assert(mem1[c] == s0.apps_ids_by_category_id@[c]);
                        }
                    }
                    // well-formedness: records
                    assert forall|k: int| 0 <= k < post.apps@.len() implies app_valid(
                        #[trigger] post.app_at(k),
                        post.categories@.len() as int,
                    ) by {
                        if k != id {
                            assert(post.apps@[k] == s0.apps@[k]);
                            assert(app_valid(s0.app_at(k), s0.categories@.len() as int));
                        } else {
                            assert(new_rec.categories@ == ids@);
                        }
                    }
                    // slug index
                    assert(es_slug1 == es_slug0.push((req2.slug, app_id)));
                    lemma_lookup_characterize(es_slug0, lowered@);
                    lemma_distinct_push(es_slug0, (req2.slug, app_id));
                    assert forall|j: int| 0 <= j < es_slug1.len() implies (
                    #[trigger] es_slug1[j]).1 < post.apps@.len() && post.app_at(
                        es_slug1[j].1 as int,
                    ).slug@ == es_slug1[j].0@ by {
                        if j < es_slug0.len() {
                            let t = es_slug0[j].1;
                            assert(t < s0.apps@.len() && s0.app_at(t as int).slug@
                                == es_slug0[j].0@);
                            assert(post.apps@[t as int] == s0.apps@[t as int]);
                        } else {
                            assert(es_slug1[j] == (req2.slug, app_id));
                        }
                    }
                    assert forall|k: int| 0 <= k < post.apps@.len() implies spec_lookup(
                        es_slug1,
                        (#[trigger] post.app_at(k)).slug@,
                    ) == Some(k as AppId) by {
                        lemma_lookup_push(es_slug0, (req2.slug, app_id), post.app_at(k).slug@);
                        if k != id {
                            assert(post.apps@[k] == s0.apps@[k]);
                            assert(spec_lookup(es_slug0, s0.app_at(k).slug@) == Some(k as AppId));
                        } else {
                            assert(spec_lookup(es_slug0, lowered@) is None);
                        }
                    }
                    // account index
                    assert(es_acct1 == es_acct0.push((req2.dapp_account_id, app_id)));
                    lemma_lookup_characterize(es_acct0, app.dapp_account_id@);
                    lemma_distinct_push(es_acct0, (req2.dapp_account_id, app_id));
                    assert forall|j: int| 0 <= j < es_acct1.len() implies (
                    #[trigger] es_acct1[j]).1 < post.apps@.len() && post.app_at(
                        es_acct1[j].1 as int,
                    ).dapp_account_id@ == es_acct1[j].0@ by {
                        if j < es_acct0.len() {
                            let t = es_acct0[j].1;
                            assert(t < s0.apps@.len() && s0.app_at(t as int).dapp_account_id@
                                == es_acct0[j].0@);
                            assert(post.apps@[t as int] == s0.apps@[t as int]);
                        } else {
                            assert(es_acct1[j] == (req2.dapp_account_id, app_id));
                        }
                    }
                    assert forall|k: int| 0 <= k < post.apps@.len() implies spec_lookup(
                        es_acct1,
                        (#[trigger] post.app_at(k)).dapp_account_id@,
                    ) == Some(k as AppId) by {
                        lemma_lookup_push(
                            es_acct0,
                            (req2.dapp_account_id, app_id),
                            post.app_at(k).dapp_account_id@,
                        );
                        if k != id {
                            assert(post.apps@[k] == s0.apps@[k]);
                            assert(spec_lookup(es_acct0, s0.app_at(k).dapp_account_id@) == Some(
                                k as AppId));
                        } else {
                            assert(spec_lookup(es_acct0, app.dapp_account_id@) is None);
                        }
                    }
                    // membership well-formedness
                    assert forall|c: int| 0 <= c < post.apps_ids_by_category_id@.len() implies
                        crate::distinct_ids(#[trigger] post.members_at(c)) && (forall|k: int|
                        0 <= k < post.members_at(c).len() ==> (#[trigger] post.members_at(c)[k])
                            < post.apps@.len() && post.app_at(
                            post.members_at(c)[k] as int,
                        ).categories@.contains(c as CategoryId)) by {
                        assert(post.members_at(c) == mem1[c]@);
                        assert(crate::distinct_ids(mem1[c]@));
                        assert forall|k: int| 0 <= k < post.members_at(c).len() implies (
                        #[trigger] post.members_at(c)[k]) < post.apps@.len() && post.app_at(
                            post.members_at(c)[k] as int,
                        ).categories@.contains(c as CategoryId) by {
                            let x = post.members_at(c)[k];
                            assert(mem1[c]@.contains(x));
                            if ids@.contains(c as CategoryId) {
                                assert(mem1[c]@ == s0.members_at(c).push(app_id));
                                if x != app_id {
                                    let w = choose|w: int|
                                        0 <= w < mem1[c]@.len() && mem1[c]@[w] == x;
                                    assert(w < s0.members_at(c).len());
                                    assert(s0.members_at(c).contains(x));
                                }
                            } else {
                                assert(mem1[c] == s0.apps_ids_by_category_id@[c]);
                                assert(s0.members_at(c).contains(x));
                                assert(x != app_id) by {
                                    let w = choose|w: int|
                                        0 <= w < s0.members_at(c).len() && s0.members_at(c)[w]
                                            == x;
                                    assert(s0.members_at(c)[w] < s0.apps@.len());
                                }
                            }
                            if x == app_id {
                                assert(ids@.contains(c as CategoryId));
                                assert(new_rec.categories@ == ids@);
                            } else {
                                assert(s0.members_at(c).contains(x));
                                let w = choose|w: int|
                                    0 <= w < s0.members_at(c).len() && s0.members_at(c)[w] == x;
                                assert(s0.app_at(x as int).categories@.contains(c as CategoryId));
                                assert(post.apps@[x as int] == s0.apps@[x as int]);
                            }
                        }
                    }
                    // every displayable listing is indexed under its categories
                    assert forall|k: int, m: int|
                        0 <= k < post.apps@.len() && post.app_at(k).active != Some(false) && 0 <= m
                            < post.app_at(k).categories@.len() implies post.members_at(
                        (#[trigger] post.app_at(k).categories@[m]) as int,
                    ).contains(k as AppId) by {
                        let cc = post.app_at(k).categories@[m] as int;
                        if k == id {
                            assert(new_rec.categories@ == ids@);
                            assert(ids@.contains(ids@[m]));
                            assert(mem1[cc]@ == s0.members_at(cc).push(app_id));
                            assert(mem1[cc]@.last() == app_id);
                            assert(mem1[cc]@.contains(app_id));
                        } else {
                            assert(post.apps@[k] == s0.apps@[k]);
                            assert(app_valid(s0.app_at(k), s0.categories@.len() as int));
                            assert(s0.members_at(cc).contains(k as AppId));
                            assert(mem1[cc]@.contains(k as AppId)) by {
                                if ids@.contains(cc as CategoryId) {
                                    assert(mem1[cc]@ == s0.members_at(cc).push(app_id));
                                    let w = choose|w: int|
                                        0 <= w < s0.members_at(cc).len() && s0.members_at(cc)[w]
                                            == k as AppId;
                                    assert(mem1[cc]@[w] == k as AppId);
                                } else {
                                    assert(mem1[cc] == s0.apps_ids_by_category_id@[cc]);
                                }
                            }
                        }
                    }
                }
                CreateOutcome::Committed { app_id }
            }
        }
    }
}

} // verus!
