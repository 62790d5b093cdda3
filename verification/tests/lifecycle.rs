use dapp_registry::Contract;
use dapp_registry::app::AppJSON;
use dapp_registry::errors::{Field, RegistryError};
use dapp_registry::utils::{CreateOutcome, PromiseError, VerificationCall, LISTING_FEE};
use dapp_registry::web4::Web4Response;

const GUARDIAN: &str = "guardian.near";

fn s(x: &str) -> String {
    String::from(x)
}

fn mk_app(slug: &str, dapp: &str, cats: &[&str], added_by: Option<&str>) -> AppJSON {
    AppJSON {
        added_by_account_id: added_by.map(s),
        dapp_account_id: s(dapp),
        slug: s(slug),
        title: s("A Title"),
        categories: cats.iter().map(|c| s(c)).collect(),
        oneliner: Some(s("one line")),
        description: Some(s("a description")),
        logo_url: None,
        twitter: Some(s("handle")),
        facebook: None,
        medium: None,
        telegram: None,
        github: None,
        discord: None,
        symbol: None,
        contracts: Some(vec![s("c1.near"), s("c1.near"), s("c2.near")]),
        token_address: None,
        active: None,
    }
}

fn registry_with_categories(n: u64) -> Contract {
    let mut c = Contract::new(s(GUARDIAN));
    for i in 0..n {
        let slug = format!("cat-{}", i);
        let title = format!("Category {}", i);
        c.add_category(title, slug, &s(GUARDIAN)).unwrap();
    }
    c
}

fn commit(c: &mut Contract, call: VerificationCall) -> CreateOutcome {
    c.after_web4_get(
        Ok(Web4Response::status(200)),
        call.app,
        call.deposit,
        call.added_by_account_id,
        call.ignore_promise_success,
        true,
    )
}

#[test]
fn scenario_commit_on_answer() {
    let mut c = registry_with_categories(2);
    let app = mk_app("foo", "e.near", &["1"], None);
    let before = c.get_category_apps_count(1).unwrap();
    let call = c.add_app(app, s("alice.near"), LISTING_FEE).unwrap();
    assert!(!call.ignore_promise_success);
    // nothing is visible while the verification call is in flight
    assert!(matches!(
        c.get_app_by_slug(s("foo")),
        Err(RegistryError::NotFoundError)
    ));
    match commit(&mut c, call) {
        CreateOutcome::Committed { app_id } => {
            assert_eq!(app_id, 0);
            let j = c.get_app_by_slug(s("foo")).unwrap();
            assert_eq!(j.dapp_account_id, "e.near");
            assert_eq!(j.added_by_account_id.as_deref(), Some("alice.near"));
            assert_eq!(j.categories, vec![s("1")]);
            assert_eq!(j.active, Some(true));
            // duplicated contract accounts are stored once
            assert_eq!(j.contracts.unwrap(), vec![s("c1.near"), s("c2.near")]);
        }
        _ => panic!("expected a commit"),
    }
    assert_eq!(c.get_category_apps_count(1).unwrap(), before + 1);
    assert_eq!(c.get_category_apps_count(0).unwrap(), 0);
    let by_account = c.get_app_by_account_id(s("e.near")).unwrap();
    assert_eq!(by_account.slug, "foo");
}

#[test]
fn scenario_refund_on_failure_answer() {
    let mut c = registry_with_categories(2);
    let app = mk_app("foo", "e.near", &["1"], None);
    let call = c.add_app(app, s("alice.near"), LISTING_FEE).unwrap();
    let outcome = c.after_web4_get(
        Err(PromiseError::Failed),
        call.app,
        call.deposit,
        call.added_by_account_id,
        call.ignore_promise_success,
        true,
    );
    match outcome {
        CreateOutcome::RefundedAndDiscarded { account_id, amount } => {
            assert_eq!(account_id, "alice.near");
            assert_eq!(amount, LISTING_FEE);
        }
        _ => panic!("expected a refund"),
    }
    assert!(matches!(
        c.get_app_by_slug(s("foo")),
        Err(RegistryError::NotFoundError)
    ));
    assert_eq!(c.get_category_apps_count(1).unwrap(), 0);
}

#[test]
fn scenario_retry_commits_on_transport_completion() {
    let mut c = registry_with_categories(1);
    let app = mk_app("foo", "e.near", &["0"], None);
    let call = c.add_app(app, s("alice.near"), LISTING_FEE).unwrap();
    // the transport itself fails: exactly one retry, carrying the payload
    let outcome = c.after_web4_get(
        Err(PromiseError::Failed),
        call.app,
        call.deposit,
        call.added_by_account_id,
        call.ignore_promise_success,
        false,
    );
    let retry = match outcome {
        CreateOutcome::Retry(r) => r,
        _ => panic!("expected a retry"),
    };
    assert!(retry.ignore_promise_success);
    assert!(retry.request.params.as_ref().is_some_and(|v| v.is_empty()));
    assert!(retry.request.query.as_ref().is_some_and(|v| v.is_empty()));
    assert!(retry.request.preloads.as_ref().is_some_and(|v| v.is_empty()));
    // on the retry the answer's content no longer matters
    let outcome = c.after_web4_get(
        Ok(Web4Response::status(500)),
        retry.app,
        retry.deposit,
        retry.added_by_account_id,
        retry.ignore_promise_success,
        true,
    );
    assert!(matches!(outcome, CreateOutcome::Committed { app_id: 0 }));
    assert!(c.get_app_by_slug(s("foo")).is_ok());
}

#[test]
fn scenario_owner_update_needs_fee() {
    let mut c = registry_with_categories(1);
    let app = mk_app("foo", "e.near", &[], None);
    let call = c.add_app(app, s("alice.near"), LISTING_FEE).unwrap();
    commit(&mut c, call);
    let update = mk_app("foo", "e.near", &[], Some("alice.near"));
    let r = c.update_app(0, update, &s("alice.near"), 0);
    assert!(matches!(r, Err(RegistryError::PaymentRequiredError)));
    let j = c.get_app(0).unwrap();
    assert_eq!(j.title, "A Title");
}

#[test]
fn scenario_disable_clears_membership_and_is_idempotent() {
    let mut c = registry_with_categories(3);
    let app = mk_app("foo", "e.near", &["2"], None);
    let call = c.add_app(app, s("alice.near"), LISTING_FEE).unwrap();
    commit(&mut c, call);
    assert_eq!(c.get_category_apps_count(2).unwrap(), 1);
    c.disable_app(0, &s(GUARDIAN)).unwrap();
    assert_eq!(c.get_category_apps_count(2).unwrap(), 0);
    assert_eq!(c.get_app(0).unwrap().active, Some(false));
    assert_eq!(c.disabled_apps, 1);
    // a second disable is a no-op on the counter and the memberships
    c.disable_app(0, &s(GUARDIAN)).unwrap();
    assert_eq!(c.disabled_apps, 1);
    assert_eq!(c.get_category_apps_count(2).unwrap(), 0);
}

#[test]
fn add_app_validation_errors() {
    let c = registry_with_categories(1);
    let long = "x".repeat(51);
    let mut app = mk_app("foo", "e.near", &[], None);
    app.title = long.clone();
    assert!(matches!(
        c.add_app(app, s("alice.near"), LISTING_FEE),
        Err(RegistryError::ValidationError(Field::Title))
    ));
    let mut app = mk_app(&long, "e.near", &[], None);
    app.title = s("t");
    assert!(matches!(
        c.add_app(app, s("alice.near"), LISTING_FEE),
        Err(RegistryError::ValidationError(Field::Slug))
    ));
    let mut app = mk_app("foo", "e.near", &[], None);
    app.oneliner = Some("y".repeat(201));
    assert!(matches!(
        c.add_app(app, s("alice.near"), LISTING_FEE),
        Err(RegistryError::ValidationError(Field::Oneliner))
    ));
    let mut app = mk_app("foo", "e.near", &[], None);
    app.description = Some("z".repeat(5001));
    assert!(matches!(
        c.add_app(app, s("alice.near"), LISTING_FEE),
        Err(RegistryError::ValidationError(Field::Description))
    ));
    // the fee is owed by anyone who is not a guardian, and only by them
    let app = mk_app("foo", "e.near", &[], None);
    assert!(matches!(
        c.add_app(app, s("alice.near"), LISTING_FEE - 1),
        Err(RegistryError::PaymentRequiredError)
    ));
    let app = mk_app("foo", "e.near", &[], None);
    assert!(c.add_app(app, s(GUARDIAN), 0).is_ok());
}

#[test]
fn add_app_conflicts() {
    let mut c = registry_with_categories(1);
    let call = c
        .add_app(mk_app("foo", "e.near", &[], None), s("alice.near"), LISTING_FEE)
        .unwrap();
    commit(&mut c, call);
    assert!(matches!(
        c.add_app(mk_app("foo", "other.near", &[], None), s("bob.near"), LISTING_FEE),
        Err(RegistryError::ConflictError)
    ));
    assert!(matches!(
        c.add_app(mk_app("bar", "e.near", &[], None), s("bob.near"), LISTING_FEE),
        Err(RegistryError::ConflictError)
    ));
}

#[test]
fn commit_rechecks_uniqueness() {
    // two creates race on one slug: the first commit wins, the second create
    // is refunded when it resumes
    let mut c = registry_with_categories(1);
    let call_a = c
        .add_app(mk_app("foo", "a.near", &[], None), s("alice.near"), LISTING_FEE)
        .unwrap();
    let call_b = c
        .add_app(mk_app("foo", "b.near", &[], None), s("bob.near"), LISTING_FEE)
        .unwrap();
    assert!(matches!(commit(&mut c, call_a), CreateOutcome::Committed { .. }));
    match commit(&mut c, call_b) {
        CreateOutcome::RefundedAndDiscarded { account_id, amount } => {
            assert_eq!(account_id, "bob.near");
            assert_eq!(amount, LISTING_FEE);
        }
        _ => panic!("the racing create must be refunded"),
    }
    assert_eq!(c.get_app_by_slug(s("foo")).unwrap().dapp_account_id, "a.near");
}

#[test]
fn slug_is_stored_lowercased() {
    let mut c = registry_with_categories(1);
    let call = c
        .add_app(mk_app("FooBar", "e.near", &[], None), s("alice.near"), LISTING_FEE)
        .unwrap();
    commit(&mut c, call);
    let j = c.get_app_by_slug(s("foobar")).unwrap();
    assert_eq!(j.slug, "foobar");
}

#[test]
fn unknown_categories_are_dropped() {
    let mut c = registry_with_categories(2);
    let call = c
        .add_app(
            mk_app("foo", "e.near", &["1", "bogus", "1", "99"], None),
            s("alice.near"),
            LISTING_FEE,
        )
        .unwrap();
    commit(&mut c, call);
    let j = c.get_app(0).unwrap();
    assert_eq!(j.categories, vec![s("1")]);
    assert_eq!(c.get_category_apps_count(1).unwrap(), 1);
    assert_eq!(c.get_category_apps_count(0).unwrap(), 0);
    assert!(matches!(
        c.get_category_apps_count(99),
        Err(RegistryError::NotFoundError)
    ));
}

#[test]
fn update_rules() {
    let mut c = registry_with_categories(2);
    let call = c
        .add_app(mk_app("foo", "e.near", &["0"], None), s("alice.near"), LISTING_FEE)
        .unwrap();
    commit(&mut c, call);
    // a stranger may not edit
    let r = c.update_app(0, mk_app("foo", "e.near", &[], None), &s("mallory.near"), LISTING_FEE);
    assert!(matches!(r, Err(RegistryError::AccessDeniedError)));
    // an unknown listing is not found
    let r = c.update_app(
        7,
        mk_app("foo", "e.near", &[], Some("alice.near")),
        &s("alice.near"),
        LISTING_FEE,
    );
    assert!(matches!(r, Err(RegistryError::NotFoundError)));
    // the application account is immutable
    let r = c.update_app(
        0,
        mk_app("foo", "other.near", &[], Some("alice.near")),
        &s("alice.near"),
        LISTING_FEE,
    );
    assert!(matches!(r, Err(RegistryError::ImmutableFieldError)));
    // the owner rewrites fields and the membership follows the request
    let mut upd = mk_app("foo", "e.near", &["1"], Some("alice.near"));
    upd.title = s("New Title");
    c.update_app(0, upd, &s("alice.near"), LISTING_FEE).unwrap();
    let j = c.get_app(0).unwrap();
    assert_eq!(j.title, "New Title");
    assert_eq!(c.get_category_apps_count(0).unwrap(), 0);
    assert_eq!(c.get_category_apps_count(1).unwrap(), 1);
}

#[test]
fn update_access_is_decided_by_the_recorded_owner() {
    let mut c = registry_with_categories(1);
    let call = c
        .add_app(mk_app("foo", "e.near", &[], None), s("alice.near"), LISTING_FEE)
        .unwrap();
    commit(&mut c, call);
    // naming oneself in the request's owner field grants nothing
    let takeover = mk_app("foo", "e.near", &[], Some("mallory.near"));
    let r = c.update_app(0, takeover, &s("mallory.near"), LISTING_FEE);
    assert!(matches!(r, Err(RegistryError::AccessDeniedError)));
    assert_eq!(c.get_app(0).unwrap().added_by_account_id.as_deref(), Some("alice.near"));
    // the recorded owner may edit even when the request omits the field,
    // and then stays the owner of record
    let mut upd = mk_app("foo", "e.near", &[], None);
    upd.title = s("Mine Still");
    c.update_app(0, upd, &s("alice.near"), LISTING_FEE).unwrap();
    let j = c.get_app(0).unwrap();
    assert_eq!(j.title, "Mine Still");
    assert_eq!(j.added_by_account_id.as_deref(), Some("alice.near"));
    // a guardian may hand the listing to a new owner via the field
    let upd = mk_app("foo", "e.near", &[], Some("bob.near"));
    c.update_app(0, upd, &s(GUARDIAN), 0).unwrap();
    assert_eq!(c.get_app(0).unwrap().added_by_account_id.as_deref(), Some("bob.near"));
}

#[test]
fn add_app_rejects_a_taken_slug_in_any_spelling() {
    let mut c = registry_with_categories(1);
    let call = c
        .add_app(mk_app("foo", "a.near", &[], None), s("alice.near"), LISTING_FEE)
        .unwrap();
    commit(&mut c, call);
    // the clash is found before any escrow is taken, whatever the case
    assert!(matches!(
        c.add_app(mk_app("FOO", "b.near", &[], None), s("bob.near"), LISTING_FEE),
        Err(RegistryError::ConflictError)
    ));
}

#[test]
fn update_slug_conflict_is_rejected() {
    let mut c = registry_with_categories(1);
    let call = c
        .add_app(mk_app("foo", "a.near", &[], None), s("alice.near"), LISTING_FEE)
        .unwrap();
    commit(&mut c, call);
    let call = c
        .add_app(mk_app("bar", "b.near", &[], None), s("bob.near"), LISTING_FEE)
        .unwrap();
    commit(&mut c, call);
    // bob cannot take alice's slug, not even with a different spelling
    let r = c.update_app(
        1,
        mk_app("FOO", "b.near", &[], Some("bob.near")),
        &s("bob.near"),
        LISTING_FEE,
    );
    assert!(matches!(r, Err(RegistryError::ConflictError)));
    // renaming to a fresh slug re-indexes the listing
    c.update_app(1, mk_app("baz", "b.near", &[], Some("bob.near")), &s("bob.near"), LISTING_FEE)
        .unwrap();
    assert!(c.get_app_by_slug(s("baz")).is_ok());
    assert!(matches!(c.get_app_by_slug(s("bar")), Err(RegistryError::NotFoundError)));
}

#[test]
fn owner_update_preserves_disabled_state() {
    let mut c = registry_with_categories(1);
    let call = c
        .add_app(mk_app("foo", "e.near", &[], None), s("alice.near"), LISTING_FEE)
        .unwrap();
    commit(&mut c, call);
    c.disable_app(0, &s(GUARDIAN)).unwrap();
    assert_eq!(c.disabled_apps, 1);
    // the owner's edit keeps the listing hidden and the counter in step
    let mut upd = mk_app("foo", "e.near", &[], Some("alice.near"));
    upd.active = Some(true);
    c.update_app(0, upd, &s("alice.near"), LISTING_FEE).unwrap();
    assert_eq!(c.get_app(0).unwrap().active, Some(false));
    assert_eq!(c.disabled_apps, 1);
    // only a guardian's update brings it back
    let mut upd = mk_app("foo", "e.near", &[], Some("alice.near"));
    upd.active = Some(true);
    c.update_app(0, upd, &s(GUARDIAN), 0).unwrap();
    assert_eq!(c.get_app(0).unwrap().active, Some(true));
    assert_eq!(c.disabled_apps, 0);
}

#[test]
fn guardian_management() {
    let mut c = Contract::new(s(GUARDIAN));
    assert!(matches!(
        c.add_guardian(s("second.near"), &s("mallory.near")),
        Err(RegistryError::AccessDeniedError)
    ));
    // the last guardian cannot be removed
    assert!(matches!(
        c.remove_guardian(s(GUARDIAN), &s(GUARDIAN)),
        Err(RegistryError::ValidationError(Field::Guardians))
    ));
    c.add_guardian(s("second.near"), &s(GUARDIAN)).unwrap();
    c.add_guardian(s("second.near"), &s(GUARDIAN)).unwrap();
    assert_eq!(c.get_guardians().len(), 2);
    c.remove_guardian(s(GUARDIAN), &s("second.near")).unwrap();
    assert_eq!(c.get_guardians(), vec![s("second.near")]);
    assert!(matches!(
        c.set_disabled_apps_number(5, &s(GUARDIAN)),
        Err(RegistryError::AccessDeniedError)
    ));
    c.set_disabled_apps_number(5, &s("second.near")).unwrap();
    assert_eq!(c.disabled_apps, 5);
}

#[test]
fn category_conflicts() {
    let mut c = Contract::new(s(GUARDIAN));
    c.add_category(s("Games"), s("games"), &s(GUARDIAN)).unwrap();
    assert!(matches!(
        c.add_category(s("Other"), s("games"), &s(GUARDIAN)),
        Err(RegistryError::ConflictError)
    ));
    assert!(matches!(
        c.add_category(s("Games"), s("other"), &s(GUARDIAN)),
        Err(RegistryError::ConflictError)
    ));
    assert!(matches!(
        c.add_category(s("DeFi"), s("defi"), &s("mallory.near")),
        Err(RegistryError::AccessDeniedError)
    ));
    c.add_category(s("DeFi"), s("defi"), &s(GUARDIAN)).unwrap();
    let cats = c.get_categories(None, None);
    assert_eq!(cats.len(), 2);
    assert_eq!(cats[0].0, 0);
    assert_eq!(cats[0].1.slug, "games");
    assert_eq!(cats[1].1.title, "DeFi");
}

#[test]
fn pagination_is_stable_and_total() {
    let mut c = registry_with_categories(1);
    for (i, slug) in ["a", "b", "c"].iter().enumerate() {
        let dapp = format!("{}.near", slug);
        let call = c
            .add_app(mk_app(slug, &dapp, &[], None), s("alice.near"), LISTING_FEE)
            .unwrap();
        match commit(&mut c, call) {
            CreateOutcome::Committed { app_id } => assert_eq!(app_id, i as u64),
            _ => panic!("expected a commit"),
        }
    }
    let all = c.get_apps(None, None);
    assert_eq!(all.len(), 3);
    assert_eq!(all[0].1.slug, "a");
    let page = c.get_apps(Some(1), Some(1));
    assert_eq!(page.len(), 1);
    assert_eq!(page[0].0, 1);
    assert_eq!(page[0].1.slug, "b");
    // asking past the end yields an empty page, never an error
    assert!(c.get_apps(Some(10), Some(5)).is_empty());
    assert!(c.get_apps(Some(2), None).len() == 1);
    assert!(c.get_apps(None, Some(u64::MAX)).len() == 3);
}

#[test]
fn disabled_count_tracks_records() {
    let mut c = registry_with_categories(1);
    for slug in ["a", "b"] {
        let dapp = format!("{}.near", slug);
        let call = c
            .add_app(mk_app(slug, &dapp, &[], None), s("alice.near"), LISTING_FEE)
            .unwrap();
        commit(&mut c, call);
    }
    assert_eq!(c.disabled_apps, 0);
    c.disable_app(0, &s(GUARDIAN)).unwrap();
    c.disable_app(1, &s(GUARDIAN)).unwrap();
    assert_eq!(c.disabled_apps, 2);
    // a guardian update that re-activates one listing moves the counter down
    let mut upd = mk_app("a", "a.near", &[], Some("alice.near"));
    upd.active = Some(true);
    c.update_app(0, upd, &s(GUARDIAN), 0).unwrap();
    assert_eq!(c.disabled_apps, 1);
}

#[test]
fn retry_transport_failure_refunds() {
    // the retry path is terminal: if even the retried call fails to
    // transport-complete, the deposit comes back and nothing is created
    let mut c = registry_with_categories(1);
    let call = c
        .add_app(mk_app("foo", "e.near", &[], None), s("alice.near"), LISTING_FEE)
        .unwrap();
    let retry = match c.after_web4_get(
        Err(PromiseError::Failed),
        call.app,
        call.deposit,
        call.added_by_account_id,
        call.ignore_promise_success,
        false,
    ) {
        CreateOutcome::Retry(r) => r,
        _ => panic!("expected a retry"),
    };
    let outcome = c.after_web4_get(
        Err(PromiseError::Failed),
        retry.app,
        retry.deposit,
        retry.added_by_account_id,
        retry.ignore_promise_success,
        false,
    );
    match outcome {
        CreateOutcome::RefundedAndDiscarded { amount, .. } => assert_eq!(amount, LISTING_FEE),
        _ => panic!("expected a refund"),
    }
    assert!(matches!(c.get_app_by_slug(s("foo")), Err(RegistryError::NotFoundError)));
}
