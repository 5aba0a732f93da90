use temper_server::adapter::{
    adapter_not_found, adapter_redactions, admit_mint, callback_failure, choose_adapter,
    credential_expiry, credential_prefix, credential_resource_attrs,
    derive_adapter_credential_plaintext, dispatch_single_adapter_integration, execute_adapter_with_budget, find_triggered,
    handle_adapter_failure, mint_verdict, redact_adapter_json, redact_adapter_text, revoke_step,
    AdapterError, AdapterIntegration, AdapterResult, AdapterRun, AdapterStep, IssueReply,
    RevokeReply, RevokeStep, ADAPTER_CREDENTIAL_REVOKE_ATTEMPTS,
};
use temper_server::json::Json;
use temper_server::time::Timestamp;

fn text(s: &str) -> String {
    s.to_string()
}

#[test]
fn no_secret_survives_redaction() {
    let redactions = adapter_redactions(&vec![text("hunter2"), text("hunter22"), text("")], Some("tmpr_k"));
    let shown = redact_adapter_text("x hunter22 hunter2 tmpr_k y", &redactions);
    assert!(!shown.contains("hunter2"));
    assert!(!shown.contains("tmpr_k"));
    assert!(shown.starts_with("x ") && shown.ends_with(" y"));
    let value = Json::Object(vec![(
        text("a hunter2"),
        Json::Array(vec![Json::Text(text("hunter2")), Json::Null]),
    )]);
    let shown = redact_adapter_json(&value, &redactions);
    assert!(!format!("{shown:?}").contains("hunter2"));
}

fn result(success: bool) -> AdapterResult {
    AdapterResult {
        success,
        callback_action: Some(text("Report")),
        callback_params: Json::Object(vec![(text("k"), Json::Text(text("hunter2")))]),
        error: None,
        duration_ms: 7,
    }
}

#[test]
fn what_an_adapter_says_is_redacted() {
    let secrets = vec![text("hunter2")];
    let done =
        execute_adapter_with_budget(AdapterRun::Finished(Ok(result(true))), &secrets, None)
            .unwrap();
    assert_ne!(done.callback_params.get_text("k"), Some("hunter2"));
    let failed = execute_adapter_with_budget(
        AdapterRun::Finished(Err(AdapterError::Parse(text("bad hunter2")))),
        &secrets,
        None,
    );
    match failed {
        Err(AdapterError::Parse(e)) => assert!(!e.contains("hunter2")),
        other => panic!("{other:?}"),
    }
    assert!(execute_adapter_with_budget(AdapterRun::TimedOut, &secrets, None).is_err());
    assert!(execute_adapter_with_budget(AdapterRun::Panicked, &secrets, None).is_err());
}

fn integration() -> AdapterIntegration {
    AdapterIntegration {
        name: text("run"),
        is_adapter: true,
        trigger: text("Start"),
        adapter: Some(text("shell")),
        adapter_type: None,
        on_success: None,
        on_failure: Some(text("Fail")),
    }
}

#[test]
fn an_effect_triggers_its_adapter() {
    let mut other = integration();
    other.is_adapter = false;
    assert_eq!(find_triggered(&vec![other, integration()], "Start"), Some(1));
    assert_eq!(find_triggered(&vec![integration()], "Stop"), None);
    let fields = Json::Object(vec![(text("adapter_type"), Json::Text(text("  own ")))]);
    assert_eq!(choose_adapter(&fields, &integration()), Ok(text("own")));
    assert_eq!(choose_adapter(&Json::Null, &integration()), Ok(text("shell")));
    let mut bare = integration();
    bare.adapter = None;
    assert_eq!(
        choose_adapter(&Json::Null, &bare),
        Err(text("adapter integration 'run' is missing required config key 'adapter'"))
    );
}

#[test]
fn results_lead_to_callbacks() {
    match dispatch_single_adapter_integration(&integration(), Ok(result(true))) {
        AdapterStep::Callback { action, .. } => assert_eq!(action, "Report"),
        other => panic!("{other:?}"),
    }
    match dispatch_single_adapter_integration(&integration(), Err(text("boom"))) {
        AdapterStep::Callback { action, .. } => assert_eq!(action, "Fail"),
        other => panic!("{other:?}"),
    }
    let mut bare = integration();
    bare.on_failure = None;
    assert_eq!(handle_adapter_failure(&bare, "boom", 0), AdapterStep::Fail(text("boom")));
    let mut silent = result(true);
    silent.callback_action = None;
    assert_eq!(
        dispatch_single_adapter_integration(&integration(), Ok(silent)),
        AdapterStep::Nothing
    );
}

#[test]
fn credentials_are_minted_and_revoked() {
    let key = derive_adapter_credential_plaintext(&vec![1; 16], &vec![2; 16]);
    assert!(key.starts_with("tmpr_"));
    assert_eq!(key.len(), 5 + 64);
    assert_ne!(key, derive_adapter_credential_plaintext(&vec![2; 16], &vec![1; 16]));
    assert_eq!(credential_prefix(&key), key[..9]);
    assert_eq!(admit_mint(true, true, &Ok(())), Ok(()));
    assert_eq!(
        admit_mint(true, true, &Err(text("no"))),
        Err(text("adapter credential delegation denied: no"))
    );
    assert_eq!(
        admit_mint(true, false, &Ok(())),
        Err(text("adapter credential mint requires an explicit security context"))
    );
    assert_eq!(admit_mint(false, false, &Ok(())), Err(text("adapter credential expiry overflowed")));
    assert_eq!(
        credential_resource_attrs("t", "i", "h", "e").get_text("id"),
        Some("h")
    );
    assert_eq!(mint_verdict(&IssueReply::Issued), Ok(()));
    assert_eq!(
        mint_verdict(&IssueReply::Refused(None)),
        Err(text("failed to mint required adapter credential: Issue action was rejected"))
    );
    let again = revoke_step(&RevokeReply::Failed(text("down")), 1);
    assert_eq!(again, RevokeStep::Again);
    assert!(matches!(
        revoke_step(&RevokeReply::Failed(text("down")), ADAPTER_CREDENTIAL_REVOKE_ATTEMPTS),
        RevokeStep::GiveUp(_)
    ));
    assert_eq!(
        revoke_step(
            &RevokeReply::Answered { success: true, status: text("Revoked"), error: None },
            1
        ),
        RevokeStep::Done
    );
    assert_eq!(adapter_not_found("x"), "adapter 'x' not found in registry");
    assert_eq!(callback_failure("Go", "e"), "failed to dispatch adapter callback 'Go': e");
}

#[test]
fn a_credential_expires_after_an_hour_and_a_minute() {
    assert_eq!(
        credential_expiry(Timestamp { secs: 0, nanos: 0 }),
        Some("1970-01-01T01:01:00+00:00".to_string())
    );
    assert_eq!(credential_expiry(Timestamp { secs: i64::MAX, nanos: 0 }), None);
}
