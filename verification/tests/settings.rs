use tetanus::render::fault::said;
use tetanus::rpc::{ErrorCode, RpcError};
use tetanus::settings::{
    adapter, default_model, document, fail, misconfigured, missing_document, place, provider_named,
    providers, refused_boot, report, root, status_line, turn_overrides, turn_settings,
    AdapterChoice, Descriptor, Setting, SettingKey, Settled, TurnFlags, PROVIDER,
};

fn flags() -> TurnFlags {
    TurnFlags { adapter: None, model: None, max_steps: None, session: None }
}

fn settled() -> Settled {
    Settled {
        default_provider: "mock".to_string(),
        provider_written: false,
        default_model: "deepseek-v4".to_string(),
        model_written: false,
        max_steps: 8,
        journal: "/srv/j/s1.jsonl".to_string(),
    }
}

fn registered(keyed: bool) -> Vec<Descriptor> {
    providers(
        "mock-echo-1".to_string(),
        vec!["deepseek-chat".to_string(), "deepseek-reasoner".to_string()],
        "DEEPSEEK_API_KEY".to_string(),
        keyed,
    )
}

#[test]
fn only_the_flags_somebody_passed_override_anything() {
    assert!(turn_overrides(&flags()).is_empty());
    let all = TurnFlags {
        adapter: Some(AdapterChoice::Deepseek),
        model: Some("m".to_string()),
        max_steps: Some(3),
        session: Some("s".to_string()),
    };
    let set = turn_overrides(&all);
    assert_eq!(set.len(), 3);
    assert_eq!(set[0].key, SettingKey::Provider);
    assert!(matches!(&set[0].value, Setting::Text(route) if route == "deepseek"));
    assert_eq!(set[1].key, SettingKey::Model);
    assert!(matches!(set[2].value, Setting::Number(3)));
    assert!(root(None).is_empty());
    assert_eq!(root(Some("/srv".to_string()))[0].key, SettingKey::SessionsRoot);
}

#[test]
fn nobodys_opinion_leaves_the_commands_own_provider() {
    let turn = turn_settings(flags(), settled(), AdapterChoice::Deepseek).expect("settled");
    assert_eq!(turn.provider, AdapterChoice::Deepseek);
    assert_eq!(turn.model, None);
    assert_eq!(turn.max_steps, 8);
    assert_eq!(turn.journal, "/srv/j/s1.jsonl");

    let written = Settled { provider_written: true, model_written: true, ..settled() };
    let named = TurnFlags { session: Some("here.jsonl".to_string()), ..flags() };
    let turn = turn_settings(named, written, AdapterChoice::Deepseek).expect("settled");
    assert_eq!(turn.provider, AdapterChoice::Mock);
    assert_eq!(turn.model.as_deref(), Some("deepseek-v4"));
    assert_eq!(turn.journal, "here.jsonl");
}

#[test]
fn a_provider_nobody_built_is_the_documents_to_fix() {
    assert_eq!(provider_named("mock").expect("known"), AdapterChoice::Mock);
    assert_eq!(provider_named("deepseek").expect("known"), AdapterChoice::Deepseek);
    let error = provider_named("grok \"3\"").expect_err("unknown");
    let told = misconfigured("/etc/s.yaml", &said(&error).0, &error);
    assert_eq!(told.status, 2);
    assert!(told.message.contains(PROVIDER), "{told:?}");
    assert!(told.message.contains(r#"not "grok \"3\"""#), "{told:?}");
    assert_eq!(told.note.as_deref(), Some("/etc/s.yaml is the document that sets it"));
}

#[test]
fn a_refused_value_is_reported_to_whoever_set_it() {
    let error = RpcError::about(ErrorCode::InvalidParams, "too small", "field", "max_steps");
    let tamed = said(&error).0;
    let by_flag = refused_boot("/etc/s.yaml", &vec!["max_steps".to_string()], &tamed, &error);
    let by_document = refused_boot("/etc/s.yaml", &vec!["model".to_string()], &tamed, &error);
    assert_eq!(by_document.note.as_deref(), Some("/etc/s.yaml is the document that sets it"));
    assert_eq!(by_flag.message, by_document.message);
    assert_ne!(by_flag.note, by_document.note);
    assert_eq!(by_flag.note, fail(&error).note);
}

#[test]
fn a_document_already_named_is_not_named_again() {
    let error = RpcError::about(ErrorCode::Io, "denied", "path", "/etc/s.yaml");
    let told = misconfigured("/etc/s.yaml", &said(&error).0, &error);
    assert!(told.message.contains("/etc/s.yaml"), "{told:?}");
    assert_eq!(told.note, None);

    // What the reader sees is what counts: a path the terminal would not draw
    // as it is spelled has not been named.
    let wild = "/etc/\u{1b}[2Js.yaml";
    let error = RpcError::about(ErrorCode::Io, "denied", "path", wild);
    assert_eq!(misconfigured(wild, &said(&error).0, &error).note, None);
    let told = misconfigured(wild, "/etc/s.yaml: denied", &error);
    assert_eq!(told.message, "/etc/s.yaml: denied");
    assert_eq!(told.note, Some(format!("{wild} is the document that sets it")));
    assert_eq!(report("it broke").status, 1);
}

#[test]
fn the_mock_needs_no_credential_and_the_other_does() {
    let all = registered(false);
    assert_eq!(
        adapter(AdapterChoice::Mock, None, "DEEPSEEK_API_KEY", false, &all).expect("the mock"),
        "mock-echo-1"
    );
    let missing = adapter(AdapterChoice::Deepseek, None, "DEEPSEEK_API_KEY", false, &all)
        .expect_err("no credential");
    assert_eq!(missing.kind(), Some(ErrorCode::MissingCredential));
    assert_eq!(missing.field("env").as_deref(), Some("DEEPSEEK_API_KEY"));
    assert_eq!(missing.field("provider").as_deref(), Some("deepseek"));
    assert_eq!(
        adapter(AdapterChoice::Deepseek, None, "DEEPSEEK_API_KEY", true, &registered(true))
            .expect("a model"),
        "deepseek-chat"
    );
    let named = Some("own".to_string());
    assert_eq!(
        adapter(AdapterChoice::Deepseek, named, "K", true, &all).expect("a model"),
        "own"
    );
    assert_eq!(default_model(&Vec::new(), AdapterChoice::Mock), None);
    assert!(adapter(AdapterChoice::Mock, None, "K", true, &Vec::new()).is_err());
}

#[test]
fn the_routes_are_spelled_as_the_flag_spells_them() {
    assert_eq!(AdapterChoice::Mock.route(), "mock");
    assert_eq!(AdapterChoice::Deepseek.route(), "deepseek");
}

#[test]
fn a_document_nobody_named_may_be_absent() {
    let usual = || "/home/u/.tetanus/settings.yaml".to_string();
    assert_eq!(document(None, false, usual()).expect("the usual"), usual());
    let named = || Some("mine.yaml".to_string());
    assert_eq!(document(named(), true, usual()).expect("mine"), "mine.yaml");
    let gone = document(named(), false, usual()).expect_err("not there");
    assert_eq!(gone.message, "no settings document at mine.yaml");
    assert_eq!(gone.message, missing_document("mine.yaml").message);
    assert_eq!(place("mine.yaml", true), "mine.yaml");
    assert_eq!(place("mine.yaml", false), "mine.yaml (not there yet)");
}

#[test]
fn a_screen_never_has_two_spinners() {
    assert!(!status_line(true, true));
    assert!(status_line(false, true));
    assert!(status_line(true, false));
    assert!(status_line(false, false));
}
