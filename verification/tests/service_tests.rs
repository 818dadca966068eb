use trello_assistant::config::{Config, ConfigError, EnvVars};
use trello_assistant::models::{ProviderStatus, TrelloCard};
use trello_assistant::numbers::{fmt_padded, parse_bounded};
use trello_assistant::providers::create_providers;
use trello_assistant::reply::json_reply_texts;
use trello_assistant::settings::{registered_status, update_of_request, webhook_status_of, UpdateWebhookRequest};
use trello_assistant::startup::{
    first_https_url, model_listed, reply_or_notice, startup_begin, startup_step, Startup, StartupAction,
    StartupEvent,
};
use trello_assistant::status::{health_response, provider_label};
use trello_assistant::webhook::{
    card_from_webhook, fill_list_name, plan_registration, plan_webhook_event, webhook_callback,
    webhook_update_params, RegistrationPlan, TrelloAction, TrelloActionData, TrelloWebhook,
    TrelloWebhookCard, TrelloWebhookList, TrelloWebhookPayload, TrelloWebhookUpdate, WebhookAction,
    WebhookInfo,
};

fn vars() -> EnvVars {
    EnvVars {
        api_trello_key: Some("k".to_string()),
        trello_token: Some("t".to_string()),
        trello_board_id: Some("b".to_string()),
        ai_base_url: Some("http://ai".to_string()),
        ai_api_key: Some("sk-test".to_string()),
        ai_model: None,
        redis_url: None,
        cache_ttl_seconds: None,
        webhook_url: None,
        server_host: None,
        server_port: None,
    }
}

fn wcard(id: &str) -> TrelloWebhookCard {
    TrelloWebhookCard {
        id: id.to_string(),
        name: Some("New".to_string()),
        desc: None,
        short_url: Some("https://trello.com/c/x".to_string()),
        due: Some("2025-03-01".to_string()),
        due_complete: Some(false),
        id_list: Some("L1".to_string()),
    }
}

fn wlist(name: Option<&str>) -> TrelloWebhookList {
    TrelloWebhookList { id: "L".to_string(), name: name.map(|n| n.to_string()) }
}

fn data(card: Option<TrelloWebhookCard>, list: Option<TrelloWebhookList>, after: Option<TrelloWebhookList>) -> TrelloActionData {
    TrelloActionData { card, list, list_after: after, list_before: None }
}

fn payload(t: &str, card: Option<TrelloWebhookCard>) -> TrelloWebhookPayload {
    TrelloWebhookPayload { action: TrelloAction { action_type: t.to_string(), data: data(card, None, None) } }
}

fn hook(id: &str, url: &str, active: bool) -> WebhookInfo {
    WebhookInfo { id: id.to_string(), callback_url: url.to_string(), active }
}

#[test]
fn config_defaults() {
    let c = Config::from_vars(&vars()).ok().unwrap();
    assert_eq!(c.ai_model, "gemini-2.5-flash-lite");
    assert_eq!(c.redis_url, "redis://127.0.0.1:6379");
    assert_eq!(c.cache_ttl_seconds, 300);
    assert_eq!(c.server_host, "0.0.0.0");
    assert_eq!(c.server_port, 3000);
    assert_eq!(c.webhook_url, None);
    assert_eq!(c.ai_api_key, "sk-test");
}

#[test]
fn config_numbers_and_webhook() {
    let mut v = vars();
    v.cache_ttl_seconds = Some("+60".to_string());
    v.server_port = Some("70000".to_string());
    v.webhook_url = Some(String::new());
    let c = Config::from_vars(&v).ok().unwrap();
    assert_eq!(c.cache_ttl_seconds, 60);
    assert_eq!(c.server_port, 3000);
    assert_eq!(c.webhook_url, None);
    let mut w = vars();
    w.server_port = Some("8080".to_string());
    w.webhook_url = Some("https://x.io".to_string());
    w.cache_ttl_seconds = Some("abc".to_string());
    let d = Config::from_vars(&w).ok().unwrap();
    assert_eq!(d.server_port, 8080);
    assert_eq!(d.cache_ttl_seconds, 300);
    assert_eq!(d.webhook_url, Some("https://x.io".to_string()));
}

#[test]
fn config_missing_first_required() {
    let mut v = vars();
    v.trello_token = None;
    v.ai_api_key = None;
    match Config::from_vars(&v) {
        Err(e) => {
            let ConfigError::Missing(n) = &e;
            assert_eq!(n, "TRELLO_TOKEN");
            assert_eq!(e.message(), "TRELLO_TOKEN is required");
        }
        Ok(_) => panic!("expected an error"),
    }
}

#[test]
fn providers_from_config() {
    let c = Config::from_vars(&vars()).ok().unwrap();
    let p = create_providers(&c);
    assert_eq!(p.len(), 1);
    assert_eq!(p[0].base_url, "http://ai");
    assert_eq!(p[0].model, "gemini-2.5-flash-lite");
}

#[test]
fn parse_numbers_like_str_parse() {
    assert_eq!(parse_bounded("42", 100), Some(42));
    assert_eq!(parse_bounded("+7", 100), Some(7));
    assert_eq!(parse_bounded("101", 100), None);
    assert_eq!(parse_bounded("", 100), None);
    assert_eq!(parse_bounded("+", 100), None);
    assert_eq!(parse_bounded("-1", 100), None);
    assert_eq!(parse_bounded("1 ", 100), None);
    assert_eq!(parse_bounded("18446744073709551615", u64::MAX), Some(u64::MAX));
    assert_eq!(parse_bounded("18446744073709551616", u64::MAX), None);
}

#[test]
fn padded_numbers() {
    assert_eq!(fmt_padded(7, 4), "0007");
    assert_eq!(fmt_padded(12345, 4), "12345");
    assert_eq!(fmt_padded(0, 2), "00");
}

#[test]
fn webhook_events() {
    assert!(matches!(plan_webhook_event(&payload("createCard", Some(wcard("c1")))), WebhookAction::SyncCard(id) if id == "c1"));
    assert!(matches!(plan_webhook_event(&payload("updateCard", Some(wcard("c1")))), WebhookAction::SyncCard(_)));
    assert!(matches!(plan_webhook_event(&payload("deleteCard", Some(wcard("c2")))), WebhookAction::DeleteCard(id) if id == "c2"));
    assert!(matches!(plan_webhook_event(&payload("moveCardFromBoard", Some(wcard("c3")))), WebhookAction::DeleteCard(_)));
    assert!(matches!(plan_webhook_event(&payload("moveCardToBoard", Some(wcard("c4")))), WebhookAction::SyncMovedCard(id) if id == "c4"));
    assert!(matches!(plan_webhook_event(&payload("addMemberToCard", Some(wcard("c5")))), WebhookAction::Ignore));
    assert!(matches!(plan_webhook_event(&payload("createCard", None)), WebhookAction::Ignore));
}

fn fetched(list: Option<&str>) -> TrelloCard {
    TrelloCard {
        id: "c".to_string(),
        name: "c".to_string(),
        desc: String::new(),
        id_list: "L1".to_string(),
        due: None,
        due_complete: None,
        labels: Vec::new(),
        short_url: String::new(),
        list_name: list.map(|l| l.to_string()),
        members: Vec::new(),
    }
}

#[test]
fn list_name_from_event() {
    let d = data(None, Some(wlist(Some("Old"))), Some(wlist(Some("New"))));
    assert_eq!(fill_list_name(fetched(None), &d).list_name, Some("New".to_string()));
    assert_eq!(fill_list_name(fetched(Some("Kept")), &d).list_name, Some("Kept".to_string()));
    let d2 = data(None, Some(wlist(Some("Only"))), None);
    assert_eq!(fill_list_name(fetched(None), &d2).list_name, Some("Only".to_string()));
    let d3 = data(None, Some(wlist(Some("Only"))), Some(wlist(None)));
    assert_eq!(fill_list_name(fetched(None), &d3).list_name, None);
}

#[test]
fn card_built_from_event() {
    let d = data(None, Some(wlist(Some("Todo"))), Some(wlist(Some("Doing"))));
    let c = card_from_webhook(&wcard("c9"), &d);
    assert_eq!(c.id, "c9");
    assert_eq!(c.name, "New");
    assert_eq!(c.desc, "");
    assert_eq!(c.id_list, "L1");
    assert_eq!(c.due, Some("2025-03-01".to_string()));
    assert_eq!(c.due_complete, Some(false));
    assert_eq!(c.short_url, "https://trello.com/c/x");
    assert_eq!(c.list_name, Some("Todo".to_string()));
    assert!(c.labels.is_empty() && c.members.is_empty());
}

#[test]
fn registration_reuses_active() {
    let hooks = vec![hook("h1", "https://a/api/webhook", false), hook("h2", "https://a/api/webhook", true)];
    match plan_registration(Some(&hooks), "https://a/api/webhook") {
        RegistrationPlan::Reuse(w) => assert_eq!(w.id, "h2"),
        RegistrationPlan::Create(_) => panic!("expected reuse"),
    }
}

#[test]
fn registration_deletes_stale_then_creates() {
    let hooks = vec![
        hook("h1", "https://a/api/webhook", false),
        hook("h2", "https://b/api/webhook", true),
        hook("h3", "https://a/api/webhook", false),
    ];
    match plan_registration(Some(&hooks), "https://a/api/webhook") {
        RegistrationPlan::Create(ids) => assert_eq!(ids, vec!["h1".to_string(), "h3".to_string()]),
        RegistrationPlan::Reuse(_) => panic!("expected create"),
    }
    match plan_registration(None, "https://a/api/webhook") {
        RegistrationPlan::Create(ids) => assert!(ids.is_empty()),
        RegistrationPlan::Reuse(_) => panic!("expected create"),
    }
}

#[test]
fn callback_url_strips_slashes() {
    assert_eq!(webhook_callback("https://x.ngrok.app//"), "https://x.ngrok.app/api/webhook");
    assert_eq!(webhook_callback("https://x.io"), "https://x.io/api/webhook");
}

#[test]
fn update_params_in_order() {
    let u = TrelloWebhookUpdate { description: None, callback_url: Some("https://c".to_string()), active: Some(false) };
    let p = webhook_update_params("K", "T", &u);
    let expected: Vec<(String, String)> = vec![
        ("key".to_string(), "K".to_string()),
        ("token".to_string(), "T".to_string()),
        ("callbackURL".to_string(), "https://c".to_string()),
        ("active".to_string(), "false".to_string()),
    ];
    assert_eq!(p, expected);
}

#[test]
fn webhook_statuses() {
    let w = TrelloWebhook {
        id: "w".to_string(),
        description: Some("d".to_string()),
        callback_url: "u".to_string(),
        id_model: "m".to_string(),
        active: true,
    };
    let s = webhook_status_of(&w);
    assert_eq!((s.id, s.description, s.callback_url, s.active), ("w".to_string(), Some("d".to_string()), "u".to_string(), true));
    let r = registered_status(&hook("h", "cb", false));
    assert_eq!((r.id, r.description, r.callback_url, r.active), ("h".to_string(), None, "cb".to_string(), false));
    let u = update_of_request(UpdateWebhookRequest { description: Some("x".to_string()), callback_url: None, active: Some(true) });
    assert_eq!((u.description, u.callback_url, u.active), (Some("x".to_string()), None, Some(true)));
}

#[test]
fn startup_answers_at_once() {
    let (s, a) = startup_begin();
    assert!(matches!(s, Startup::Probing) && matches!(a, StartupAction::Probe));
    let (s, a) = startup_step(s, StartupEvent::Answered(true));
    assert!(matches!(s, Startup::Done(true)) && matches!(a, StartupAction::Finish(true)));
}

#[test]
fn startup_spawns_and_gives_up_after_waits() {
    let (mut s, _) = startup_begin();
    let (n, a) = startup_step(s, StartupEvent::Answered(false));
    assert!(matches!(a, StartupAction::CheckInstall));
    let (n, a) = startup_step(n, StartupEvent::Installed(true));
    assert!(matches!(a, StartupAction::Spawn));
    let (n, a) = startup_step(n, StartupEvent::Spawned(true));
    assert!(matches!(a, StartupAction::WaitAndProbe));
    s = n;
    let mut waits = 1;
    loop {
        let (n, a) = startup_step(s, StartupEvent::Answered(false));
        s = n;
        match a {
            StartupAction::WaitAndProbe => waits += 1,
            StartupAction::Finish(ok) => {
                assert!(!ok);
                break;
            }
            _ => panic!("unexpected action"),
        }
    }
    assert_eq!(waits, 15);
}

#[test]
fn startup_missing_program_or_failed_spawn() {
    let (s, _) = startup_step(Startup::CheckingInstall, StartupEvent::Installed(false));
    assert!(matches!(s, Startup::Done(false)));
    let (s, _) = startup_step(Startup::Spawning, StartupEvent::Spawned(false));
    assert!(matches!(s, Startup::Done(false)));
    let (s, a) = startup_step(Startup::Waiting(3), StartupEvent::Answered(true));
    assert!(matches!(s, Startup::Done(true)) && matches!(a, StartupAction::Finish(true)));
    let (s, a) = startup_step(Startup::Spawning, StartupEvent::Answered(true));
    assert!(matches!(s, Startup::Spawning) && matches!(a, StartupAction::Spawn));
}

#[test]
fn model_names_and_replies() {
    let names = vec!["llama3:latest".to_string(), "qwen2".to_string()];
    assert!(model_listed(&names, "llama3"));
    assert!(model_listed(&names, "qwen2"));
    assert!(!model_listed(&names, "mistral"));
    assert_eq!(reply_or_notice(Some("hi".to_string())), "hi");
    assert_eq!(reply_or_notice(None), "Không nhận được phản hồi từ Ollama.");
}

#[test]
fn tunnel_url_first_https() {
    let urls = vec![None, Some("http://a".to_string()), Some("https://b".to_string()), Some("https://c".to_string())];
    assert_eq!(first_https_url(&urls), Some("https://b".to_string()));
    assert_eq!(first_https_url(&vec![Some("http://a".to_string())]), None);
}

#[test]
fn health_and_labels() {
    let p = vec![ProviderStatus { name: "ai".to_string(), available: true }];
    let h = health_response(p, true, false);
    assert_eq!(h.status, "degraded");
    assert_eq!(h.ai_providers.len(), 1);
    assert_eq!(health_response(Vec::new(), true, true).status, "healthy");
    assert_eq!(provider_label(true, false, 1234), "ai+analysis (1234ms)");
    assert_eq!(provider_label(false, true, 5), "keyword (5ms)");
    assert_eq!(provider_label(false, false, 0), "ai+local (0ms)");
}

#[test]
fn reply_json_texts() {
    let (t, inner) = json_reply_texts("  ```json {\"intent\":\"search\"} ```  ");
    assert_eq!(t, "```json {\"intent\":\"search\"} ```");
    assert_eq!(inner, Some("{\"intent\":\"search\"}".to_string()));
    let (t2, inner2) = json_reply_texts("no json");
    assert_eq!(t2, "no json");
    assert_eq!(inner2, None);
}
