use nila::crypto::Crypto;
use nila::database::model_factory::build_update;
use nila::database::model_factory::decrypt_all;
use nila::database::model_factory::delete_step;
use nila::database::model_factory::flag;
use nila::database::model_factory::into_decrypted;
use nila::database::model_factory::not_found;
use nila::database::model_factory::plan_update;
use nila::database::model_factory::prepare_create;
use nila::database::model_factory::removed_any;
use nila::database::model_factory::require_found;
use nila::database::model_factory::DeleteStep;
use nila::database::model_factory::Model;
use nila::database::model_factory::ModelUpdate;
use nila::database::model_factory::NewModel;
use nila::database::model_factory::STATUS_ACTIVE;
use nila::database::model_factory::STATUS_INACTIVE;
use nila::error::AppError;

const KEY: &str = "AAECAwQFBgcICQoLDA0ODxAREhMUFRYXGBkaGxwdHh8=";

fn crypto() -> Crypto {
    Crypto::new(KEY).unwrap()
}

fn validation(err: AppError) -> String {
    match err {
        AppError::Validation(m) => m,
        other => panic!("expected a validation error, got {:?}", other),
    }
}

fn row(id: i64, api_key: &str) -> Model {
    Model {
        id,
        provider: "openai".to_string(),
        url: "https://api.example.com".to_string(),
        api_key: api_key.to_string(),
        status: STATUS_ACTIVE,
        locked: 0,
        created_at: "2024-01-01 00:00:00".to_string(),
        updated_at: "2024-01-02 00:00:00".to_string(),
    }
}

fn empty_patch() -> ModelUpdate {
    ModelUpdate { provider: None, url: None, api_key: None, status: None, locked: None }
}

#[test]
fn flags_accept_only_zero_and_one() {
    assert_eq!(flag(STATUS_ACTIVE, "status").unwrap(), 1);
    assert_eq!(flag(STATUS_INACTIVE, "locked").unwrap(), 0);
    assert_eq!(validation(flag(2, "status").unwrap_err()), "`status` must be 0 or 1, got 2");
    assert_eq!(validation(flag(-1, "locked").unwrap_err()), "`locked` must be 0 or 1, got -1");
}

#[test]
fn create_requires_provider_and_url() {
    let c = crypto();
    let input = NewModel { provider: "  ".into(), url: "https://x".into(), api_key: "k".into() };
    assert_eq!(validation(prepare_create(&c, &input).unwrap_err()), "`provider` and `url` are required");
    let input = NewModel { provider: "p".into(), url: "\t\n".into(), api_key: "k".into() };
    assert_eq!(validation(prepare_create(&c, &input).unwrap_err()), "`provider` and `url` are required");
}

#[test]
fn create_requires_api_key() {
    let c = crypto();
    let input = NewModel { provider: "p".into(), url: "u".into(), api_key: "".into() };
    assert_eq!(validation(prepare_create(&c, &input).unwrap_err()), "`api_key` is required");
}

#[test]
fn create_trims_and_seals() {
    let c = crypto();
    let input = NewModel { provider: "  openai ".into(), url: " https://api\n".into(), api_key: " sk-1 ".into() };
    let insert = prepare_create(&c, &input).unwrap();
    assert_eq!(insert.provider, "openai");
    assert_eq!(insert.url, "https://api");
    assert!(insert.api_key.starts_with("enc.v1:"));
    assert_eq!(c.decrypt(&insert.api_key).unwrap(), " sk-1 ");
}

#[test]
fn update_statement_lists_the_changed_columns() {
    let patch = ModelUpdate {
        provider: Some(" anthropic ".into()),
        url: Some("https://u ".into()),
        api_key: Some("secret".into()),
        status: Some(0),
        locked: Some(1),
    };
    let plan = build_update(&patch, Some("enc.v1:n:c".to_string())).unwrap();
    assert_eq!(
        plan.sql,
        "UPDATE models SET provider = ?, url = ?, api_key = ?, status = 0, locked = 1, updated_at = datetime('now') WHERE id = ? RETURNING *"
    );
    assert_eq!(plan.params, vec!["anthropic".to_string(), "https://u".to_string(), "enc.v1:n:c".to_string()]);
}

#[test]
fn update_of_flags_only_binds_nothing() {
    let mut patch = empty_patch();
    patch.status = Some(1);
    let plan = build_update(&patch, None).unwrap();
    assert_eq!(plan.sql, "UPDATE models SET status = 1, updated_at = datetime('now') WHERE id = ? RETURNING *");
    assert!(plan.params.is_empty());
}

#[test]
fn update_requires_at_least_one_field() {
    let c = crypto();
    assert_eq!(validation(build_update(&empty_patch(), None).unwrap_err()), "update requires at least one field");
    assert_eq!(validation(plan_update(&c, &empty_patch()).unwrap_err()), "update requires at least one field");
}

#[test]
fn update_checks_flags_before_anything_else() {
    let c = crypto();
    let mut patch = empty_patch();
    patch.status = Some(5);
    patch.locked = Some(7);
    patch.api_key = Some("".into());
    assert_eq!(validation(plan_update(&c, &patch).unwrap_err()), "`status` must be 0 or 1, got 5");
    patch.status = Some(0);
    assert_eq!(validation(plan_update(&c, &patch).unwrap_err()), "`locked` must be 0 or 1, got 7");
    patch.locked = None;
    assert_eq!(validation(plan_update(&c, &patch).unwrap_err()), "`api_key` cannot be empty");
}

#[test]
fn update_seals_a_new_api_key() {
    let c = crypto();
    let mut patch = empty_patch();
    patch.api_key = Some("sk-new".into());
    let plan = plan_update(&c, &patch).unwrap();
    assert_eq!(plan.sql, "UPDATE models SET api_key = ?, updated_at = datetime('now') WHERE id = ? RETURNING *");
    assert_eq!(plan.params.len(), 1);
    assert_eq!(c.decrypt(&plan.params[0]).unwrap(), "sk-new");
}

#[test]
fn delete_respects_the_lock() {
    assert_eq!(delete_step(4, None, false).unwrap(), DeleteStep::Absent);
    assert_eq!(delete_step(4, Some(0), false).unwrap(), DeleteStep::Remove);
    assert_eq!(delete_step(4, Some(1), true).unwrap(), DeleteStep::Remove);
    assert_eq!(
        validation(delete_step(4, Some(1), false).unwrap_err()),
        "model 4 is locked; unlock it first or pass force=true"
    );
    assert!(removed_any(1));
    assert!(!removed_any(0));
}

#[test]
fn missing_rows_are_not_found() {
    match not_found(42) {
        AppError::NotFound(m) => assert_eq!(m, "model 42"),
        other => panic!("unexpected {:?}", other),
    }
    assert!(matches!(require_found(None, 9), Err(AppError::NotFound(m)) if m == "model 9"));
    assert_eq!(require_found(Some(row(9, "k")), 9).unwrap().id, 9);
}

#[test]
fn rows_read_back_in_plaintext() {
    let c = crypto();
    let sealed = c.encrypt("sk-live").unwrap();
    let model = into_decrypted(&c, row(1, &sealed)).unwrap().unwrap();
    assert_eq!(model.api_key, "sk-live");
    assert_eq!(model.provider, "openai");
    let legacy = into_decrypted(&c, row(2, "plain-old")).unwrap().unwrap();
    assert_eq!(legacy.api_key, "plain-old");
    assert!(into_decrypted(&c, row(3, "enc.v1:AAAA:AAAA")).is_none());
    assert!(into_decrypted(&c, row(4, "enc.v1:bad")).unwrap().is_err());
}

#[test]
fn listing_stops_at_the_first_unreadable_row() {
    let c = crypto();
    let sealed = c.encrypt("a").unwrap();
    let rows = vec![row(1, &sealed), row(2, "b")];
    let models = decrypt_all(&c, &rows).unwrap().unwrap();
    assert_eq!(models.len(), 2);
    assert_eq!(models[0].api_key, "a");
    assert_eq!(models[1].api_key, "b");
    let rows = vec![row(1, "x"), row(2, "enc.v1:bad"), row(3, "enc.v1:AAAA:AAAA")];
    assert!(decrypt_all(&c, &rows).unwrap().is_err());
    let rows = vec![row(1, "x"), row(3, "enc.v1:AAAA:AAAA"), row(2, "enc.v1:bad")];
    assert!(decrypt_all(&c, &rows).is_none());
    assert!(decrypt_all(&c, &Vec::new()).unwrap().unwrap().is_empty());
}
