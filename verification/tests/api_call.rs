use encoding_boundary::api_call::{ApiCall, BuildError, Builder, Kind};
use encoding_boundary::params::{Application, Service, Usage, User};

fn service() -> Service {
    Service::new("svc-1".to_string(), "tok-1".to_string())
}

#[test]
fn build_without_kind_fails() {
    let b = Builder::new(service());
    match b.build() {
        Err(e) => assert_eq!(e, BuildError::MissingKind),
        Ok(_) => panic!("a kind is required"),
    }
}

#[test]
fn build_without_application_fails() {
    let mut b = Builder::new(service());
    b.kind(Kind::Report);
    match b.build() {
        Err(e) => assert_eq!(e, BuildError::MissingApplication),
        Ok(_) => panic!("an application is required"),
    }
}

#[test]
fn build_full_call() {
    let mut b = ApiCall::builder(service());
    b.kind(Kind::AuthRep)
        .app(Application::new("app-1".to_string()))
        .user(User::new("user-1".to_string()))
        .usage(Usage::new("hits".to_string(), "3".to_string()));
    let call = b.build().expect("all required parts are set");
    assert_eq!(*call.kind(), Kind::AuthRep);
    assert_eq!(call.service().id, "svc-1");
    assert_eq!(call.service().token, "tok-1");
    assert_eq!(call.application().id, "app-1");
    assert_eq!(call.user().expect("user was set").id, "user-1");
    assert!(call.extensions().is_none());
}

#[test]
fn params_keep_their_order() {
    let call = ApiCall::new(
        Kind::Authorize,
        service(),
        Application::new("app-1".to_string()),
        Some(User::new("user-1".to_string())),
        Some(Usage::new("hits".to_string(), "3".to_string())),
        None,
    );
    let params = call.params();
    let expected: Vec<(String, String)> = vec![
        ("service_id".to_string(), "svc-1".to_string()),
        ("service_token".to_string(), "tok-1".to_string()),
        ("app_id".to_string(), "app-1".to_string()),
        ("user_id".to_string(), "user-1".to_string()),
        ("usage[hits]".to_string(), "3".to_string()),
    ];
    assert_eq!(params, expected);
}

#[test]
fn params_without_optional_parts() {
    let call = ApiCall::new(
        Kind::Report,
        service(),
        Application::new("app-1".to_string()),
        None,
        None,
        None,
    );
    let params = call.params();
    let expected: Vec<(String, String)> = vec![
        ("service_id".to_string(), "svc-1".to_string()),
        ("service_token".to_string(), "tok-1".to_string()),
        ("app_id".to_string(), "app-1".to_string()),
    ];
    assert_eq!(params, expected);
}

#[test]
fn extensions_are_carried_as_given() {
    let ext: Vec<(String, String)> = vec![("no_body".to_string(), "1".to_string())];
    let mut b = Builder::new(service());
    b.kind(Kind::Authorize).app(Application::new("app-1".to_string())).extensions(ext.clone());
    let call = b.build().expect("all required parts are set");
    assert_eq!(call.extensions(), Some(&ext));
    // extensions travel beside the params, not inside them
    assert_eq!(call.params().len(), 3);
}

#[test]
fn setters_overwrite_service() {
    let other = Service::new("svc-2".to_string(), "tok-2".to_string());
    let mut b = Builder::new(service());
    b.service(other).kind(Kind::Report).app(Application::new("app-1".to_string()));
    let call = b.build().expect("all required parts are set");
    assert_eq!(call.service().id, "svc-2");
}
