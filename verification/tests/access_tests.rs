use bijoux::access::{
    bearer_token, check_login, fresh_ids, login_decision, not_found, refuse_unless_found, register_account,
    unauthorized, Access, Registration, Resource,
};
use bijoux::models::{LoginRequest, RegisterRequest};

#[test]
fn bearer_tokens_are_read() {
    assert_eq!(bearer_token("Bearer abc.def"), Some("abc.def"));
    assert_eq!(bearer_token("Bearer "), Some(""));
    assert_eq!(bearer_token("bearer abc"), None);
    assert_eq!(bearer_token("Basic abc"), None);
    let token = "xyz123";
    assert_eq!(bearer_token(&format!("Bearer {}", token)), Some(token));
}

#[test]
fn taken_addresses_are_refused() {
    let req = RegisterRequest { email: "a@b.c".to_string(), password: "pw".to_string() };
    match register_account(&req, true) {
        Ok(Registration::Refused(reply)) => {
            assert_eq!(reply.status, 409);
            assert_eq!(reply.message, "Email already registered");
        }
        _ => panic!("expected a refusal"),
    }
}

#[test]
fn a_registered_password_signs_in() {
    let req = RegisterRequest { email: "a@b.c".to_string(), password: "hunter2".to_string() };
    let (id, hash) = match register_account(&req, false) {
        Ok(Registration::Accepted { id, password_hash }) => (id, password_hash),
        _ => panic!("expected an account"),
    };
    assert_eq!(id.len(), 36);
    assert_eq!(hash.len(), 60);
    assert!(hash.starts_with("$2b$12$"));
    let parsed = uuid::Uuid::parse_str(&id).unwrap();
    assert_eq!(parsed.get_version_num(), 4);
    assert_eq!(id, id.to_lowercase());
    assert_ne!(hash, "hunter2");
    let login = LoginRequest { email: "a@b.c".to_string(), password: "hunter2".to_string() };
    match check_login(&login, Some((id.clone(), hash.clone()))) {
        Ok(Access::Granted(who)) => assert_eq!(who, id),
        _ => panic!("expected access"),
    }
    let wrong = LoginRequest { email: "a@b.c".to_string(), password: "hunter3".to_string() };
    match check_login(&wrong, Some((id, hash))) {
        Ok(Access::Refused(reply)) => {
            assert_eq!(reply.status, 401);
            assert_eq!(reply.message, "Invalid credentials");
        }
        _ => panic!("expected a refusal"),
    }
}

#[test]
fn unknown_accounts_are_refused() {
    let login = LoginRequest { email: "nobody".to_string(), password: "pw".to_string() };
    match check_login(&login, None) {
        Ok(Access::Refused(reply)) => {
            assert_eq!(reply.status, 401);
            assert_eq!(reply.message, "Invalid credentials");
        }
        _ => panic!("expected a refusal"),
    }
}

#[test]
fn malformed_hashes_are_errors() {
    let login = LoginRequest { email: "x".to_string(), password: "pw".to_string() };
    match check_login(&login, Some(("id".to_string(), "not a hash".to_string()))) {
        Err(text) => assert_eq!(text, bcrypt::verify("pw", "not a hash").unwrap_err().to_string()),
        _ => panic!("expected an error"),
    }
}

#[test]
fn login_decisions_follow_the_verdict() {
    assert!(matches!(login_decision("u".to_string(), Ok(true)), Ok(Access::Granted(ref id)) if id == "u"));
    assert!(matches!(login_decision("u".to_string(), Ok(false)), Ok(Access::Refused(ref r)) if r.status == 401));
    assert!(matches!(login_decision("u".to_string(), Err("bad".to_string())), Err(ref e) if e == "bad"));
}

#[test]
fn standard_refusals() {
    let r = unauthorized();
    assert_eq!((r.status, r.message.as_str()), (401, "Unauthorized"));
    let r = not_found(Resource::Config);
    assert_eq!((r.status, r.message.as_str()), (404, "Config not found"));
    let r = not_found(Resource::Item);
    assert_eq!((r.status, r.message.as_str()), (404, "Item not found"));
}

#[test]
fn fresh_ids_are_uuids() {
    let ids = fresh_ids(3);
    assert_eq!(ids.len(), 3);
    for id in ids.iter() {
        assert_eq!(id.len(), 36);
        assert!(uuid::Uuid::parse_str(id).is_ok());
    }
    assert_ne!(ids[0], ids[1]);
    assert!(fresh_ids(0).is_empty());
    for id in ids.iter() {
        let c: Vec<char> = id.chars().collect();
        assert_eq!((c[8], c[13], c[14], c[18], c[23]), ('-', '-', '4', '-', '-'));
        assert!("89ab".contains(c[19]));
        assert!(c.iter().enumerate().all(|(i, ch)| [8, 13, 18, 23].contains(&i) || "0123456789abcdef".contains(*ch)));
    }
}

#[test]
fn missing_resources_are_refused() {
    assert!(refuse_unless_found(true, Resource::Config).is_none());
    let r = refuse_unless_found(false, Resource::Item).unwrap();
    assert_eq!((r.status, r.message.as_str()), (404, "Item not found"));
    let r = refuse_unless_found(false, Resource::Config).unwrap();
    assert_eq!((r.status, r.message.as_str()), (404, "Config not found"));
}
