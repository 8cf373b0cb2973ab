use rissue::auth::{password_hash, password_matches, AuthNewUser, AuthPayload, AuthRequest, TOKEN_LIFETIME_SECS};
use rissue::digest::do_hash;

#[test]
fn do_hash_known_values() {
    assert_eq!(do_hash(b""), "25BCOnh6F/QY89RGkU83HAcsOcPik3LKnHUXE1fQsDS");
    assert_eq!(do_hash(b"hunter2"), "7Q87KpIxsE92htZCiEIAfdQApvVbwwjSF3Q67QYh7qa");
    assert_eq!(do_hash(b"abc"), "sleUt26/x8n/OSBcVY2gG5.BWYMUD1oar/B9WdG.DYy");
}

#[test]
fn do_hash_shape() {
    let h = do_hash(b"some password");
    assert_eq!(h.len(), 43);
    assert!(h.chars().all(|c| c == '.' || c == '/' || c.is_ascii_alphanumeric()));
}

#[test]
fn password_dash_reads_as_equals() {
    assert_eq!(password_hash("pass-word"), "F.fZgZBcrrolC2U65YuhTqyQDBBc615M98LQT5sox0O");
    assert_eq!(password_hash("pass=word"), password_hash("pass-word"));
    assert_ne!(password_hash("password"), password_hash("pass-word"));
}

#[test]
fn login_after_register() {
    let stored = password_hash("s3cret-pw");
    assert!(password_matches("s3cret-pw", &stored));
    assert!(password_matches("s3cret=pw", &stored));
    assert!(!password_matches("s3cret pw", &stored));
}

#[test]
fn payload_expires_after_thirty_days() {
    let p = AuthPayload::issue("alice".to_string(), 1_700_000_000);
    assert_eq!(p.sub, "alice");
    assert_eq!(p.exp, 1_700_000_000 + 2_592_000);
    assert_eq!(TOKEN_LIFETIME_SECS, 2_592_000);
}

#[test]
fn register_and_login_flow() {
    let form = AuthNewUser { user: "bob".to_string(), email: "bob@example.org".to_string(), passwd: "pw-1".to_string() };
    let (stored, payload) = form.register(100);
    assert_eq!(stored, password_hash("pw-1"));
    assert_eq!(payload.sub, "bob");
    assert_eq!(payload.exp, 100 + 2_592_000);

    let good = AuthRequest { user: "bob".to_string(), passwd: "pw-1".to_string() };
    let token = good.login(&stored, 200).expect("accepted");
    assert_eq!(token.sub, "bob");
    assert_eq!(token.exp, 200 + 2_592_000);

    let bad = AuthRequest { user: "bob".to_string(), passwd: "pw-2".to_string() };
    assert!(bad.login(&stored, 200).is_none());
}

#[test]
fn login_refuses_other_password() {
    let stored = password_hash("correct-horse");
    assert!(!password_matches("correct_horse", &stored));
    assert!(!password_matches("", &stored));
    let req = AuthRequest { user: "carol".to_string(), passwd: "wrong".to_string() };
    assert!(req.login(&stored, 0).is_none());
}
