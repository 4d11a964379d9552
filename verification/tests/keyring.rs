use dpapi::keyring::CredentialCache;

#[test]
fn test_set_get_password() {
    let mut cache = CredentialCache::new();
    cache.set_password("test_service", "test_user", "test_password");
    let result = cache.get_password("test_service", "test_user");
    assert_eq!(result, Some("test_password".to_string()));
}

#[test]
fn test_delete_password() {
    let mut cache = CredentialCache::new();
    cache.set_password("test_service2", "test_user2", "test_password2");
    let deleted = cache.delete_password("test_service2", "test_user2");
    assert!(deleted);

    let result = cache.get_password("test_service2", "test_user2");
    assert_eq!(result, None);
}

#[test]
fn set_get_delete_scenario() {
    let mut cache = CredentialCache::new();
    cache.set_password("svc", "alice", "p1");
    assert_eq!(cache.get_password("svc", "alice"), Some("p1".to_string()));
    assert!(cache.delete_password("svc", "alice"));
    assert_eq!(cache.get_password("svc", "alice"), None);
    assert!(!cache.delete_password("svc", "alice"));
}

#[test]
fn new_cache_is_empty() {
    let cache = CredentialCache::new();
    assert_eq!(cache.get_password("svc", "alice"), None);
    assert!(cache.list_services().is_empty());
}

#[test]
fn set_overwrites_the_stored_secret() {
    let mut cache = CredentialCache::new();
    cache.set_password("svc", "alice", "p1");
    cache.set_password("svc", "alice", "p2");
    assert_eq!(cache.get_password("svc", "alice"), Some("p2".to_string()));
    assert_eq!(cache.list_services(), vec!["svc".to_string()]);
    assert!(cache.delete_password("svc", "alice"));
    assert_eq!(cache.get_password("svc", "alice"), None);
}

#[test]
fn entries_do_not_disturb_each_other() {
    let mut cache = CredentialCache::new();
    cache.set_password("svc", "alice", "p1");
    cache.set_password("svc", "bob", "p2");
    cache.set_password("other", "alice", "p3");
    assert_eq!(cache.get_password("svc", "alice"), Some("p1".to_string()));
    assert_eq!(cache.get_password("svc", "bob"), Some("p2".to_string()));
    assert_eq!(cache.get_password("other", "alice"), Some("p3".to_string()));
    assert_eq!(cache.get_password("other", "bob"), None);
    assert!(cache.delete_password("svc", "alice"));
    assert_eq!(cache.get_password("svc", "alice"), None);
    assert_eq!(cache.get_password("svc", "bob"), Some("p2".to_string()));
    assert_eq!(cache.get_password("other", "alice"), Some("p3".to_string()));
}

#[test]
fn the_key_is_the_pair_of_service_and_user() {
    let mut cache = CredentialCache::new();
    cache.set_password("a:b", "c", "first");
    assert_eq!(cache.get_password("a", "b:c"), None);
    cache.set_password("a", "b:c", "second");
    assert_eq!(cache.get_password("a:b", "c"), Some("first".to_string()));
    assert_eq!(cache.get_password("a", "b:c"), Some("second".to_string()));
    let mut services = cache.list_services();
    services.sort();
    assert_eq!(services, vec!["a".to_string(), "a:b".to_string()]);
}

#[test]
fn list_services_names_each_service_once() {
    let mut cache = CredentialCache::new();
    cache.set_password("mail", "alice", "p1");
    cache.set_password("mail", "bob", "p2");
    cache.set_password("git", "alice", "p3");
    cache.set_password("", "nobody", "p4");
    let mut services = cache.list_services();
    services.sort();
    assert_eq!(services, vec!["".to_string(), "git".to_string(), "mail".to_string()]);
}

#[test]
fn list_services_forgets_a_service_with_its_last_entry() {
    let mut cache = CredentialCache::new();
    cache.set_password("mail", "alice", "p1");
    cache.set_password("mail", "bob", "p2");
    cache.set_password("git", "alice", "p3");
    assert!(cache.delete_password("mail", "alice"));
    let mut services = cache.list_services();
    services.sort();
    assert_eq!(services, vec!["git".to_string(), "mail".to_string()]);
    assert!(cache.delete_password("mail", "bob"));
    assert_eq!(cache.list_services(), vec!["git".to_string()]);
}

#[test]
fn empty_names_and_secrets_are_stored() {
    let mut cache = CredentialCache::new();
    cache.set_password("", "", "");
    assert_eq!(cache.get_password("", ""), Some(String::new()));
    assert!(cache.delete_password("", ""));
    assert!(!cache.delete_password("", ""));
}
