use profile_registry::registry::{copy_list, list_contains};
use profile_registry::{RegistryStore, ValidationError};

fn names(list: &[&str]) -> Vec<String> {
    list.iter().map(|name| name.to_string()).collect()
}

#[test]
fn new_registry_holds_nothing() {
    let registry = RegistryStore::new();
    assert_eq!(registry.get_usernames("abc123".to_string()), None);
    assert_eq!(registry.find_passphrase_for_username(&"jane.doe".to_string()), None);
}

#[test]
fn registered_list_comes_back_in_order() {
    let mut registry = RegistryStore::new();
    assert_eq!(registry.register_passphrase("p".to_string(), names(&["u1", "u2"])), Ok(()));
    assert_eq!(registry.get_usernames("p".to_string()), Some(names(&["u1", "u2"])));
    assert_eq!(registry.register_passphrase("q".to_string(), names(&["z", "a", "m", "a"])), Ok(()));
    assert_eq!(registry.get_usernames("q".to_string()), Some(names(&["z", "a", "m", "a"])));
    assert_eq!(registry.get_usernames("p".to_string()), Some(names(&["u1", "u2"])));
}

#[test]
fn empty_passphrase_is_refused() {
    let mut registry = RegistryStore::new();
    assert_eq!(
        registry.register_passphrase(String::new(), names(&["u1"])),
        Err(ValidationError::EmptyPassphrase)
    );
    assert_eq!(registry.get_usernames(String::new()), None);
    assert_eq!(registry.find_passphrase_for_username(&"u1".to_string()), None);
}

#[test]
fn empty_list_is_refused_and_keeps_the_old_list() {
    let mut registry = RegistryStore::new();
    assert_eq!(registry.register_passphrase("p".to_string(), Vec::new()), Err(ValidationError::EmptyUsernameList));
    assert_eq!(registry.get_usernames("p".to_string()), None);
    assert_eq!(registry.register_passphrase("p".to_string(), names(&["u1", "u2"])), Ok(()));
    assert_eq!(registry.register_passphrase("p".to_string(), Vec::new()), Err(ValidationError::EmptyUsernameList));
    assert_eq!(registry.get_usernames("p".to_string()), Some(names(&["u1", "u2"])));
}

#[test]
fn empty_passphrase_is_reported_before_empty_list() {
    let mut registry = RegistryStore::new();
    assert_eq!(registry.register_passphrase(String::new(), Vec::new()), Err(ValidationError::EmptyPassphrase));
}

#[test]
fn registration_replaces_the_whole_list() {
    let mut registry = RegistryStore::new();
    assert_eq!(registry.register_passphrase("p".to_string(), names(&["u1", "u2"])), Ok(()));
    assert_eq!(registry.register_passphrase("p".to_string(), names(&["u3"])), Ok(()));
    assert_eq!(registry.get_usernames("p".to_string()), Some(names(&["u3"])));
    assert_eq!(registry.find_passphrase_for_username(&"u1".to_string()), None);
    assert_eq!(registry.find_passphrase_for_username(&"u3".to_string()), Some("p".to_string()));
}

#[test]
fn unvalidated_usernames_are_kept() {
    let mut registry = RegistryStore::new();
    assert_eq!(registry.register_passphrase("p".to_string(), names(&["", " ", "ü"])), Ok(()));
    assert_eq!(registry.get_usernames("p".to_string()), Some(names(&["", " ", "ü"])));
    assert_eq!(registry.find_passphrase_for_username(&String::new()), Some("p".to_string()));
}

#[test]
fn find_passphrase_of_a_username() {
    let mut registry = RegistryStore::new();
    assert_eq!(registry.register_passphrase("abc123".to_string(), names(&["jane.doe", "jd"])), Ok(()));
    assert_eq!(registry.register_passphrase("xyz".to_string(), names(&["john"])), Ok(()));
    assert_eq!(registry.find_passphrase_for_username(&"jane.doe".to_string()), Some("abc123".to_string()));
    assert_eq!(registry.find_passphrase_for_username(&"jd".to_string()), Some("abc123".to_string()));
    assert_eq!(registry.find_passphrase_for_username(&"john".to_string()), Some("xyz".to_string()));
    assert_eq!(registry.find_passphrase_for_username(&"nosuch".to_string()), None);
    assert_eq!(registry.find_passphrase_for_username(&"jane".to_string()), None);
}

#[test]
fn shared_username_goes_to_the_least_passphrase() {
    let mut registry = RegistryStore::new();
    assert_eq!(registry.register_passphrase("m".to_string(), names(&["shared"])), Ok(()));
    assert_eq!(registry.register_passphrase("z".to_string(), names(&["shared"])), Ok(()));
    assert_eq!(registry.find_passphrase_for_username(&"shared".to_string()), Some("m".to_string()));
    assert_eq!(registry.register_passphrase("b".to_string(), names(&["other", "shared"])), Ok(()));
    assert_eq!(registry.find_passphrase_for_username(&"shared".to_string()), Some("b".to_string()));
    assert_eq!(registry.register_passphrase("b".to_string(), names(&["other"])), Ok(()));
    assert_eq!(registry.find_passphrase_for_username(&"shared".to_string()), Some("m".to_string()));
}

#[test]
fn passphrases_are_ordered_by_their_bytes() {
    let mut registry = RegistryStore::new();
    for passphrase in ["ab", "a", "B", "é", "z", "aa", "~"] {
        assert_eq!(registry.register_passphrase(passphrase.to_string(), names(&["shared", passphrase])), Ok(()));
    }
    assert_eq!(registry.find_passphrase_for_username(&"shared".to_string()), Some("B".to_string()));
    assert_eq!(registry.register_passphrase("B".to_string(), names(&["B"])), Ok(()));
    assert_eq!(registry.find_passphrase_for_username(&"shared".to_string()), Some("a".to_string()));
    assert_eq!(registry.register_passphrase("a".to_string(), names(&["a"])), Ok(()));
    assert_eq!(registry.find_passphrase_for_username(&"shared".to_string()), Some("aa".to_string()));
    assert_eq!(registry.register_passphrase("aa".to_string(), names(&["aa"])), Ok(()));
    assert_eq!(registry.find_passphrase_for_username(&"shared".to_string()), Some("ab".to_string()));
    assert_eq!(registry.register_passphrase("ab".to_string(), names(&["ab"])), Ok(()));
    assert_eq!(registry.find_passphrase_for_username(&"shared".to_string()), Some("z".to_string()));
    assert_eq!(registry.register_passphrase("z".to_string(), names(&["z"])), Ok(()));
    assert_eq!(registry.find_passphrase_for_username(&"shared".to_string()), Some("~".to_string()));
    assert_eq!(registry.register_passphrase("~".to_string(), names(&["~"])), Ok(()));
    assert_eq!(registry.find_passphrase_for_username(&"shared".to_string()), Some("é".to_string()));
    for passphrase in ["ab", "a", "B", "é", "z", "aa", "~"] {
        assert_eq!(
            registry.find_passphrase_for_username(&passphrase.to_string()),
            Some(passphrase.to_string())
        );
    }
}

#[test]
fn the_choice_among_owners_is_repeatable() {
    let mut registry = RegistryStore::new();
    assert_eq!(registry.register_passphrase("second".to_string(), names(&["dup"])), Ok(()));
    assert_eq!(registry.register_passphrase("first".to_string(), names(&["dup"])), Ok(()));
    let once = registry.find_passphrase_for_username(&"dup".to_string());
    for _ in 0..10 {
        assert_eq!(registry.find_passphrase_for_username(&"dup".to_string()), once);
    }
    assert_eq!(once, Some("first".to_string()));
}

#[test]
fn list_contains_looks_for_the_whole_name() {
    let list = names(&["jane.doe", "jd", ""]);
    assert!(list_contains(&list, &"jd".to_string()));
    assert!(list_contains(&list, &String::new()));
    assert!(!list_contains(&list, &"jane".to_string()));
    assert!(!list_contains(&Vec::new(), &"jd".to_string()));
}

#[test]
fn copy_list_keeps_order_and_length() {
    assert_eq!(copy_list(&names(&["c", "a", "b", "a"])), names(&["c", "a", "b", "a"]));
    assert_eq!(copy_list(&Vec::new()), Vec::<String>::new());
}
