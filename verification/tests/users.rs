use comm::passwords::hash_password;
use comm::users::UserStore;

#[test]
fn users_file_in_the_documented_format_is_read() {
    let hash = hash_password("secret").unwrap();
    let file = format!(
        "# people who may sign in\n\n[[user]]\nusername = \"alice\"\npassword_hash = \"{hash}\"\r\n\n  [[user]]  \n  password_hash = \"x\" \n  username=\"bob\"\n"
    );
    let users = UserStore::from_users_file(&file).unwrap();
    assert!(users.has_username("alice"));
    assert!(users.has_username("bob"));
    assert!(!users.has_username("carol"));
    assert!(users.verify_credentials("alice", "secret"));
    assert!(!users.verify_credentials("alice", "Secret"));
    assert!(!users.verify_credentials("bob", "secret"));
    assert!(!users.verify_credentials("bob", "x"));
}

#[test]
fn empty_users_file_has_no_users() {
    let users = UserStore::from_users_file("").unwrap();
    assert!(!users.has_username(""));
    let comments = UserStore::from_users_file("# nobody yet\n\n").unwrap();
    assert!(!comments.has_username("alice"));
}

#[test]
fn malformed_users_files_are_refused() {
    let refused = [
        "username = \"alice\"\n",
        "[[user]]\nusername = \"alice\"\n",
        "[[user]]\npassword_hash = \"h\"\n",
        "[[user]]\nusername = \"alice\"\nusername = \"bob\"\npassword_hash = \"h\"\n",
        "[[user]]\nusername = \"alice\"\npassword_hash = \"h\"\nrole = \"admin\"\n",
        "[[user]]\nusername = alice\npassword_hash = \"h\"\n",
        "[[user]]\nusername = \"al\\\"ice\"\npassword_hash = \"h\"\n",
        "[[user]]\nusername = \"alice\"\npassword_hash = \"h\"\n[[user]]\n",
        "[users]\n",
    ];
    for file in refused {
        assert!(UserStore::from_users_file(file).is_none(), "{file:?}");
    }
}

#[test]
fn a_new_hash_verifies_its_password() {
    let hash = hash_password("correct horse").unwrap();
    let users =
        UserStore::from_users_file(&format!("[[user]]\nusername = \"a\"\npassword_hash = \"{hash}\"\n"))
            .unwrap();
    assert!(users.verify_credentials("a", "correct horse"));
    assert!(!users.verify_credentials("a", "correct horse "));
}

#[test]
fn test_only_users_never_sign_in() {
    let users = UserStore::from_usernames_for_tests(&["alice"]);
    assert!(users.has_username("alice"));
    assert!(!users.verify_credentials("alice", ""));
}
