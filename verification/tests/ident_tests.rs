use agent_core::ident::verify_cid;

#[test]
fn test_verify_cid() {
    let tests: &[(&str, bool)] = &[
        // (id, expect_error)
        ("", true),
        (" ", true),
        (".", true),
        ("-", true),
        ("_", true),
        (" a", true),
        (".a", true),
        ("-a", true),
        ("_a", true),
        ("..", true),
        ("a", true),
        ("z", true),
        ("A", true),
        ("Z", true),
        ("0", true),
        ("9", true),
        ("-1", true),
        ("/", true),
        ("a/", true),
        ("a/../", true),
        ("../a", true),
        ("../../a", true),
        ("../../../a", true),
        ("foo/../bar", true),
        ("foo bar", true),
        ("a.", false),
        ("a..", false),
        ("aa", false),
        ("aa.", false),
        ("hello..world", false),
        ("hello/../world", true),
        ("aa1245124sadfasdfgasdga.", false),
        ("aAzZ0123456789_.-", false),
        ("abcdefghijklmnopqrstuvwxyz0123456789.-_", false),
        ("0123456789abcdefghijklmnopqrstuvwxyz.-_", false),
        (" abcdefghijklmnopqrstuvwxyz0123456789.-_", true),
        (".abcdefghijklmnopqrstuvwxyz0123456789.-_", true),
        ("ABCDEFGHIJKLMNOPQRSTUVWXYZ0123456789.-_", false),
        ("0123456789ABCDEFGHIJKLMNOPQRSTUVWXYZ.-_", false),
        (" ABCDEFGHIJKLMNOPQRSTUVWXYZ0123456789.-_", true),
        (".ABCDEFGHIJKLMNOPQRSTUVWXYZ0123456789.-_", true),
        ("/a/b/c", true),
        ("a/b/c", true),
        ("foo/../../../etc/passwd", true),
        ("../../../../../../etc/motd", true),
        ("/etc/passwd", true),
    ];

    for (i, (id, expect_error)) in tests.iter().enumerate() {
        let msg = format!("test[{}]: {:?}", i, id);
        let result = verify_cid(id);
        let msg = format!("{}, result: {:?}", msg, result);
        if result.is_ok() {
            assert!(!expect_error, "{}", msg);
        } else {
            assert!(expect_error, "{}", msg);
        }
    }
}

#[test]
fn verify_cid_accepts_two_or_more_id_characters() {
    assert!(verify_cid("ab").is_ok());
    assert!(verify_cid("a..b").is_ok());
}

#[test]
fn verify_cid_rejects_short_and_bad_heads() {
    assert!(verify_cid("a").is_err());
    assert!(verify_cid(".ab").is_err());
    assert!(verify_cid("a/b").is_err());
}
