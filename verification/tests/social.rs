use map_server::social::linkshell_recipients;

#[test]
fn linkshell_chat_fans_to_online_members_only() {
    // Members 1 (sender), 2 and 3 share linkshell 42; only 1 and 2 are online.
    let members = vec![1, 2, 3];
    let online = vec![1, 2];
    let to = linkshell_recipients(&members, &online, 1);
    assert!(!to.contains(&1), "sender should not receive own LS chat");
    assert_eq!(to, vec![2], "only the online member hears it");
}

#[test]
fn linkshell_chat_with_nobody_else_online_goes_nowhere() {
    assert!(linkshell_recipients(&vec![1, 3], &vec![1, 7], 1).is_empty());
    assert_eq!(linkshell_recipients(&vec![5, 4, 3], &vec![3, 4, 5], 9), vec![5, 4, 3]);
}
