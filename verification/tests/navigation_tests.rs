use oxide_explorer::navigation::NavigationState;

#[test]
fn back_and_forward_walk_the_history() {
    let mut nav = NavigationState::new("/home/user".to_string());
    assert!(!nav.can_go_back());
    assert!(!nav.can_go_forward());
    nav.navigate_to("/home/user/Documents".to_string());
    nav.navigate_to("/tmp".to_string());
    assert!(nav.can_go_back());
    assert!(nav.go_back());
    assert_eq!(nav.current_path(), "/home/user/Documents");
    assert!(nav.can_go_forward());
    assert!(nav.go_back());
    assert_eq!(nav.current_path(), "/home/user");
    assert!(!nav.go_back());
    assert_eq!(nav.current_path(), "/home/user");
    assert!(nav.go_forward());
    assert!(nav.go_forward());
    assert_eq!(nav.current_path(), "/tmp");
    assert!(!nav.go_forward());
}

#[test]
fn navigating_drops_the_way_ahead() {
    let mut nav = NavigationState::new("/a".to_string());
    nav.navigate_to("/b".to_string());
    assert!(nav.go_back());
    nav.navigate_to("/c".to_string());
    assert!(!nav.can_go_forward());
    assert!(nav.go_back());
    assert_eq!(nav.current_path(), "/a");
}

#[test]
fn go_up_opens_the_parent() {
    let mut nav = NavigationState::new("/home/user".to_string());
    assert!(nav.go_up());
    assert_eq!(nav.current_path(), "/home");
    assert!(nav.go_up());
    assert_eq!(nav.current_path(), "/");
    assert!(!nav.go_up());
    assert_eq!(nav.current_path(), "/");
    assert!(nav.go_back());
    assert_eq!(nav.current_path(), "/home");
}
