use backend::admin::{
    cleanup_limit, cleanup_page, image_cache_report, may_see_admin_pages, order_by_age,
    plan_cleanup, render_admin_page, render_user_rows, replace_all_exec,
};
use backend::auth::UserID;
use backend::database::{DBUser, UserRoll};

fn user(name: &str, id: &str) -> DBUser {
    DBUser { name: name.to_string(), id: UserID(id.to_string()), hashed_pw: String::new(), roll: UserRoll::User }
}

#[test]
fn only_admins_see_admin_pages() {
    assert!(may_see_admin_pages(UserRoll::Admin));
    assert!(!may_see_admin_pages(UserRoll::User));
    assert!(!may_see_admin_pages(UserRoll::Guest));
}

#[test]
fn replace_all_agrees_with_str_replace() {
    let cases = [("a{{x}}b{{x}}", "{{x}}", "Y"), ("aaaa", "aa", "b"), ("abc", "z", "q"), ("", "a", "b"), ("xyx", "x", "")];
    for (s, p, r) in cases {
        assert_eq!(replace_all_exec(s, p, r), s.replace(p, r));
    }
}

#[test]
fn admin_page_lists_users() {
    let users = vec![user("alice", "alice001"), user("bob", "bob00002")];
    let rows = render_user_rows(&users);
    assert!(rows.contains("<td>alice</td>"));
    assert!(rows.contains("changePassword('bob00002')"));
    assert!(rows.find("alice").unwrap() < rows.find("bob").unwrap());
    let page = render_admin_page("<table>{{users}}</table>", &users);
    assert_eq!(page, format!("<table>{}</table>", rows));
    assert_eq!(render_user_rows(&vec![]), "");
}

#[test]
fn cache_report_page() {
    let names = vec!["256_a.jpg".to_string(), "1024_b.jpg".to_string()];
    let page = image_cache_report(&names, &vec![1000, 2345]);
    assert!(page.contains("Total image bytes cached: 3345 (2 images)"));
}

#[test]
fn cleanup_limits() {
    assert_eq!(cleanup_limit(None), 100 * 1024 * 1024);
    assert_eq!(cleanup_limit(Some(3)), 3 * 1024 * 1024);
}

#[test]
fn age_order_is_stable() {
    assert_eq!(order_by_age(&vec![30, 10, 20, 10]), vec![1, 3, 2, 0]);
    assert_eq!(order_by_age(&vec![]), Vec::<usize>::new());
}

#[test]
fn cleanup_keeps_newest_within_limit() {
    let plan = plan_cleanup(&vec![30, 10, 20, 5], &vec![40, 30, 30, 50], 100);
    assert_eq!(plan.order, vec![3, 1, 2, 0]);
    assert_eq!(plan.retain, 2);
    assert_eq!(plan.retained_size, 80);
    let all = plan_cleanup(&vec![1, 2], &vec![1, 1], 10);
    assert_eq!(all.retain, 2);
    let none = plan_cleanup(&vec![1], &vec![11], 10);
    assert_eq!(none.retain, 0);
    assert_eq!(none.retained_size, 0);
}

#[test]
fn cleanup_pages() {
    let ok = cleanup_page(true, 3, 2, 5 * 1024 * 1024 + 7);
    assert!(ok.contains("Cleanup successfull!"));
    assert!(ok.contains("Files deleted: 3"));
    assert!(ok.contains("Files remaining: 2 (5mb)"));
    assert!(cleanup_page(false, 0, 0, 0).contains("Cleanup failed. Have a look at the logs!"));
}
