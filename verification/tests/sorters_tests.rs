use oxide_explorer::listing::DirEntry;
use oxide_explorer::sorters::{date_sorter, entry_visible, filter_key, name_sorter, size_sorter, text_order, Order};

fn entry(name: &str, is_dir: bool, size: u64, modified: i64) -> DirEntry {
    DirEntry {
        name: name.to_string(),
        path: format!("/x/{name}"),
        size,
        modified,
        is_dir,
        icon_name: String::new(),
        content_type: String::new(),
    }
}

#[test]
fn directories_come_first() {
    let d = entry("zeta", true, 0, 0);
    let f = entry("alpha", false, 10, 5);
    assert_eq!(name_sorter(&d, &f), Order::Smaller);
    assert_eq!(name_sorter(&f, &d), Order::Larger);
    assert_eq!(size_sorter(&d, &f), Order::Smaller);
    assert_eq!(date_sorter(&f, &d), Order::Larger);
}

#[test]
fn names_compare_without_case() {
    let a = entry("B.txt", false, 0, 0);
    let b = entry("a.txt", false, 0, 0);
    assert_eq!(name_sorter(&a, &b), Order::Larger);
    assert_eq!(name_sorter(&b, &a), Order::Smaller);
    let c = entry("README", false, 0, 0);
    let d = entry("readme", false, 0, 0);
    assert_eq!(name_sorter(&c, &d), Order::Equal);
}

#[test]
fn sizes_and_dates_compare_numerically() {
    let small = entry("s", false, 9, 100);
    let big = entry("b", false, 10, -5);
    assert_eq!(size_sorter(&small, &big), Order::Smaller);
    assert_eq!(size_sorter(&small, &small), Order::Equal);
    assert_eq!(date_sorter(&small, &big), Order::Larger);
}

#[test]
fn text_order_is_str_order() {
    for (a, b) in [("a", "b"), ("ab", "a"), ("", ""), ("Z", "a"), ("é", "z")] {
        let want = match a.cmp(b) {
            std::cmp::Ordering::Less => Order::Smaller,
            std::cmp::Ordering::Equal => Order::Equal,
            std::cmp::Ordering::Greater => Order::Larger,
        };
        assert_eq!(text_order(a, b), want);
    }
}

#[test]
fn filter_rules() {
    assert!(!entry_visible(".hidden", false, ""));
    assert!(entry_visible(".hidden", true, ""));
    assert!(entry_visible("Report.PDF", true, "pdf"));
    assert!(!entry_visible("x", true, "y"));
    assert!(!entry_visible(".secret.pdf", false, "pdf"));
    assert_eq!(filter_key("ReAdMe"), "readme");
}
