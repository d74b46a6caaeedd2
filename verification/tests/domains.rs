use onehistory::domains::{domain_top100, tally_domains};

fn counted(rows: &[(&str, i64)]) -> Vec<(String, i64)> {
    rows.iter().map(|(text, n)| (text.to_string(), *n)).collect()
}

#[test]
fn hosts_are_tallied_with_their_first_url_twice() {
    let rows = counted(&[
        ("https://a.com/x", 3),
        ("https://b.org/", 5),
        ("https://a.com/y", 2),
        ("data:text/html", 1),
    ]);
    let mut tally = tally_domains(rows);
    tally.sort();
    assert_eq!(tally, counted(&[("a.com", 8), ("b.org", 10), ("data:text/html", 2)]));
}

#[test]
fn the_largest_host_comes_first() {
    let rows = counted(&[
        ("https://a.com/x", 3),
        ("https://b.org/", 5),
        ("https://a.com/y", 2),
        ("data:text/html", 1),
    ]);
    assert_eq!(
        domain_top100(rows),
        counted(&[("b.org", 10), ("a.com", 8), ("data:text/html", 2)])
    );
    assert_eq!(domain_top100(vec![]), vec![]);
}

#[test]
fn a_hundred_hosts_are_kept() {
    let rows: Vec<(String, i64)> =
        (1..=150).map(|i| (format!("https://host{i}.example/page"), i as i64)).collect();
    let top = domain_top100(rows);
    assert_eq!(top.len(), 100);
    assert_eq!(top[0], ("host150.example".to_string(), 300));
    assert_eq!(top[99], ("host51.example".to_string(), 102));
    assert!(top.windows(2).all(|pair| pair[0].1 >= pair[1].1));
}

#[test]
fn hosts_with_the_same_number_are_all_kept() {
    let rows = counted(&[("https://a/1", 1), ("https://b/1", 1), ("https://c/1", 1)]);
    let mut top = domain_top100(rows);
    assert!(top.iter().all(|item| item.1 == 2));
    top.sort();
    assert_eq!(top, counted(&[("a", 2), ("b", 2), ("c", 2)]));
}

#[test]
fn a_count_out_of_range_stays_at_the_bound() {
    let rows = counted(&[("https://a/1", i64::MAX - 1), ("https://a/2", 5), ("https://b/", i64::MIN)]);
    assert_eq!(domain_top100(rows), counted(&[("a", i64::MAX), ("b", i64::MIN)]));
}
