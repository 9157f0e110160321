use subruster::{Address, Aggregator, Finding};

const A: Address = Address::V4(0x5db8_d822);
const B: Address = Address::V4(0x0a00_0001);

#[test]
fn new_aggregator_is_empty() {
    let results = Aggregator::new();
    assert!(results.is_empty());
    assert_eq!(results.len(), 0);
    assert!(results.snapshot().is_empty());
    assert!(results.names().is_empty());
}

#[test]
fn submit_tells_whether_the_name_was_new() {
    let mut results = Aggregator::new();
    assert!(results.submit("www.example.com".to_string(), vec![A]));
    assert!(!results.submit("www.example.com".to_string(), vec![A]));
    assert!(results.submit("mail.example.com".to_string(), vec![A]));
    assert!(!results.submit("www.example.com".to_string(), vec![B]));
    assert_eq!(results.len(), 2);
}

#[test]
fn submit_twice_stores_one_entry() {
    let mut results = Aggregator::new();
    results.submit("www.example.com".to_string(), vec![A]);
    results.submit("www.example.com".to_string(), vec![A]);
    assert_eq!(
        results.snapshot(),
        vec![Finding { name: "www.example.com".to_string(), addresses: vec![A] }]
    );
}

#[test]
fn first_submission_keeps_its_addresses() {
    let mut results = Aggregator::new();
    results.submit("www.example.com".to_string(), vec![A]);
    results.submit("www.example.com".to_string(), vec![B, A]);
    assert_eq!(results.snapshot()[0].addresses, vec![A]);
}

#[test]
fn snapshot_is_in_discovery_order() {
    let mut results = Aggregator::new();
    results.submit("c.example.com".to_string(), vec![A]);
    results.submit("a.example.com".to_string(), vec![B]);
    results.submit("b.example.com".to_string(), vec![A, B]);
    results.submit("a.example.com".to_string(), vec![A]);
    assert_eq!(
        results.snapshot(),
        vec![
            Finding { name: "c.example.com".to_string(), addresses: vec![A] },
            Finding { name: "a.example.com".to_string(), addresses: vec![B] },
            Finding { name: "b.example.com".to_string(), addresses: vec![A, B] },
        ]
    );
    assert_eq!(results.names(), vec!["c.example.com", "a.example.com", "b.example.com"]);
}

#[test]
fn contains_knows_submitted_names_only() {
    let mut results = Aggregator::new();
    assert!(!results.contains(&"www.example.com".to_string()));
    results.submit("www.example.com".to_string(), vec![A]);
    assert!(results.contains(&"www.example.com".to_string()));
    assert!(!results.contains(&"www.example.co".to_string()));
    assert!(!results.contains(&"WWW.example.com".to_string()));
}

#[test]
fn names_are_told_apart_exactly() {
    let mut results = Aggregator::new();
    assert!(results.submit("www.example.com".to_string(), vec![A]));
    assert!(results.submit("www.example.com.".to_string(), vec![A]));
    assert!(results.submit("Www.example.com".to_string(), vec![A]));
    assert_eq!(results.len(), 3);
}

#[test]
fn snapshot_has_no_name_twice() {
    let mut results = Aggregator::new();
    for round in 0..3 {
        for label in ["www", "mail", "www", "api", "mail"] {
            let name = format!("{}.example.com", label);
            results.submit(name, vec![Address::V4(round)]);
        }
    }
    let names = results.names();
    assert_eq!(names, vec!["www.example.com", "mail.example.com", "api.example.com"]);
    for (i, name) in names.iter().enumerate() {
        assert!(!names[i + 1..].contains(name));
    }
}

#[test]
fn snapshot_leaves_the_aggregator_as_it_is() {
    let mut results = Aggregator::new();
    results.submit("www.example.com".to_string(), vec![A]);
    let first = results.snapshot();
    let second = results.snapshot();
    assert_eq!(first, second);
    assert_eq!(results.len(), 1);
}

#[test]
fn finding_without_addresses_is_stored_as_given() {
    let mut results = Aggregator::new();
    assert!(results.submit("www.example.com".to_string(), Vec::new()));
    assert_eq!(results.snapshot()[0].addresses, Vec::<Address>::new());
}
