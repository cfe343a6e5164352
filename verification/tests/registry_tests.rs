use blescan::device::Observation;
use blescan::exporter::export;
use blescan::registry::Registry;
use blescan::session::poll_once;

fn obs(addr: &str, name: Option<&str>) -> Observation {
    Observation { address: addr.to_string(), name: name.map(|s| s.to_string()) }
}

#[test]
fn default_naming_uses_unknown_sentinel() {
    let mut reg = Registry::new();
    reg.upsert(obs("11:22", None));
    let list = reg.snapshot();
    assert_eq!(list.len(), 1);
    assert_eq!(list[0].name, "Unknown");
    assert_eq!(list[0].address, "11:22");
}

#[test]
fn name_non_regression_keeps_learned_name() {
    let mut reg = Registry::new();
    reg.upsert(obs("11:22", Some("Alice")));
    reg.upsert(obs("11:22", None));
    let list = reg.snapshot();
    assert_eq!(list.len(), 1);
    assert_eq!(list[0].name, "Alice");
}

#[test]
fn reobservation_with_name_overwrites() {
    let mut reg = Registry::new();
    reg.upsert(obs("11:22", Some("Alice")));
    reg.upsert(obs("11:22", Some("Bob")));
    let list = reg.snapshot();
    assert_eq!(list.len(), 1);
    assert_eq!(list[0].name, "Bob");
}

#[test]
fn identity_uniqueness_one_entry_per_address() {
    let mut reg = Registry::new();
    reg.upsert(obs("aa", Some("one")));
    reg.upsert(obs("bb", None));
    reg.upsert(obs("aa", Some("two")));
    reg.upsert(obs("cc", Some("three")));
    reg.upsert(obs("bb", Some("four")));
    reg.upsert(obs("aa", None));
    let list = reg.snapshot();
    assert_eq!(list.len(), 3);
    for i in 0..list.len() {
        for j in 0..list.len() {
            if i != j {
                assert_ne!(list[i].address, list[j].address);
            }
        }
    }
}

#[test]
fn insertion_order_is_first_discovery_order() {
    let mut reg = Registry::new();
    reg.upsert(obs("aa", None));
    reg.upsert(obs("bb", Some("B")));
    reg.upsert(obs("aa", Some("A2")));
    reg.upsert(obs("cc", None));
    reg.upsert(obs("bb", None));
    let list = reg.snapshot();
    let addresses: Vec<&str> = list.iter().map(|d| d.address.as_str()).collect();
    assert_eq!(addresses, vec!["aa", "bb", "cc"]);
}

#[test]
fn snapshot_is_stable_across_calls() {
    let mut reg = Registry::new();
    reg.upsert(obs("aa", Some("one")));
    reg.upsert(obs("bb", None));
    let first = reg.snapshot();
    let second = reg.snapshot();
    assert_eq!(first.len(), second.len());
    for i in 0..first.len() {
        assert_eq!(first[i].name, second[i].name);
        assert_eq!(first[i].address, second[i].address);
    }
}

#[test]
fn export_lists_registry_contents() {
    let mut reg = Registry::new();
    reg.upsert(obs("aa", Some("one")));
    reg.upsert(obs("bb", None));
    let list = export(&reg);
    assert_eq!(list.len(), 2);
    assert_eq!(list[0].name, "one");
    assert_eq!(list[0].address, "aa");
    assert_eq!(list[1].name, "Unknown");
    assert_eq!(list[1].address, "bb");
}

#[test]
fn poll_once_folds_snapshot_and_skips_absent_properties() {
    let polled = vec![
        Some(obs("aa", Some("Phone"))),
        None,
        Some(obs("bb", None)),
        Some(obs("aa", Some("Phone-2"))),
    ];
    let reg = poll_once(&polled);
    let list = reg.snapshot();
    assert_eq!(list.len(), 2);
    assert_eq!(list[0].name, "Phone-2");
    assert_eq!(list[0].address, "aa");
    assert_eq!(list[1].name, "Unknown");
    assert_eq!(list[1].address, "bb");
}
