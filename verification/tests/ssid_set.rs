use yufi::ssid_set::SsidSet;

#[test]
fn a_set_holds_each_ssid_once() {
    let mut set = SsidSet::new();
    assert!(!set.contains("Cafe"));
    set.insert("Cafe".to_string());
    set.insert("Bar".to_string());
    set.insert("Cafe".to_string());
    assert!(set.contains("Cafe"));
    assert!(set.contains("Bar"));
    assert!(!set.contains("cafe"));
    let mut members = set.to_vec();
    members.sort();
    assert_eq!(members, vec!["Bar", "Cafe"]);
    set.remove("Cafe");
    assert!(!set.contains("Cafe"));
    assert!(set.contains("Bar"));
    set.remove("Cafe");
    set.remove("Bar");
    assert!(set.to_vec().is_empty());
}
