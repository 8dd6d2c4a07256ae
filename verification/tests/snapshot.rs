use yufi::models::NetworkAction;
use yufi::snapshot::{
    base_action, best_per_ssid, build_state, icon_for_strength, network_of, strength_class,
    Sighting, SignalLevel,
};

fn sighting(ssid: &str, strength: u8, is_active: bool) -> Sighting {
    Sighting { ssid: ssid.to_string(), strength, is_active, is_saved: false, is_secure: true }
}

#[test]
fn two_inactive_sightings_keep_the_stronger() {
    let sightings = vec![sighting("Office_Main", 40, false), sighting("Office_Main", 70, false)];
    let state = build_state(true, &sightings);
    assert_eq!(state.networks.len(), 1);
    assert_eq!(state.networks[0].ssid, "Office_Main");
    assert_eq!(state.networks[0].strength, 70);
    assert!(!state.networks[0].is_active);
    assert_eq!(state.networks[0].action, NetworkAction::Connect);
}

#[test]
fn active_sighting_outranks_a_stronger_inactive_one() {
    let sightings =
        vec![sighting("Home_Fiber_5G", 30, true), sighting("Home_Fiber_5G", 90, false)];
    let state = build_state(true, &sightings);
    assert_eq!(state.networks.len(), 1);
    assert_eq!(state.networks[0].strength, 30);
    assert!(state.networks[0].is_active);
    assert_eq!(state.networks[0].action, NetworkAction::Disconnect);
    assert_eq!(state.networks[0].signal_icon, "network-wireless-signal-weak");
}

#[test]
fn active_sighting_wins_whichever_comes_first() {
    let sightings =
        vec![sighting("Home_Fiber_5G", 90, false), sighting("Home_Fiber_5G", 30, true)];
    let state = build_state(true, &sightings);
    assert_eq!(state.networks.len(), 1);
    assert_eq!(state.networks[0].strength, 30);
    assert!(state.networks[0].is_active);
}

#[test]
fn equal_rank_keeps_the_first_sighting() {
    let mut first = sighting("Cafe", 50, false);
    first.is_saved = true;
    let sightings = vec![first, sighting("Cafe", 50, false)];
    assert_eq!(best_per_ssid(&sightings), vec![0]);
    let state = build_state(true, &sightings);
    assert!(state.networks[0].is_saved);
}

#[test]
fn unnamed_sightings_are_passed_over() {
    let sightings = vec![sighting("", 99, false), sighting("Cafe", 10, false)];
    assert_eq!(best_per_ssid(&sightings), vec![1]);
    let state = build_state(true, &sightings);
    assert_eq!(state.networks.len(), 1);
    assert_eq!(state.networks[0].ssid, "Cafe");
}

#[test]
fn no_sightings_give_an_empty_snapshot() {
    let state = build_state(false, &Vec::new());
    assert!(!state.wifi_enabled);
    assert!(state.networks.is_empty());
}

#[test]
fn snapshot_is_ordered_active_then_strength_then_ssid() {
    let sightings = vec![
        sighting("delta", 50, false),
        sighting("alpha", 50, false),
        sighting("Zulu", 50, false),
        sighting("weak_but_active", 5, true),
        sighting("strong", 100, false),
        sighting("alpha", 20, false),
    ];
    let state = build_state(true, &sightings);
    let names: Vec<&str> = state.networks.iter().map(|n| n.ssid.as_str()).collect();
    assert_eq!(names, vec!["weak_but_active", "strong", "Zulu", "alpha", "delta"]);
}

#[test]
fn snapshot_does_not_depend_on_the_order_of_sightings() {
    let forward = vec![
        sighting("a", 10, false),
        sighting("b", 90, false),
        sighting("c", 90, true),
        sighting("b", 95, false),
    ];
    let backward = vec![
        sighting("b", 95, false),
        sighting("c", 90, true),
        sighting("b", 90, false),
        sighting("a", 10, false),
    ];
    let one = build_state(true, &forward);
    let two = build_state(true, &backward);
    let again = build_state(true, &forward);
    let key = |s: &yufi::models::AppState| -> Vec<(String, u8, bool)> {
        s.networks.iter().map(|n| (n.ssid.clone(), n.strength, n.is_active)).collect()
    };
    assert_eq!(key(&one), key(&two));
    assert_eq!(key(&one), key(&again));
    assert_eq!(
        key(&one),
        vec![
            ("c".to_string(), 90, true),
            ("b".to_string(), 95, false),
            ("a".to_string(), 10, false)
        ]
    );
}

#[test]
fn radio_off_offers_nothing() {
    let sightings = vec![sighting("Cafe", 50, true), sighting("Bar", 40, false)];
    let state = build_state(false, &sightings);
    assert_eq!(state.networks[0].action, NetworkAction::NoAction);
    assert_eq!(state.networks[1].action, NetworkAction::NoAction);
    assert_eq!(base_action(false, true), NetworkAction::NoAction);
    assert_eq!(base_action(true, true), NetworkAction::Disconnect);
    assert_eq!(base_action(true, false), NetworkAction::Connect);
}

#[test]
fn strength_classes_have_inclusive_upper_bounds() {
    assert_eq!(strength_class(0), SignalLevel::Lowest);
    assert_eq!(strength_class(20), SignalLevel::Lowest);
    assert_eq!(strength_class(21), SignalLevel::Weak);
    assert_eq!(strength_class(40), SignalLevel::Weak);
    assert_eq!(strength_class(41), SignalLevel::Fair);
    assert_eq!(strength_class(60), SignalLevel::Fair);
    assert_eq!(strength_class(61), SignalLevel::Good);
    assert_eq!(strength_class(80), SignalLevel::Good);
    assert_eq!(strength_class(81), SignalLevel::Excellent);
    assert_eq!(strength_class(100), SignalLevel::Excellent);
    assert_eq!(strength_class(255), SignalLevel::Excellent);
}

#[test]
fn icons_follow_the_classes() {
    assert_eq!(icon_for_strength(0), "network-wireless-signal-none");
    assert_eq!(icon_for_strength(20), "network-wireless-signal-none");
    assert_eq!(icon_for_strength(21), "network-wireless-signal-weak");
    assert_eq!(icon_for_strength(40), "network-wireless-signal-weak");
    assert_eq!(icon_for_strength(41), "network-wireless-signal-ok");
    assert_eq!(icon_for_strength(60), "network-wireless-signal-ok");
    assert_eq!(icon_for_strength(61), "network-wireless-signal-good");
    assert_eq!(icon_for_strength(80), "network-wireless-signal-good");
    assert_eq!(icon_for_strength(81), "network-wireless-signal-excellent");
    assert_eq!(icon_for_strength(100), "network-wireless-signal-excellent");
}

#[test]
fn network_of_carries_the_flags_over() {
    let s = Sighting {
        ssid: "Guest_Network".to_string(),
        strength: 48,
        is_active: false,
        is_saved: true,
        is_secure: false,
    };
    let n = network_of(&s, true);
    assert_eq!(n.ssid, "Guest_Network");
    assert_eq!(n.strength, 48);
    assert_eq!(n.signal_icon, "network-wireless-signal-ok");
    assert_eq!(n.action, NetworkAction::Connect);
    assert!(n.is_saved);
    assert!(!n.is_secure);
}
