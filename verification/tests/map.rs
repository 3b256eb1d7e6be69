//! The ordered map.

use network_dash::map::OrderedMap;

fn entries(m: &OrderedMap<String, u64>) -> Vec<(String, u64)> {
    (0..m.len())
        .map(|i| (m.key_at(i).clone(), *m.value_at(i)))
        .collect()
}

#[test]
fn entries_stand_in_key_order_one_per_key() {
    let mut m: OrderedMap<String, u64> = OrderedMap::new();
    for (k, v) in [("google", 1), ("cloudflare", 2), ("system", 3), ("google", 4)] {
        m.insert(k.to_string(), v);
    }
    assert_eq!(
        entries(&m),
        vec![
            ("cloudflare".to_string(), 2),
            ("google".to_string(), 4),
            ("system".to_string(), 3),
        ]
    );
    assert_eq!(m.get(&"google".to_string()), Some(&4));
    assert_eq!(m.get(&"quad9".to_string()), None);
}

#[test]
fn an_entry_that_exists_is_not_replaced_by_a_fresh_one() {
    let mut m: OrderedMap<String, u64> = OrderedMap::new();
    let first = m.entry("b".to_string(), 7);
    *m.value_at_mut(first) += 1;
    let again = m.entry("b".to_string(), 0);
    assert_eq!(*m.value_at(again), 8);
    assert_eq!(m.entry("a".to_string(), 1), 0);
    assert_eq!(m.find(&"b".to_string()), Some(1));
    m.remove_at(0);
    assert_eq!(entries(&m), vec![("b".to_string(), 8)]);
}

#[test]
fn keys_are_ordered_as_std_orders_strings() {
    let keys = ["é", "e", "", "z", "ab", "a", "10", "9", "\u{10000}", "\u{ffff}"];
    let mut m: OrderedMap<String, u64> = OrderedMap::new();
    for k in keys {
        m.insert(k.to_string(), 0);
    }
    let mut sorted: Vec<String> = keys.iter().map(|k| k.to_string()).collect();
    sorted.sort();
    let held: Vec<String> = entries(&m).into_iter().map(|(k, _)| k).collect();
    assert_eq!(held, sorted);
}
