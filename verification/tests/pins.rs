use ptr_plugins::pin::Pin;

fn strings(items: &[&str]) -> Vec<String> {
    items.iter().map(|s| s.to_string()).collect()
}

fn sorted(mut names: Vec<String>) -> Vec<String> {
    names.sort();
    names
}

#[test]
fn nothing_is_pinned_at_first() {
    let pin = Pin::new();
    assert!(!pin.is_set());
    assert!(!pin.contains("a"));
    assert!(pin.list().is_empty());
}

#[test]
fn add_pins_each_name_once() {
    let mut pin = Pin::new();
    pin.add(strings(&["b", "a", "b"]));
    assert!(pin.is_set());
    assert!(pin.contains("a"));
    assert!(pin.contains("b"));
    assert!(!pin.contains("c"));
    assert_eq!(sorted(pin.list()), strings(&["a", "b"]));
    pin.add(strings(&["c", "a"]));
    assert_eq!(sorted(pin.list()), strings(&["a", "b", "c"]));
}

#[test]
fn remove_unpins() {
    let mut pin = Pin::new();
    pin.add(strings(&["a", "b", "c"]));
    pin.remove(strings(&["b", "x", "b"]));
    assert_eq!(sorted(pin.list()), strings(&["a", "c"]));
    assert!(!pin.contains("b"));
    pin.remove(strings(&["a", "c"]));
    assert!(pin.is_set());
    assert!(pin.list().is_empty());
}

#[test]
fn remove_without_pins_sets_them() {
    let mut pin = Pin::new();
    pin.remove(strings(&["a", "a", "b"]));
    assert!(pin.is_set());
    assert_eq!(sorted(pin.list()), strings(&["a", "b"]));
}

#[test]
fn reset_forgets_every_pin() {
    let mut pin = Pin::new();
    pin.add(strings(&["a"]));
    pin.reset();
    assert!(!pin.is_set());
    assert!(!pin.contains("a"));
    assert!(pin.list().is_empty());
}
