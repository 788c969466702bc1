use current::{CurrentGuard, Registry};
use std::any::TypeId;

struct Config(u32);

struct Other;

fn key_of_config() -> TypeId {
    TypeId::of::<Config>()
}

#[test]
fn nothing_is_bound_in_a_new_registry() {
    let reg = Registry::new();
    assert_eq!(reg.get(&TypeId::of::<Config>()), None);
    assert_eq!(reg.get(&TypeId::of::<Other>()), None);
    assert_eq!(reg.get(&TypeId::of::<u64>()), None);
}

#[test]
fn bind_then_get_finds_the_handle() {
    let mut reg = Registry::new();
    let v = Config(5);
    let guard = reg.bind(&v, key_of_config(), 0x1000);
    assert_eq!(reg.get(&key_of_config()), Some(0x1000));
    assert_eq!(reg.get(&TypeId::of::<Other>()), None);
    guard.release(&mut reg);
}

#[test]
fn nested_bindings_restore_in_reverse_order() {
    let mut reg = Registry::new();
    let a = Config(1);
    let b = Config(2);
    let outer = reg.bind(&a, key_of_config(), 10);
    let inner = reg.bind(&b, key_of_config(), 20);
    assert_eq!(reg.get(&key_of_config()), Some(20));
    inner.release(&mut reg);
    assert_eq!(reg.get(&key_of_config()), Some(10));
    outer.release(&mut reg);
    assert_eq!(reg.get(&key_of_config()), None);
}

#[test]
fn out_of_order_release_leaves_a_stale_binding() {
    let mut reg = Registry::new();
    let a = Config(1);
    let b = Config(2);
    let outer: CurrentGuard<Config> = reg.bind(&a, key_of_config(), 10);
    let inner: CurrentGuard<Config> = reg.bind(&b, key_of_config(), 20);
    outer.release(&mut reg);
    // The inner value is hidden although its guard is alive.
    assert_eq!(reg.get(&key_of_config()), None);
    inner.release(&mut reg);
    // The outer value is bound again although both guards are gone.
    assert_eq!(reg.get(&key_of_config()), Some(10));
}

#[test]
fn out_of_order_release_over_an_earlier_binding() {
    let mut reg = Registry::new();
    let base = Config(0);
    let a = Config(1);
    let b = Config(2);
    let first = reg.bind(&base, key_of_config(), 5);
    let outer = reg.bind(&a, key_of_config(), 10);
    let inner = reg.bind(&b, key_of_config(), 20);
    outer.release(&mut reg);
    assert_eq!(reg.get(&key_of_config()), Some(5));
    inner.release(&mut reg);
    assert_eq!(reg.get(&key_of_config()), Some(10));
    first.release(&mut reg);
    assert_eq!(reg.get(&key_of_config()), None);
}

#[test]
fn lookup_or_fail_names_the_type() {
    let reg = Registry::new();
    let r = reg.lookup_or_fail(&key_of_config(), "Config");
    assert_eq!(r, Err(String::from("No current `Config` is set")));
    assert!(r.unwrap_err().contains("Config"));
}

#[test]
fn lookup_or_fail_finds_a_bound_handle() {
    let mut reg = Registry::new();
    let v = Config(3);
    let guard = reg.bind(&v, key_of_config(), 77);
    assert_eq!(reg.lookup_or_fail(&key_of_config(), "Config"), Ok(77));
    guard.release(&mut reg);
    assert!(reg.lookup_or_fail(&key_of_config(), "Config").is_err());
}

#[test]
fn config_scenario_forty_two_then_seven() {
    // Handles are positions in `values`, so that a handle leads back to its value.
    let values = [Config(42), Config(7)];
    let mut reg = Registry::new();
    let outer = reg.bind(&values[0], key_of_config(), 0);
    assert_eq!(reg.get(&key_of_config()).map(|i| values[i].0), Some(42));
    {
        let inner = reg.bind(&values[1], key_of_config(), 1);
        assert_eq!(reg.get(&key_of_config()).map(|i| values[i].0), Some(7));
        inner.release(&mut reg);
    }
    assert_eq!(reg.get(&key_of_config()).map(|i| values[i].0), Some(42));
    outer.release(&mut reg);
    assert_eq!(reg.get(&key_of_config()), None);
}

#[test]
fn types_are_bound_independently() {
    let mut reg = Registry::new();
    let c = Config(1);
    let o = Other;
    let gc = reg.bind(&c, key_of_config(), 1);
    let go = reg.bind(&o, TypeId::of::<Other>(), 2);
    assert_eq!(reg.get(&key_of_config()), Some(1));
    assert_eq!(reg.get(&TypeId::of::<Other>()), Some(2));
    gc.release(&mut reg);
    assert_eq!(reg.get(&key_of_config()), None);
    assert_eq!(reg.get(&TypeId::of::<Other>()), Some(2));
    go.release(&mut reg);
    assert_eq!(reg.get(&TypeId::of::<Other>()), None);
}

#[test]
fn set_and_remove_on_the_registry() {
    let mut reg = Registry::new();
    let k = key_of_config();
    assert_eq!(reg.set(k, 3), None);
    assert_eq!(reg.set(k, 4), Some(3));
    assert_eq!(reg.get(&k), Some(4));
    reg.remove(&k);
    assert_eq!(reg.get(&k), None);
    reg.remove(&k);
    assert_eq!(reg.get(&k), None);
}
