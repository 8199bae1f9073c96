use std::collections::HashMap;

use lazy_static::inline_lazy::Lazy;
use lazy_static::inline_lazy::Registry;

fn times_two(n: u32) -> u32 {
    n * 2
}

#[test]
fn test_test_basic() {
    let mut string: Lazy<String> = Lazy::new();
    let mut number: Lazy<u32> = Lazy::new();
    let mut array_boxes: Lazy<[Box<u32>; 3]> = Lazy::new();
    let mut hashmap: Lazy<HashMap<u32, &'static str>> = Lazy::new();
    let make_map = || {
        let mut m = HashMap::new();
        m.insert(0, "abc");
        m.insert(1, "def");
        m.insert(2, "ghi");
        m
    };
    assert_eq!(&string.get(|| "hello".to_string())[..], "hello");
    assert_eq!(*number.get(|| times_two(3)), 6);
    assert!(hashmap.get(make_map).get(&1).is_some());
    assert!(hashmap.get(make_map).get(&3).is_none());
    assert_eq!(
        &array_boxes.get(|| [Box::new(1), Box::new(2), Box::new(3)])[..],
        &[Box::new(1), Box::new(2), Box::new(3)][..]
    );
}

#[test]
fn test_test_repeat() {
    let mut statics: Registry<u32> = Registry::new();
    let number = statics.declare();
    assert_eq!(*statics.get(number, || times_two(3)), 6);
    assert_eq!(*statics.get(number, || times_two(3)), 6);
    assert_eq!(*statics.get(number, || times_two(3)), 6);
}

#[test]
fn test_visibility() {
    let mut foo: Lazy<Box<u32>> = Lazy::new();
    assert_eq!(*foo.get(|| Box::new(0)), Box::new(0));
}
