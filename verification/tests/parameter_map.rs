use std::any::TypeId;

use shaku::parameter::Key;
use shaku::Parameter;
use shaku::ParameterMap;

#[test]
fn parameter_map() {
    let mut map = ParameterMap::new();

    // Can insert any type of value
    map.insert_with_name("key 1", "value 1".to_string());
    map.insert_with_name("key 2", "value 2");
    map.insert_with_name("key 3", 123 as usize);
    map.insert_with_name("key 4", 123.323 as f32);
    map.insert_with_name("key 4", true);

    // Can get typed data back
    let x = map.remove_with_name::<String>("key 1").unwrap();
    assert_eq!(x, "value 1".to_string());

    // Can't cast into anything
    let x = map.remove_with_name::<Parameter>("key 2");
    assert!(x.is_none());

    assert_eq!(
        map.remove_with_name::<usize>(&"key 3".to_string()).unwrap(),
        123
    );
    assert_eq!(map.remove_with_name::<bool>("key 4").unwrap(), true); // overwrite data

    let mut map = ParameterMap::new();

    // Can insert any type of value
    map.insert_with_type("value 1".to_string());
    map.insert_with_type("value 2");
    map.insert_with_type(123 as usize);
    map.insert_with_type(123.323 as f32);
    map.insert_with_type(true);

    // Can get typed data back
    let x = map.remove_with_type::<String>().unwrap();
    assert_eq!(x, "value 1".to_string());

    // Can't remove anything
    let x = map.remove_with_type::<Parameter>();
    assert!(x.is_none());

    assert_eq!(map.remove_with_type::<usize>().unwrap(), 123);
    assert_eq!(map.remove_with_type::<bool>().unwrap(), true); // overwrite data
}

#[test]
fn named_value_comes_back_unchanged() {
    let mut map = ParameterMap::new();
    assert!(map.insert_with_name("port", 8080u16).is_none());
    assert_eq!(map.remove_with_name::<u16>("port"), Some(8080u16));
    // it is gone now
    assert_eq!(map.remove_with_name::<u16>("port"), None);
}

#[test]
fn typed_value_comes_back_unchanged() {
    let mut map = ParameterMap::new();
    assert!(map.insert_with_type(vec![1u8, 2, 3]).is_none());
    assert_eq!(map.remove_with_type::<Vec<u8>>(), Some(vec![1u8, 2, 3]));
    assert_eq!(map.remove_with_type::<Vec<u8>>(), None);
}

#[test]
fn removal_from_an_empty_map_finds_nothing() {
    let mut map = ParameterMap::new();
    assert_eq!(map.remove_with_name::<String>("anything"), None);
    assert_eq!(map.remove_with_type::<String>(), None);
}

#[test]
fn wrong_type_leaves_the_value_in_place() {
    let mut map = ParameterMap::new();
    map.insert_with_name("key2", "a string".to_string());
    assert!(map.remove_with_name::<Parameter>("key2").is_none());
    assert!(map.remove_with_name::<usize>("key2").is_none());
    assert!(map.remove_with_name::<&str>("key2").is_none());
    // the string is still there for a caller who asks for a string
    assert_eq!(
        map.remove_with_name::<String>("key2"),
        Some("a string".to_string())
    );
}

#[test]
fn insert_hands_back_the_previous_value_of_the_same_type() {
    let mut map = ParameterMap::new();
    assert_eq!(map.insert_with_name("level", 1u32), None);
    assert_eq!(map.insert_with_name("level", 2u32), Some(1u32));
    assert_eq!(map.insert_with_type(10i64), None);
    assert_eq!(map.insert_with_type(20i64), Some(10i64));
    assert_eq!(map.remove_with_name::<u32>("level"), Some(2u32));
    assert_eq!(map.remove_with_type::<i64>(), Some(20i64));
}

#[test]
fn overwrite_with_another_type_loses_the_old_value() {
    let mut map = ParameterMap::new();
    map.insert_with_name("key4", 123.323 as f32);
    // the previous value is of another type: nothing is handed back
    assert_eq!(map.insert_with_name("key4", true), None);
    assert_eq!(map.remove_with_name::<f32>("key4"), None);
    assert_eq!(map.remove_with_name::<bool>("key4"), Some(true));
    assert_eq!(map.remove_with_name::<f32>("key4"), None);
}

#[test]
fn names_and_types_are_kept_apart() {
    let mut map = ParameterMap::new();
    map.insert_with_name("n", 1usize);
    map.insert_with_type(2usize);
    assert_eq!(map.remove_with_type::<usize>(), Some(2));
    assert_eq!(map.remove_with_name::<usize>("n"), Some(1));
}

#[test]
fn names_are_told_apart() {
    let mut map = ParameterMap::new();
    map.insert_with_name("a", 1u8);
    map.insert_with_name("b", 2u8);
    map.insert_with_name("", 3u8);
    assert_eq!(map.remove_with_name::<u8>("b"), Some(2));
    assert_eq!(map.remove_with_name::<u8>(""), Some(3));
    assert_eq!(map.remove_with_name::<u8>("a"), Some(1));
}

#[test]
fn one_value_for_each_type() {
    let mut map = ParameterMap::new();
    map.insert_with_type(1u8);
    map.insert_with_type(2u16);
    map.insert_with_type(3u8);
    assert_eq!(map.remove_with_type::<u16>(), Some(2));
    assert_eq!(map.remove_with_type::<u8>(), Some(3));
    assert_eq!(map.remove_with_type::<u8>(), None);
}

#[test]
fn explicit_insert_and_remove() {
    let mut map = ParameterMap::new();
    let key = Key::Name("depth".to_string());
    assert!(map
        .insert(Key::Name("depth".to_string()), Parameter::new("depth", 7usize))
        .is_none());

    // asking with another type's identity takes nothing out
    assert!(map.remove(&key, &TypeId::of::<u8>()).is_none());

    let parameter = map.remove(&key, &TypeId::of::<usize>()).unwrap();
    assert!(parameter.is_of(&TypeId::of::<usize>()));
    assert!(!parameter.is_of(&TypeId::of::<u8>()));
    assert_eq!(parameter.get_value::<usize>(), Some(7));

    assert!(map.remove(&key, &TypeId::of::<usize>()).is_none());
}

#[test]
fn explicit_insert_replaces() {
    let mut map = ParameterMap::new();
    map.insert(Key::Id(TypeId::of::<u8>()), Parameter::new("first", 1u8));
    let previous = map
        .insert(Key::Id(TypeId::of::<u8>()), Parameter::new("second", 2u8))
        .unwrap();
    assert_eq!(previous.get_value::<u8>(), Some(1));
    let current = map
        .remove(&Key::Id(TypeId::of::<u8>()), &TypeId::of::<u8>())
        .unwrap();
    assert_eq!(current.get_value::<u8>(), Some(2));
}

#[test]
fn a_parameter_gives_its_value_to_the_right_type_only() {
    assert_eq!(Parameter::new("p", 5u64).get_value::<u32>(), None);
    assert_eq!(Parameter::new("p", 5u64).get_value::<u64>(), Some(5));
    assert_eq!(
        Parameter::new("p", "text").get_value::<&str>(),
        Some("text")
    );
    assert_eq!(Parameter::new("p", "text").get_value::<String>(), None);
}

#[test]
fn a_parameter_of_another_type_comes_back_as_it_was() {
    let parameter = Parameter::new("p", 5u64);
    let back = match parameter.into_value::<u32>() {
        Ok(_) => panic!("a u64 is not a u32"),
        Err(back) => back,
    };
    assert!(back.is_of(&TypeId::of::<u64>()));
    match back.into_value::<u64>() {
        Ok(value) => assert_eq!(value, 5),
        Err(_) => panic!("the value was stored as a u64"),
    }
}

#[test]
fn a_map_can_be_printed() {
    let mut map = ParameterMap::new();
    map.insert_with_name("shown", 1u8);
    let text = format!("{:?}", map);
    assert!(text.contains("ParameterMap"));
    assert!(text.contains("shown"));
}
