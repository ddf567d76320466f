use one_or_many::OneOrMany;

fn collect_refs(c: &OneOrMany<String>) -> Vec<String> {
    let mut out = Vec::new();
    let mut it = c.iter();
    while let Some(x) = it.next() {
        out.push(x.clone());
    }
    out
}

#[test]
fn test_single() {
    let one_or_many = OneOrMany::one("hello".to_string());

    let mut count = 0;
    let mut it = one_or_many.iter();
    while let Some(i) = it.next() {
        count += 1;
        assert_eq!(i, "hello");
    }
    assert_eq!(count, 1);
}

#[test]
fn test() {
    let one_or_many = OneOrMany::many(vec!["hello".to_string(), "word".to_string()]).unwrap();

    let mut count = 0;
    let mut it = one_or_many.iter();
    while let Some(item) = it.next() {
        if count == 0 {
            assert_eq!(item, "hello");
        }
        if count == 1 {
            assert_eq!(item, "word");
        }
        count += 1;
    }
    assert_eq!(count, 2);
}

#[test]
fn test_one_or_many_into_iter_single() {
    let one_or_many = OneOrMany::one("hello".to_string());

    let mut count = 0;
    let mut it = one_or_many.clone().into_iter();
    while let Some(_) = it.next() {
        count += 1;
    }
    assert_eq!(count, 1);

    let mut it = one_or_many.into_iter();
    while let Some(i) = it.next() {
        assert_eq!(i, "hello".to_string());
    }
}

#[test]
fn test_one_or_many_into_iter() {
    let one_or_many = OneOrMany::many(vec!["hello".to_string(), "word".to_string()]).unwrap();

    let mut count = 0;
    let mut it = one_or_many.clone().into_iter();
    while let Some(_) = it.next() {
        count += 1;
    }
    assert_eq!(count, 2);

    let mut i = 0;
    let mut it = one_or_many.into_iter();
    while let Some(item) = it.next() {
        if i == 0 {
            assert_eq!(item, "hello".to_string());
        }
        if i == 1 {
            assert_eq!(item, "word".to_string());
        }
        i += 1;
    }
}

#[test]
fn test_one_or_many_merge() {
    let one_or_many_1 = OneOrMany::many(vec!["hello".to_string(), "word".to_string()]).unwrap();

    let one_or_many_2 = OneOrMany::one("sup".to_string());

    let merged = OneOrMany::merge(vec![one_or_many_1, one_or_many_2]).unwrap();

    let items = collect_refs(&merged);
    assert_eq!(items.len(), 3);
    assert_eq!(items[0], "hello");
    assert_eq!(items[1], "word");
    assert_eq!(items[2], "sup");
}

#[test]
fn test_mut_single() {
    let mut one_or_many = OneOrMany::one("hello".to_string());

    let mut count = 0;
    let mut it = one_or_many.iter_mut();
    while let Some(i) = it.next() {
        count += 1;
        assert_eq!(i, "hello");
    }
    assert_eq!(count, 1);
}

#[test]
fn test_mut() {
    let mut one_or_many = OneOrMany::many(vec!["hello".to_string(), "word".to_string()]).unwrap();

    let mut count = 0;
    let mut it = one_or_many.iter_mut();
    while let Some(_) = it.next() {
        count += 1;
    }
    assert_eq!(count, 2);

    let mut i = 0;
    let mut it = one_or_many.iter_mut();
    while let Some(item) = it.next() {
        if i == 0 {
            item.push_str(" world");
            assert_eq!(item, "hello world");
        }
        if i == 1 {
            assert_eq!(item, "word");
        }
        i += 1;
    }
}

#[test]
fn test_one_or_many_error() {
    assert!(OneOrMany::<String>::many(vec![]).is_err())
}

#[test]
fn test_len_single() {
    let one_or_many = OneOrMany::one("hello".to_string());

    assert_eq!(one_or_many.len(), 1);
}

#[test]
fn test_len_many() {
    let one_or_many = OneOrMany::many(vec!["hello".to_string(), "word".to_string()]).unwrap();

    assert_eq!(one_or_many.len(), 2);
}

#[test]
fn test_many_keeps_order() {
    let c = OneOrMany::many(vec![10u32, 20, 30]).unwrap();
    assert_eq!(c.len(), 3);
    assert_eq!(c.first(), 10);
    assert_eq!(c.rest(), vec![20, 30]);
}

#[test]
fn test_is_empty_always_false() {
    let single = OneOrMany::one(1u8);
    assert!(!single.is_empty());
    let several = OneOrMany::many(vec![1u8, 2, 3]).unwrap();
    assert!(!several.is_empty());
}

#[test]
fn test_push_appends_at_end() {
    let mut c = OneOrMany::one("a".to_string());
    c.push("b".to_string());
    c.push("c".to_string());
    assert_eq!(c.len(), 3);
    assert_eq!(c.first(), "a");
    assert_eq!(c.rest(), vec!["b".to_string(), "c".to_string()]);
}

#[test]
fn test_insert_at_zero_replaces_head() {
    let mut c = OneOrMany::many(vec!["a".to_string(), "b".to_string(), "c".to_string()]).unwrap();
    c.insert(0, "y".to_string());
    assert_eq!(c.first(), "y");
    assert_eq!(c.rest(), vec!["a".to_string(), "b".to_string(), "c".to_string()]);
}

#[test]
fn test_insert_in_tail() {
    let mut c = OneOrMany::many(vec!["a".to_string(), "c".to_string()]).unwrap();
    c.insert(1, "b".to_string());
    assert_eq!(c.first(), "a");
    assert_eq!(c.rest(), vec!["b".to_string(), "c".to_string()]);
    c.insert(3, "d".to_string());
    assert_eq!(c.rest(), vec!["b".to_string(), "c".to_string(), "d".to_string()]);
}

#[test]
fn test_merge_empty_list_fails() {
    assert!(OneOrMany::<String>::merge(vec![]).is_err());
}

#[test]
fn test_error_message() {
    let e = OneOrMany::<String>::many(vec![]).unwrap_err();
    assert_eq!(e.message(), "Cannot create OneOrMany with an empty vector.");
}

#[test]
fn test_map_preserves_length_and_order() {
    let c = OneOrMany::many(vec![1u32, 2, 3]).unwrap();
    let doubled = c.map(|x: u32| x.wrapping_mul(2));
    assert_eq!(doubled.len(), 3);
    assert_eq!(doubled.first(), 2);
    assert_eq!(doubled.rest(), vec![4, 6]);
}

#[test]
fn test_try_map_success_keeps_length() {
    let c = OneOrMany::many(vec![1u32, 2, 3]).unwrap();
    let r: Result<OneOrMany<u32>, String> = c.try_map(|x: u32| Ok(x.wrapping_add(1)));
    let mapped = r.unwrap();
    assert_eq!(mapped.len(), 3);
    assert_eq!(mapped.first(), 2);
    assert_eq!(mapped.rest(), vec![3, 4]);
}

#[test]
fn test_try_map_short_circuits_on_first_element() {
    let calls = std::cell::Cell::new(0u32);
    let c = OneOrMany::many(vec![1u32, 2, 3]).unwrap();
    let r: Result<OneOrMany<u32>, String> = c.try_map(|_x: u32| {
        calls.set(calls.get() + 1);
        Err("boom".to_string())
    });
    assert_eq!(r.unwrap_err(), "boom");
    assert_eq!(calls.get(), 1);
}

#[test]
fn test_try_map_propagates_later_error() {
    let c = OneOrMany::many(vec![1u32, 2, 3]).unwrap();
    let r: Result<OneOrMany<u32>, String> = c.try_map(|x: u32| {
        if x == 3 {
            Err("three".to_string())
        } else {
            Ok(x)
        }
    });
    assert_eq!(r.unwrap_err(), "three");
}

#[test]
fn test_mutation_visible_in_later_iteration() {
    let mut c = OneOrMany::many(vec!["a".to_string(), "b".to_string()]).unwrap();
    let mut it = c.iter_mut();
    while let Some(x) = it.next() {
        x.push('!');
    }
    drop(it);
    let items = collect_refs(&c);
    assert_eq!(items, vec!["a!".to_string(), "b!".to_string()]);
}

#[test]
fn test_get_by_index() {
    let c = OneOrMany::many(vec!["a".to_string(), "b".to_string()]).unwrap();
    assert_eq!(c.get(0), "a");
    assert_eq!(c.get(1), "b");
}

#[test]
fn test_iter_restartable() {
    let c = OneOrMany::one(7u64);
    let mut it = c.iter();
    assert_eq!(it.next(), Some(&7));
    assert_eq!(it.next(), None);
    let mut it2 = c.iter();
    assert_eq!(it2.next(), Some(&7));
}

#[test]
fn test_join_with_spaces() {
    let c = OneOrMany::many(vec!["hello".to_string(), "big".to_string(), "world".to_string()])
        .unwrap();
    assert_eq!(c.join_with_spaces(), "hello big world");
    let single = OneOrMany::one("solo".to_string());
    assert_eq!(single.join_with_spaces(), "solo");
}

#[test]
fn test_set_via_mutable_iteration() {
    let mut c = OneOrMany::many(vec!["a".to_string(), "b".to_string(), "c".to_string()]).unwrap();
    c.set(1, "B".to_string());
    assert_eq!(
        collect_refs(&c),
        vec!["a".to_string(), "B".to_string(), "c".to_string()]
    );
    c.set(0, "A".to_string());
    c.set(2, "C".to_string());
    assert_eq!(
        collect_refs(&c),
        vec!["A".to_string(), "B".to_string(), "C".to_string()]
    );
}
