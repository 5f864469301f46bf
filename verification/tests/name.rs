use lib::name::NameTable;

#[test]
fn interning_is_stable() {
    let mut t = NameTable::new();
    let a = t.intern("Nat");
    let b = t.intern("Nat");
    let c = t.intern("Bool");
    assert_eq!(a, b);
    assert_ne!(a, c);
}

#[test]
fn resolve_roundtrip() {
    let mut t = NameTable::new();
    let id = t.intern("theoria");
    assert_eq!(t.resolve(id), "theoria");
}

#[test]
fn distinct_names_are_distinct() {
    let mut t = NameTable::new();
    let ids: Vec<_> = (0..100).map(|i| t.intern(&i.to_string())).collect();
    for (i, a) in ids.iter().enumerate() {
        for (j, b) in ids.iter().enumerate() {
            if i == j {
                assert_eq!(a, b);
            } else {
                assert_ne!(a, b);
            }
        }
    }
}

#[test]
fn new_names_take_the_next_identifier() {
    let mut t = NameTable::default();
    assert!(t.is_empty());
    let a = t.intern("a");
    let b = t.intern("b");
    assert_eq!(a.0, 0);
    assert_eq!(b.0, 1);
    assert_eq!(t.intern("a"), a);
    assert_eq!(t.len(), 2);
}
