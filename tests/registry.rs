use raytr::registry::Registry;

#[test]
fn handles_name_what_was_added() {
    let mut table = Registry::new();
    assert_eq!(table.len(), 0);
    let a = table.add("ground");
    let b = table.add("glass");
    assert_eq!(a.index, 0);
    assert_eq!(b.index, 1);
    assert_eq!(table.len(), 2);
    assert_eq!(*table.get(a), "ground");
    assert_eq!(*table.get(b), "glass");
}

#[test]
fn handles_stay_valid_after_more_additions() {
    let mut table = Registry::new();
    let first = table.add(10u32);
    for k in 0..100u32 {
        table.add(k);
    }
    assert_eq!(*table.get(first), 10);
    assert_eq!(table.len(), 101);
}

#[test]
fn one_entry_shared_by_several_holders() {
    let mut table = Registry::new();
    let metal = table.add(vec![7u8, 6, 5]);
    let holders = [metal, metal, metal];
    for h in holders {
        assert_eq!(table.get(h), &vec![7u8, 6, 5]);
    }
}
