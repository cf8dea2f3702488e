use attached::{GetVersion, Version};

#[test]
fn version_carries_its_number() {
    let v = Version("payload", 7);
    assert_eq!(v.get_version(), 7);
    assert_eq!(*v, "payload");
    assert_eq!((&v).get_version(), 7);
    assert_eq!(v.len(), 7);
}

#[test]
fn max_raises_the_version() {
    let mut seen = 3;
    let v = Version('a', 9).max(&mut seen);
    assert_eq!(seen, 9);
    assert_eq!((v.0, v.1), ('a', 9));
}

#[test]
fn max_keeps_a_larger_version() {
    let mut seen = 12;
    let v = Version('b', 9).max(&mut seen);
    assert_eq!(seen, 12);
    assert_eq!((v.0, v.1), ('b', 9));

    let mut same = 9;
    let _ = (&v).max(&mut same);
    assert_eq!(same, 9);
}
