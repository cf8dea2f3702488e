use attached::node::{node_len, MIN_SLOTS};
use attached::{Cnt, Node, Var, VarCnt, Vars};
use std::sync::atomic::{AtomicUsize, Ordering::SeqCst};
use std::sync::OnceLock;

#[test]
fn node_len_covers_what_is_issued() {
    assert_eq!(MIN_SLOTS, 256);
    assert_eq!(node_len(0, 0, 256), 256);
    assert_eq!(node_len(256, 0, 256), 256);
    assert_eq!(node_len(257, 0, 256), 257);
    assert_eq!(node_len(1000, 100, 256), 900);
    assert_eq!(node_len(356, 100, 256), 256);
    assert_eq!(node_len(357, 100, 256), 257);
}

#[test]
fn node_len_behind_what_is_issued_is_the_least() {
    assert_eq!(node_len(100, 1000, 256), 256);
    assert_eq!(node_len(0, usize::MAX, 256), 256);
    assert_eq!(node_len(usize::MAX, usize::MAX, 300), 300);
}

#[test]
fn node_len_is_never_below_the_least() {
    assert_eq!(node_len(600, 300, 300), 300);
    assert_eq!(node_len(601, 300, 300), 301);
    assert_eq!(node_len(usize::MAX, 0, 256), usize::MAX);
}

#[test]
fn node_slot_mut_does_not_extend_the_chain() {
    struct D;

    impl VarCnt for D {
        fn var_cnt() -> &'static Cnt {
            static CNT: OnceLock<Cnt> = OnceLock::new();
            CNT.get_or_init(Cnt::new)
        }
    }

    let mut node: Node<D, u8> = Node::with_offset(0);
    assert!(node.slot_mut(0).is_some());
    assert!(node.slot_mut(255).is_some());
    assert!(node.slot_mut(256).is_none());
    assert!(node.slot_mut(10_000).is_none());
    assert!(node.slot(256).is_none());
}

#[test]
fn node_slot_or_init_mut_extends_the_chain_node_by_node() {
    struct D;

    impl VarCnt for D {
        fn var_cnt() -> &'static Cnt {
            static CNT: OnceLock<Cnt> = OnceLock::new();
            CNT.get_or_init(Cnt::new)
        }
    }

    let mut node: Node<D, u8> = Node::with_offset(0);
    assert_eq!(node.slot_or_init_mut(3).replace(Some(1)), None);
    assert_eq!(node.slot_or_init_mut(700).replace(Some(2)), None);

    // three nodes of 256 slots now: 0.., 256.., 512..
    assert!(node.slot(767).is_some());
    assert!(node.slot(768).is_none());
    assert_eq!(node.slot(3).and_then(|s| s.get()), Some(&1));
    assert_eq!(node.slot(700).and_then(|s| s.get()), Some(&2));
    assert_eq!(node.slot(699).and_then(|s| s.get()), None);
    assert_eq!(node.slot_mut(700).and_then(|s| s.get_mut()), Some(&mut 2));
    assert_eq!(node.slot_or_init_mut(700).replace(None), Some(2));
    assert_eq!(node.slot_or_init(700).get(), None);
    assert_eq!(node.slot(3).and_then(|s| s.get()), Some(&1));
}

#[test]
fn node_shared_growth_keeps_slots_in_place() {
    struct D;

    impl VarCnt for D {
        fn var_cnt() -> &'static Cnt {
            static CNT: OnceLock<Cnt> = OnceLock::new();
            CNT.get_or_init(Cnt::new)
        }
    }

    let node: Node<D, u32> = Node::with_offset(0);
    let near = node.slot_or_init(1);
    let seen = near.get_or_init(|| 11);
    let far = node.slot_or_init(5000);
    assert_eq!(*far.get_or_init(|| 55), 55);
    assert!(std::ptr::eq(near, node.slot(1).unwrap()));
    assert!(std::ptr::eq(far, node.slot_or_init(5000)));
    assert!(std::ptr::eq(seen, node.slot(1).unwrap().get().unwrap()));
    assert_eq!(*seen, 11);
}

#[test]
fn store_without_values_drops_nothing() {
    static DROPS: AtomicUsize = AtomicUsize::new(0);

    struct Noisy;

    impl Drop for Noisy {
        fn drop(&mut self) {
            DROPS.fetch_add(1, SeqCst);
        }
    }

    struct D;

    impl VarCnt for D {
        fn var_cnt() -> &'static Cnt {
            static CNT: OnceLock<Cnt> = OnceLock::new();
            CNT.get_or_init(Cnt::new)
        }
    }

    let a: Var<Noisy, D> = Var::new();
    let b: Var<Noisy, D> = Var::new();

    let mut c = Vars::<D, Noisy>::new();
    assert!(c.get(&a).is_none());
    c.clear(&b);
    drop(c);
    assert_eq!(DROPS.load(SeqCst), 0);

    // every value that a store holds is dropped with it, once
    let mut c = Vars::<D, Noisy>::new();
    c.get_or_init(&a, || Noisy);
    c.get_or_init(&a, || Noisy);
    assert_eq!(DROPS.load(SeqCst), 0);
    c.get_or_init_mut(&b, || Noisy);
    drop(c.replace(&b, Some(Noisy)));
    assert_eq!(DROPS.load(SeqCst), 1);
    drop(c);
    assert_eq!(DROPS.load(SeqCst), 3);
}

#[test]
fn node_sized_has_as_many_slots_as_node_len_says() {
    struct D;

    impl VarCnt for D {
        fn var_cnt() -> &'static Cnt {
            static CNT: OnceLock<Cnt> = OnceLock::new();
            CNT.get_or_init(Cnt::new)
        }
    }

    // count 1, behind the node: the least
    let n: Node<D, u8> = Node::sized(1, 256, 256);
    assert_eq!(n.len(), 256);
    assert!(n.slot(256).is_some());
    assert!(n.slot(511).is_some());
    assert!(n.slot(512).is_none());
    for id in 256..512 {
        assert!(n.slot(id).unwrap().get().is_none());
    }

    // count 1000, offset 100: room for all that are issued
    let n: Node<D, u8> = Node::sized(1000, 100, 256);
    assert_eq!(n.len(), 900);
    assert!(n.slot(999).is_some());
    assert!(n.slot(1000).is_none());

    // never fewer than the least
    let n: Node<D, u8> = Node::sized(700, 300, 512);
    assert_eq!(n.len(), 512);
    assert!(n.slot(811).is_some());
    assert!(n.slot(812).is_none());
}

#[test]
fn node_with_offset_behind_the_count_has_the_least() {
    struct One;

    impl VarCnt for One {
        fn var_cnt() -> &'static Cnt {
            static CNT: OnceLock<Cnt> = OnceLock::new();
            CNT.get_or_init(Cnt::new)
        }
    }

    let _: Var<u8, One> = Var::new();
    assert_eq!(One::var_cnt().cur(), 1);

    let n: Node<One, u8> = Node::with_offset(256);
    assert_eq!(n.len(), 256);
    assert!(n.slot(256).is_some());
    assert!(n.slot(511).is_some());
    assert!(n.slot(512).is_none());
    for id in 256..512 {
        assert!(n.slot(id).unwrap().get().is_none());
    }
    assert_eq!(One::var_cnt().cur(), 1);
}

#[test]
fn node_slot_finds_a_successor_that_was_linked_and_left_empty() {
    struct D;

    impl VarCnt for D {
        fn var_cnt() -> &'static Cnt {
            static CNT: OnceLock<Cnt> = OnceLock::new();
            CNT.get_or_init(Cnt::new)
        }
    }

    let mut node: Node<D, u8> = Node::sized(0, 0, 256);
    assert_eq!(node.slot_or_init_mut(300).replace(Some(1)), None);
    assert_eq!(node.slot_or_init_mut(300).replace(None), Some(1));
    assert!(node.slot(300).is_some());
    assert!(node.slot(511).is_some());
    assert!(node.slot(512).is_none());
    assert!(node.slot(300).unwrap().get().is_none());
}
