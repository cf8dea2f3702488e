use attached::{Cnt, Node, Var, VarCnt, Vars};
use std::sync::atomic::{AtomicUsize, Ordering::Relaxed, Ordering::SeqCst};
use std::sync::OnceLock;

struct MyCtx;

impl VarCnt for MyCtx {
    fn var_cnt() -> &'static Cnt {
        static CNT: OnceLock<Cnt> = OnceLock::new();
        CNT.get_or_init(Cnt::new)
    }
}

fn vec_var() -> &'static Var<Vec<u8>, MyCtx> {
    static V: OnceLock<Var<Vec<u8>, MyCtx>> = OnceLock::new();
    V.get_or_init(Var::new)
}

#[test]
fn mod_value_lifecycle() {
    static CREATE_COUNT: AtomicUsize = AtomicUsize::new(0);
    static DROP_COUNT: AtomicUsize = AtomicUsize::new(0);

    struct MY;

    impl VarCnt for MY {
        fn var_cnt() -> &'static Cnt {
            static CNT: OnceLock<Cnt> = OnceLock::new();
            CNT.get_or_init(Cnt::new)
        }
    }

    struct LifeCheck;

    impl Default for LifeCheck {
        fn default() -> Self {
            CREATE_COUNT.fetch_add(1, Relaxed);
            Self
        }
    }

    impl Drop for LifeCheck {
        fn drop(&mut self) {
            DROP_COUNT.fetch_add(1, Relaxed);
        }
    }

    let v: Var<LifeCheck, MY> = Var::new();

    let ctx = Vars::<MY, LifeCheck>::new();

    // values are lazy created. Nothing should be created yet.
    assert_eq!(CREATE_COUNT.load(Relaxed), 0);

    // creates and keeps a reference to LifeCheck.
    let _ = ctx.get_or_init(&v, LifeCheck::default);
    assert_eq!(CREATE_COUNT.load(Relaxed), 1);
    assert_eq!(DROP_COUNT.load(Relaxed), 0);

    // should get the same instance of LifeCheck
    let _ = ctx.get_or_init(&v, LifeCheck::default);
    assert_eq!(CREATE_COUNT.load(Relaxed), 1);
    assert_eq!(DROP_COUNT.load(Relaxed), 0);

    // values should be dropped.
    drop(ctx);
    assert_eq!(CREATE_COUNT.load(Relaxed), 1);
    assert_eq!(DROP_COUNT.load(Relaxed), 1);
}

/// A byte vector that counts how many of its kind are alive.
struct Counted {
    bytes: Vec<u8>,
    live: &'static AtomicUsize,
}

impl Counted {
    fn new(bytes: Vec<u8>, live: &'static AtomicUsize) -> Self {
        live.fetch_add(1, SeqCst);
        Counted { bytes, live }
    }
}

impl Drop for Counted {
    fn drop(&mut self) {
        self.live.fetch_sub(1, SeqCst);
    }
}

#[test]
fn heap_var_drop() {
    static LIVE: AtomicUsize = AtomicUsize::new(0);

    struct Heap;

    impl VarCnt for Heap {
        fn var_cnt() -> &'static Cnt {
            static CNT: OnceLock<Cnt> = OnceLock::new();
            CNT.get_or_init(Cnt::new)
        }
    }

    let v: Var<Counted, Heap> = Var::new();

    // instanciate the ctx
    let c = Vars::<Heap, Counted>::new();

    // instanciate the vec inside the ctx
    c.get_or_init(&v, || Counted::new(vec![0, 1, 2, 3, 4], &LIVE));

    // drop the context.
    drop(c);

    assert_eq!(LIVE.load(SeqCst), 0);

    let mut c = Vars::<Heap, Counted>::new();

    assert_eq!(LIVE.load(SeqCst), 0);

    c.get_or_init(&v, || Counted::new(vec![0, 1, 2, 3, 4], &LIVE));

    assert_eq!(LIVE.load(SeqCst), 1);

    c.get_or_init(&v, || Counted::new(vec![0, 1, 2, 3, 4], &LIVE));

    assert_eq!(LIVE.load(SeqCst), 1);

    let prev = c.replace(&v, Some(Counted::new(vec![], &LIVE)));
    assert_eq!(prev.as_ref().map(|p| p.bytes.clone()), Some(vec![0, 1, 2, 3, 4]));
    drop(prev);

    assert_eq!(LIVE.load(SeqCst), 1);

    let prev = c.replace(&v, Some(Counted::new(vec![0, 1, 2, 3, 4], &LIVE)));
    assert_eq!(prev.as_ref().map(|p| p.bytes.clone()), Some(vec![]));
    drop(prev);

    assert_eq!(LIVE.load(SeqCst), 1);

    drop(c);

    assert_eq!(LIVE.load(SeqCst), 0);
}

#[test]
fn vars_get_is_none_until_initialized() {
    let c = Vars::<MyCtx, Vec<u8>>::new();
    assert!(c.get(vec_var()).is_none());
    c.get_or_init(vec_var(), || vec![1]);
    assert_eq!(c.get(vec_var()), Some(&vec![1]));
}

#[test]
fn vars_get_or_init_keeps_first_value() {
    let c = Vars::<MyCtx, Vec<u8>>::new();
    let first = c.get_or_init(vec_var(), || vec![9, 2]);
    let second = c.get_or_init(vec_var(), || vec![6, 2]);
    assert_eq!(first, &vec![9, 2]);
    assert!(std::ptr::eq(first, second));
    assert!(std::ptr::eq(first, c.get(vec_var()).unwrap()));
}

#[test]
fn vars_reentrant_init_inner_call_wins() {
    struct Re;

    impl VarCnt for Re {
        fn var_cnt() -> &'static Cnt {
            static CNT: OnceLock<Cnt> = OnceLock::new();
            CNT.get_or_init(Cnt::new)
        }
    }

    let v: Var<Box<i32>, Re> = Var::new();
    let c = Vars::<Re, Box<i32>>::new();

    let r = c.get_or_init(&v, || {
        c.get_or_init(&v, || Box::new(92));
        Box::new(62)
    });

    assert_eq!(**r, 92);
    assert_eq!(c.get(&v).map(|b| **b), Some(92));
}

#[test]
fn vars_replace_take_clear() {
    let mut c = Vars::<MyCtx, Vec<u8>>::new();
    assert_eq!(c.replace(vec_var(), Some(vec![1])), None);
    assert_eq!(c.replace(vec_var(), Some(vec![2])), Some(vec![1]));
    assert_eq!(c.take(vec_var()), Some(vec![2]));
    assert_eq!(c.take(vec_var()), None);
    assert!(c.get(vec_var()).is_none());
    c.get_or_init(vec_var(), || vec![3]);
    c.clear(vec_var());
    assert!(c.get(vec_var()).is_none());
    assert!(c.get_mut(vec_var()).is_none());
    c.clear(vec_var());
}

#[test]
fn vars_get_mut_and_get_or_init_mut() {
    let mut c = Vars::<MyCtx, Vec<u8>>::new();
    assert!(c.get_mut(vec_var()).is_none());
    c.get_or_init_mut(vec_var(), || vec![9]).push(2);
    assert_eq!(c.get_or_init_mut(vec_var(), || vec![]), &mut vec![9, 2]);
    c.get_mut(vec_var()).unwrap().push(0);
    assert_eq!(c.get(vec_var()), Some(&vec![9, 2, 0]));
}

#[test]
fn vars_grow_for_late_variables_and_keep_references() {
    struct Late;

    impl VarCnt for Late {
        fn var_cnt() -> &'static Cnt {
            static CNT: OnceLock<Cnt> = OnceLock::new();
            CNT.get_or_init(Cnt::new)
        }
    }

    let first: Var<usize, Late> = Var::new();
    let c = Vars::<Late, usize>::new();
    let kept = c.get_or_init(&first, || 7);

    // declared after the store was made, and beyond its first node
    let mut late: Vec<Var<usize, Late>> = Vec::new();
    for _ in 0..600 {
        late.push(Var::new());
    }
    assert_eq!(late[599].id(), 600);
    for var in late.iter() {
        assert!(c.get(var).is_none());
    }
    for var in late.iter() {
        assert_eq!(*c.get_or_init(var, || var.id() * 2), var.id() * 2);
    }
    for var in late.iter() {
        assert_eq!(c.get(var), Some(&(var.id() * 2)));
    }

    assert_eq!(*kept, 7);
    assert!(std::ptr::eq(kept, c.get(&first).unwrap()));
}

#[test]
fn vars_grow_under_exclusive_access() {
    struct Wide;

    impl VarCnt for Wide {
        fn var_cnt() -> &'static Cnt {
            static CNT: OnceLock<Cnt> = OnceLock::new();
            CNT.get_or_init(Cnt::new)
        }
    }

    let mut c = Vars::<Wide, usize>::new();
    let vars: Vec<Var<usize, Wide>> = (0..1000).map(|_| Var::new()).collect();

    // nothing is there for a read or a clear
    assert!(c.get_mut(&vars[999]).is_none());
    c.clear(&vars[999]);

    // a take extends it as far as its variable
    assert_eq!(c.take(&vars[700]), None);

    assert_eq!(c.replace(&vars[999], Some(1)), None);
    assert_eq!(c.replace(&vars[0], Some(2)), None);
    *c.get_or_init_mut(&vars[300], || 3) += 10;
    assert_eq!(c.get(&vars[999]), Some(&1));
    assert_eq!(c.get(&vars[0]), Some(&2));
    assert_eq!(c.get(&vars[300]), Some(&13));
    assert_eq!(c.get(&vars[301]), None);
    assert_eq!(c.take(&vars[999]), Some(1));
    assert_eq!(c.get(&vars[999]), None);
}

#[test]
fn node_with_offset_has_at_least_256_slots() {
    struct Small;

    impl VarCnt for Small {
        fn var_cnt() -> &'static Cnt {
            static CNT: OnceLock<Cnt> = OnceLock::new();
            CNT.get_or_init(Cnt::new)
        }
    }

    let node: Node<Small, u8> = Node::with_offset(0);
    assert!(node.slot(0).is_some());
    assert!(node.slot(255).is_some());
    assert!(node.slot(256).is_none());
    assert!(node.slot_or_init(256).get().is_none());
    assert!(node.slot(256).is_some());
    assert!(node.slot(511).is_some());
    assert!(node.slot(512).is_none());
}

#[test]
fn node_with_offset_covers_all_issued_identifiers() {
    struct Big;

    impl VarCnt for Big {
        fn var_cnt() -> &'static Cnt {
            static CNT: OnceLock<Cnt> = OnceLock::new();
            CNT.get_or_init(Cnt::new)
        }
    }

    for _ in 0..300 {
        let _: Var<u8, Big> = Var::new();
    }
    let node: Node<Big, u8> = Node::with_offset(0);
    assert!(node.slot(299).is_some());
    assert!(node.slot(300).is_none());

    // the node that follows is no smaller
    assert!(node.slot_or_init(300).get().is_none());
    assert!(node.slot(599).is_some());
    assert!(node.slot(600).is_none());

    let node: Node<Big, u8> = Node::with_offset(100);
    assert!(node.slot(355).is_some());
    assert!(node.slot(356).is_none());
}

#[test]
fn var_side_operations() {
    struct Side;

    impl VarCnt for Side {
        fn var_cnt() -> &'static Cnt {
            static CNT: OnceLock<Cnt> = OnceLock::new();
            CNT.get_or_init(Cnt::new)
        }
    }

    let v: Var<String, Side> = Var::new();
    let mut c = Vars::<Side, String>::default();

    assert_eq!(v.get(&c), None);
    assert_eq!(v.get_mut(&mut c), None);
    assert_eq!(v.take(&mut c), None);
    assert_eq!(v.get_or_init(&c, || "a".to_string()), "a");
    assert_eq!(v.get_or_init(&c, || "b".to_string()), "a");
    v.get_or_init_mut(&mut c, || "c".to_string()).push('d');
    assert_eq!(v.get(&c).map(String::as_str), Some("ad"));
    assert_eq!(v.replace(&mut c, Some("e".to_string())), Some("ad".to_string()));
    v.get_mut(&mut c).unwrap().push('f');
    assert_eq!(v.take(&mut c), Some("ef".to_string()));
    assert_eq!(v.get_or_init_mut(&mut c, || "g".to_string()), "g");
    assert_eq!(v.replace(&mut c, None), Some("g".to_string()));
    assert_eq!(v.get(&c), None);
}

#[test]
fn vars_with_capacity_has_room_for_the_count() {
    struct Roomy;

    impl VarCnt for Roomy {
        fn var_cnt() -> &'static Cnt {
            static CNT: OnceLock<Cnt> = OnceLock::new();
            CNT.get_or_init(Cnt::new)
        }
    }

    assert_eq!(Vars::<Roomy, u8>::with_capacity(0).capacity(), 256);
    assert_eq!(Vars::<Roomy, u8>::with_capacity(255).capacity(), 256);
    assert_eq!(Vars::<Roomy, u8>::with_capacity(600).capacity(), 600);

    assert_eq!(Vars::<Roomy, u8>::new().capacity(), 256);
    let vars: Vec<Var<u8, Roomy>> = (0..400).map(|_| Var::new()).collect();
    let c = Vars::<Roomy, u8>::new();
    assert_eq!(c.capacity(), 400);
    assert!(c.get(&vars[399]).is_none());
    assert_eq!(*c.get_or_init(&vars[399], || 9), 9);
}
