use minmap::MinMap;
use std::cmp::min;
use std::collections::hash_map::RandomState;
use std::hash::{BuildHasherDefault, Hasher};

/// A hasher whose hash is the last integer written to it, so that a test
/// can choose the bucket of a key.
#[derive(Default)]
struct Identity(u64);

impl Hasher for Identity {
    fn finish(&self) -> u64 {
        self.0
    }

    fn write(&mut self, bytes: &[u8]) {
        for &byte in bytes {
            self.0 = (self.0 << 8) | u64::from(byte);
        }
    }

    fn write_u64(&mut self, i: u64) {
        self.0 = i;
    }

    fn write_usize(&mut self, i: usize) {
        self.0 = i as u64;
    }
}

type ByIdentity = BuildHasherDefault<Identity>;

const INITS: [usize; 5] = [0, 1, 10, 1000, usize::MAX];
const KEYS: [usize; 6] = [0, 1, 41, 42, 43, usize::MAX];
const VALUES: [usize; 6] = [0, 1, 9, 10, 11, usize::MAX];

#[test]
fn single_set() {
    for init in INITS {
        for k in KEYS {
            for v in VALUES {
                let mut map = MinMap::<usize, usize, RandomState, 42>::new(init);

                map.set(k, v);

                assert_eq!(map.get(k), min(init, v));
            }
        }
    }
}

#[test]
fn double_set() {
    for init in INITS {
        for k1 in KEYS {
            for k2 in KEYS {
                for v1 in VALUES {
                    for v2 in VALUES {
                        let mut map = MinMap::<usize, usize, RandomState, 42>::new(init);

                        map.set(k1, v1);
                        map.set(k2, v2);

                        if map.hash(k1) == map.hash(k2) {
                            assert_eq!(map.get(k1), min(init, min(v1, v2)));
                            assert_eq!(map.get(k2), min(init, min(v1, v2)));
                        } else {
                            assert_eq!(map.get(k1), min(init, v1));
                            assert_eq!(map.get(k2), min(init, v2));
                        }
                    }
                }
            }
        }
    }
}

#[test]
fn double_set_in_one_bucket() {
    for init in INITS {
        for v1 in VALUES {
            for v2 in VALUES {
                let mut map =
                    MinMap::<u64, usize, ByIdentity, 42>::with_hash_builder(
                        ByIdentity::default(),
                        init,
                    );
                assert_eq!(map.hash(3), map.hash(45));

                map.set(3, v1);
                map.set(45, v2);

                assert_eq!(map.get(3), min(init, min(v1, v2)));
                assert_eq!(map.get(45), min(init, min(v1, v2)));
            }
        }
    }
}

#[test]
fn double_set_in_two_buckets() {
    for init in INITS {
        for v1 in VALUES {
            for v2 in VALUES {
                let mut map =
                    MinMap::<u64, usize, ByIdentity, 42>::with_hash_builder(
                        ByIdentity::default(),
                        init,
                    );
                assert_ne!(map.hash(3), map.hash(4));

                map.set(3, v1);
                map.set(4, v2);

                assert_eq!(map.get(3), min(init, v1));
                assert_eq!(map.get(4), min(init, v2));
            }
        }
    }
}

#[test]
fn colliding_sets_equal_one_set_of_the_minimum() {
    for init in INITS {
        for v1 in VALUES {
            for v2 in VALUES {
                let mut both =
                    MinMap::<u64, usize, ByIdentity, 42>::with_hash_builder(
                        ByIdentity::default(),
                        init,
                    );
                let mut swapped =
                    MinMap::<u64, usize, ByIdentity, 42>::with_hash_builder(
                        ByIdentity::default(),
                        init,
                    );
                let mut first =
                    MinMap::<u64, usize, ByIdentity, 42>::with_hash_builder(
                        ByIdentity::default(),
                        init,
                    );
                let mut second =
                    MinMap::<u64, usize, ByIdentity, 42>::with_hash_builder(
                        ByIdentity::default(),
                        init,
                    );

                both.set(3, v1);
                both.set(45, v2);
                swapped.set(45, v2);
                swapped.set(3, v1);
                first.set(3, min(v1, v2));
                second.set(45, min(v1, v2));

                for bucket in 0..42 {
                    assert_eq!(both.slot(bucket), first.slot(bucket));
                    assert_eq!(both.slot(bucket), second.slot(bucket));
                    assert_eq!(both.slot(bucket), swapped.slot(bucket));
                }
            }
        }
    }
}

#[test]
fn scenario_with_zero_init_stays_at_zero() {
    let mut map = MinMap::<u64, u32, ByIdentity, 42>::with_hash_builder(ByIdentity::default(), 0);
    assert_eq!(map.hash(3), 3);

    map.set(3, 5);

    assert_eq!(map.get(3), 0);
    assert_eq!(map.get(45), 0);
    assert_eq!(map.get(87), 0);
}

#[test]
fn scenario_with_init_ten_decreases() {
    let mut map = MinMap::<u64, u32, ByIdentity, 42>::with_hash_builder(ByIdentity::default(), 10);
    assert_eq!(map.hash(3), 3);
    assert_eq!(map.hash(45), 3);
    assert_eq!(map.hash(87), 3);

    map.set(3, 5);
    assert_eq!(map.get(3), 5);
    assert_eq!(*map.slot(3), 5);

    map.set(45, 7);
    assert_eq!(map.get(3), 5);
    assert_eq!(map.get(45), 5);

    map.set(87, 2);
    assert_eq!(map.get(3), 2);
    assert_eq!(map.get(45), 2);
    assert_eq!(map.get(87), 2);

    for bucket in 0..42 {
        if bucket != 3 {
            assert_eq!(*map.slot(bucket), 10);
        }
    }
}

#[test]
fn string_keys_share_the_table() {
    let mut map = MinMap::<&str, i32, RandomState, 42>::new(10);

    map.set("a", 5);
    assert_eq!(map.get("a"), 5);

    map.set("a", 7);
    assert_eq!(map.get("a"), 5);

    map.set("a", -2);
    assert_eq!(map.get("a"), -2);
    assert_eq!(map["a"], -2);
}

#[test]
fn new_table_holds_init_everywhere() {
    let map = MinMap::<usize, isize, RandomState, 100>::new(123456789);

    for bucket in 0..100 {
        assert_eq!(*map.slot(bucket), 123456789);
    }
    for k in KEYS {
        assert_eq!(map.get(k), 123456789);
        assert_eq!(map[k], 123456789);
    }
}

#[test]
fn table_of_one_slot_merges_every_key() {
    let mut map = MinMap::<usize, usize, RandomState, 1>::new(100);

    for k in KEYS {
        assert_eq!(map.hash(k), 0);
    }
    map.set(7, 30);
    map.set(8, 20);
    map.set(9, 25);

    for k in KEYS {
        assert_eq!(map.get(k), 20);
    }
}

#[test]
fn get_never_goes_up() {
    let sets: [(usize, usize); 8] =
        [(1, 90), (2, 95), (1, 50), (43, 70), (1, 60), (85, 10), (2, 3), (1, 10)];
    let mut map = MinMap::<usize, usize, RandomState, 42>::new(80);
    let mut seen = [80usize; 6];

    for (k, v) in sets {
        map.set(k, v);
        for (i, key) in KEYS.into_iter().enumerate() {
            let now = map.get(key);
            assert!(now <= seen[i]);
            assert!(now <= 80);
            seen[i] = now;
        }
    }
}

#[test]
fn same_value_again_changes_nothing() {
    let mut map =
        MinMap::<u64, usize, ByIdentity, 42>::with_hash_builder(ByIdentity::default(), 50);

    map.set(5, 20);
    let before: Vec<usize> = (0..42).map(|bucket| *map.slot(bucket)).collect();
    map.set(5, 20);
    map.set(5, 21);
    map.set(47, usize::MAX);
    let after: Vec<usize> = (0..42).map(|bucket| *map.slot(bucket)).collect();

    assert_eq!(before, after);
}

#[test]
fn order_of_sets_does_not_matter() {
    let sets: [(u64, i64); 6] = [(3, 9), (45, -4), (4, 7), (87, 12), (4, -1), (46, 7)];
    let orders: [[usize; 6]; 4] =
        [[0, 1, 2, 3, 4, 5], [5, 4, 3, 2, 1, 0], [1, 3, 5, 0, 2, 4], [2, 0, 4, 1, 5, 3]];
    let mut tables: Vec<Vec<i64>> = Vec::new();

    for order in orders {
        let mut map =
            MinMap::<u64, i64, ByIdentity, 42>::with_hash_builder(ByIdentity::default(), 10);
        for i in order {
            map.set(sets[i].0, sets[i].1);
        }
        tables.push((0..42).map(|bucket| *map.slot(bucket)).collect());
    }

    for table in &tables {
        assert_eq!(table, &tables[0]);
        assert_eq!(table[3], -4);
        assert_eq!(table[4], -1);
        assert_eq!(table[5], 10);
    }
}

#[test]
fn get_and_hash_repeat_themselves() {
    let mut map = MinMap::<usize, usize, RandomState, 42>::new(10);
    map.set(17, 4);

    for k in KEYS {
        let bucket = map.hash(k);
        let value = map.get(k);
        for _ in 0..10 {
            assert_eq!(map.hash(k), bucket);
            assert_eq!(map.get(k), value);
            assert_eq!(map[k], value);
            assert_eq!(*map.slot(bucket), value);
        }
    }
}

#[test]
fn hash_stays_in_range() {
    let small = MinMap::<usize, usize, RandomState, 3>::new(0);
    let large = MinMap::<usize, usize, RandomState, 100_000>::new(0);

    for k in 0..1000 {
        assert!(small.hash(k) < 3);
        assert!(large.hash(k) < 100_000);
    }
}

#[test]
fn tables_with_one_hash_builder_agree_on_buckets() {
    let builder = RandomState::new();
    let one = MinMap::<usize, usize, RandomState, 42>::with_hash_builder(builder.clone(), 0);
    let other = MinMap::<usize, usize, RandomState, 42>::with_hash_builder(builder, 0);

    for k in 0..1000 {
        assert_eq!(one.hash(k), other.hash(k));
    }
}

#[test]
fn merge_keeps_the_minimum_of_a_bucket() {
    let mut map = MinMap::<usize, i32, RandomState, 8>::new(0);

    map.merge(5, 3);
    assert_eq!(*map.slot(5), 0);
    map.merge(5, -3);
    assert_eq!(*map.slot(5), -3);
    map.merge(5, -3);
    assert_eq!(*map.slot(5), -3);
    map.merge(5, -2);
    assert_eq!(*map.slot(5), -3);
    map.merge(7, i32::MIN);
    assert_eq!(*map.slot(7), i32::MIN);

    for bucket in [0, 1, 2, 3, 4, 6] {
        assert_eq!(*map.slot(bucket), 0);
    }
}

#[test]
fn slot_mut_writes_past_the_minimum() {
    let mut map = MinMap::<usize, i32, RandomState, 8>::new(0);

    *map.slot_mut(2) = 50;
    assert_eq!(*map.slot(2), 50);
    map.merge(2, 40);
    assert_eq!(*map.slot(2), 40);
    assert_eq!(*map.slot(1), 0);
    assert_eq!(*map.slot(3), 0);
}

#[test]
fn index_reads_what_get_reads() {
    let mut map = MinMap::<usize, usize, RandomState, 42>::new(10);

    for (k, v) in [(1, 5), (2, 20), (3, 0), (44, 7)] {
        map.set(k, v);
    }

    for k in 0..200 {
        assert_eq!(map[k], map.get(k));
    }
}

#[test]
fn index_mut_writes_past_the_minimum() {
    let mut map = MinMap::<usize, usize, RandomState, 42>::new(10);

    map[7] = 99;
    assert_eq!(map.get(7), 99);
    assert_eq!(map[7], 99);

    map.set(7, 100);
    assert_eq!(map.get(7), 99);

    map[7] += 1;
    assert_eq!(map.get(7), 100);

    let bucket = map.hash(7);
    for other in 0..42 {
        if other != bucket {
            assert_eq!(*map.slot(other), 10);
        }
    }
}
