use iot_auth::device::{Config, Error, Event, IotDevice};
use iot_auth::id_gen::gen_unique_id;
use iot_auth::registry::Pallet;

fn id(tag: u8) -> [u8; 16] {
    let mut v = [0u8; 16];
    v[0] = tag;
    v
}

#[test]
fn fresh_registry_is_empty() {
    let p = Pallet::new(Config { max_owned: 3 });
    assert_eq!(p.count(), 0);
    assert_eq!(p.max_owned(), 3);
    assert!(p.event_log().is_empty());
    assert!(!p.contains(&id(1)));
    assert_eq!(p.get(&id(1)), None);
    assert!(p.owned_device_ids(7).is_empty());
}

#[test]
fn scenario_two_owned_then_limit() {
    let a: u64 = 1;
    let mut p = Pallet::new(Config { max_owned: 2 });

    let x1 = id(10);
    assert_eq!(p.mint(a, x1), Ok(x1));
    assert_eq!(p.count(), 1);
    assert_eq!(p.owned_device_ids(a), vec![x1]);

    // Forcing the generator to repeat the same identifier fails.
    assert_eq!(p.mint(a, x1), Err(Error::DuplicateDevices));
    assert_eq!(p.count(), 1);
    assert_eq!(p.owned_device_ids(a), vec![x1]);

    let x2 = id(20);
    assert_eq!(p.mint(a, x2), Ok(x2));
    assert_eq!(p.count(), 2);
    assert_eq!(p.owned_device_ids(a), vec![x1, x2]);

    // A third device for the same owner exceeds the capacity.
    let x3 = id(30);
    assert_eq!(p.mint(a, x3), Err(Error::MaximumDevicesOwned));
    assert_eq!(p.count(), 2);
    assert_eq!(p.owned_device_ids(a), vec![x1, x2]);
    assert!(!p.contains(&x3));
}

#[test]
fn scenario_through_create_devices() {
    let a: u64 = 4;
    let mut p = Pallet::new(Config { max_owned: 2 });
    let entropy = [7u8; 32];

    assert_eq!(p.create_devices(a, &entropy, 0, 1), Ok(()));
    assert_eq!(p.count(), 1);

    // The same entropy and context derive the same identifier again.
    assert_eq!(p.create_devices(a, &entropy, 0, 1), Err(Error::DuplicateDevices));
    assert_eq!(p.count(), 1);

    assert_eq!(p.create_devices(a, &entropy, 1, 1), Ok(()));
    assert_eq!(p.count(), 2);

    assert_eq!(p.create_devices(a, &entropy, 2, 1), Err(Error::MaximumDevicesOwned));
    assert_eq!(p.count(), 2);
}

#[test]
fn minted_ids_are_pairwise_distinct() {
    let mut p = Pallet::new(Config { max_owned: 10 });
    let entropy = [3u8; 32];
    for idx in 0..5u32 {
        assert_eq!(p.create_devices(8, &entropy, idx, 2), Ok(()));
    }
    assert_eq!(p.count(), 5);
    let ids = p.owned_device_ids(8);
    assert_eq!(ids.len(), 5);
    for i in 0..ids.len() {
        for j in 0..ids.len() {
            if i != j {
                assert_ne!(ids[i], ids[j]);
            }
        }
        assert!(p.contains(&ids[i]));
        assert_eq!(p.get(&ids[i]), Some(IotDevice { unique_id: ids[i], owner: 8 }));
    }
}

#[test]
fn count_equals_number_of_successes() {
    let mut p = Pallet::new(Config { max_owned: 2 });
    assert_eq!(p.mint(1, id(1)), Ok(id(1)));
    assert_eq!(p.mint(2, id(2)), Ok(id(2)));
    assert_eq!(p.mint(1, id(2)), Err(Error::DuplicateDevices));
    assert_eq!(p.mint(3, id(3)), Ok(id(3)));
    assert_eq!(p.count(), 3);
}

#[test]
fn lookup_returns_committed_record() {
    let mut p = Pallet::new(Config { max_owned: 4 });
    let x = id(42);
    assert_eq!(p.mint(9, x), Ok(x));
    assert!(p.contains(&x));
    assert_eq!(p.get(&x), Some(IotDevice { unique_id: x, owner: 9 }));
    let y = id(43);
    assert!(!p.contains(&y));
    assert_eq!(p.get(&y), None);
}

#[test]
fn zero_capacity_rejects_first_mint() {
    let mut p = Pallet::new(Config { max_owned: 0 });
    assert_eq!(p.mint(5, id(1)), Err(Error::MaximumDevicesOwned));
    assert_eq!(p.count(), 0);
    assert!(p.owned_device_ids(5).is_empty());
    assert!(p.event_log().is_empty());
}

#[test]
fn failure_leaves_registry_untouched() {
    let a: u64 = 2;
    let b: u64 = 3;
    let mut p = Pallet::new(Config { max_owned: 1 });
    assert_eq!(p.mint(a, id(1)), Ok(id(1)));
    assert_eq!(p.mint(b, id(2)), Ok(id(2)));

    let count = p.count();
    let owned_a = p.owned_device_ids(a);
    let owned_b = p.owned_device_ids(b);
    let events = p.event_log().len();

    // Duplicate identifier.
    assert_eq!(p.mint(b, id(1)), Err(Error::DuplicateDevices));
    // Capacity reached.
    assert_eq!(p.mint(a, id(9)), Err(Error::MaximumDevicesOwned));

    assert_eq!(p.count(), count);
    assert_eq!(p.owned_device_ids(a), owned_a);
    assert_eq!(p.owned_device_ids(b), owned_b);
    assert_eq!(p.event_log().len(), events);
    assert!(!p.contains(&id(9)));
}

#[test]
fn one_event_per_successful_mint() {
    let mut p = Pallet::new(Config { max_owned: 2 });
    let x = id(6);
    assert_eq!(p.mint(11, x), Ok(x));
    assert_eq!(p.event_log().len(), 1);
    assert_eq!(
        p.event_log()[0],
        Event::CollectibleCreated { collectible: x, owner: 11 }
    );
    assert_eq!(p.mint(11, x), Err(Error::DuplicateDevices));
    assert_eq!(p.event_log().len(), 1);
    let y = id(7);
    assert_eq!(p.mint(12, y), Ok(y));
    assert_eq!(p.event_log().len(), 2);
    assert_eq!(
        p.event_log()[1],
        Event::CollectibleCreated { collectible: y, owner: 12 }
    );
}

#[test]
fn separate_owners_have_separate_lists() {
    let mut p = Pallet::new(Config { max_owned: 1 });
    assert_eq!(p.mint(1, id(1)), Ok(id(1)));
    assert_eq!(p.mint(2, id(2)), Ok(id(2)));
    assert_eq!(p.owned_device_ids(1), vec![id(1)]);
    assert_eq!(p.owned_device_ids(2), vec![id(2)]);
    assert!(p.owned_device_ids(3).is_empty());
}

#[test]
fn generated_ids_feed_the_registry() {
    let mut p = Pallet::new(Config { max_owned: 3 });
    let entropy = [0xabu8; 32];
    let candidate = gen_unique_id(&entropy, 4, 77);
    assert_eq!(p.create_devices(15, &entropy, 4, 77), Ok(()));
    assert!(p.contains(&candidate));
    assert_eq!(
        p.get(&candidate),
        Some(IotDevice { unique_id: candidate, owner: 15 })
    );
    assert_eq!(p.owned_device_ids(15), vec![candidate]);
}
