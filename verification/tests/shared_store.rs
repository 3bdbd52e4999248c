use order_track::order::{Delivery, Item, Order, Payment};
use order_track::shared::SharedStore;
use order_track::validate::Field;

fn sample_order(uid: &str, track: &str) -> Order {
    Order {
        order_uid: uid.to_string(),
        track_number: track.to_string(),
        entry: "WBIL".to_string(),
        delivery: Delivery {
            name: "X".to_string(),
            phone: "+1234567".to_string(),
            zip: "1".to_string(),
            city: "c".to_string(),
            address: "a".to_string(),
            region: "r".to_string(),
            email: "x@example.com".to_string(),
        },
        payment: Payment {
            transaction: "t1".to_string(),
            currency: "USD".to_string(),
            provider: "p".to_string(),
            amount: 100,
            payment_dt: 1637907727,
            bank: "b".to_string(),
            delivery_cost: 10,
            goods_total: 90,
            custom_fee: 0,
        },
        items: vec![Item {
            chrt_id: 1,
            track_number: track.to_string(),
            price: 90,
            rid: "rid1".to_string(),
            name: "Item 1".to_string(),
            sale: 0,
            size: "M".to_string(),
            total_price: 90,
            nm_id: 1,
            brand: "B".to_string(),
            status: 202,
        }],
        locale: "en".to_string(),
        customer_id: "cust".to_string(),
        delivery_service: "svc".to_string(),
        shardkey: "9".to_string(),
        sm_id: 99,
        date_created: "2021-11-26T06:22:19Z".to_string(),
        oof_shard: "1".to_string(),
    }
}

#[test]
fn shared_submit_then_get() {
    let store = SharedStore::new();
    store.submit(sample_order("A1", "T1")).expect("valid order");
    let got = store.get("A1").expect("A1 must be present");
    assert_eq!(got.track_number, "T1");
    assert!(store.get("B1").is_none());
}

#[test]
fn shared_second_write_wins_reads() {
    let store = SharedStore::new();
    store.submit(sample_order("A1", "T1")).expect("valid order");
    store.submit(sample_order("A1", "T2")).expect("valid order");
    assert_eq!(store.get("A1").unwrap().track_number, "T2");
}

#[test]
fn shared_rejects_invalid_and_stays_unchanged() {
    let store = SharedStore::new();
    let mut bad = sample_order("A1", "T1");
    bad.delivery.phone = "abc".to_string();
    let errs = store.submit(bad).unwrap_err();
    assert_eq!(errs, vec![Field::DeliveryPhone]);
    assert!(store.get("A1").is_none());
    assert!(store.list().is_empty());
}

#[test]
fn shared_list_snapshot() {
    let store = SharedStore::new();
    store.submit(sample_order("A1", "T1")).expect("valid order");
    store.submit(sample_order("B1", "U1")).expect("valid order");
    let mut listing = store.list();
    listing.sort_by(|x, y| x.0.cmp(&y.0));
    assert_eq!(listing.len(), 2);
    assert_eq!(listing[0].0, "A1");
    assert_eq!(listing[1].0, "B1");
}
