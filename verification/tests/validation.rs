use order_track::order::{Delivery, Item, Order, Payment};
use order_track::validate::{check_phone, validate_order, Field};

fn sample_order(uid: &str, track: &str) -> Order {
    Order {
        order_uid: uid.to_string(),
        track_number: track.to_string(),
        entry: "WBIL".to_string(),
        delivery: Delivery {
            name: "X".to_string(),
            phone: "+1234567".to_string(),
            zip: "1".to_string(),
            city: "c".to_string(),
            address: "a".to_string(),
            region: "r".to_string(),
            email: "x@example.com".to_string(),
        },
        payment: Payment {
            transaction: "t1".to_string(),
            currency: "USD".to_string(),
            provider: "p".to_string(),
            amount: 100,
            payment_dt: 1637907727,
            bank: "b".to_string(),
            delivery_cost: 10,
            goods_total: 90,
            custom_fee: 0,
        },
        items: vec![Item {
            chrt_id: 1,
            track_number: track.to_string(),
            price: 90,
            rid: "rid1".to_string(),
            name: "Item 1".to_string(),
            sale: 0,
            size: "M".to_string(),
            total_price: 90,
            nm_id: 1,
            brand: "B".to_string(),
            status: 202,
        }],
        locale: "en".to_string(),
        customer_id: "cust".to_string(),
        delivery_service: "svc".to_string(),
        shardkey: "9".to_string(),
        sm_id: 99,
        date_created: "2021-11-26T06:22:19Z".to_string(),
        oof_shard: "1".to_string(),
    }
}

#[test]
fn valid_order_passes() {
    let order = sample_order("A1", "T1");
    assert!(validate_order(&order).is_ok());
}

#[test]
fn bad_phone_is_the_only_violation() {
    let mut order = sample_order("A1", "T1");
    order.delivery.phone = "abc".to_string();
    let errs = validate_order(&order).unwrap_err();
    assert_eq!(errs, vec![Field::DeliveryPhone]);
}

#[test]
fn every_violation_is_reported() {
    let mut order = sample_order("A1", "T1");
    order.order_uid = "".to_string();
    order.delivery.phone = "abc".to_string();
    order.delivery.city = "".to_string();
    let errs = validate_order(&order).unwrap_err();
    assert_eq!(
        errs,
        vec![Field::OrderUid, Field::DeliveryPhone, Field::DeliveryCity]
    );
}

#[test]
fn empty_required_fields_are_reported() {
    let mut order = sample_order("A1", "T1");
    order.track_number = "".to_string();
    order.delivery.name = "".to_string();
    order.delivery.zip = "".to_string();
    order.delivery.address = "".to_string();
    order.delivery.region = "".to_string();
    let errs = validate_order(&order).unwrap_err();
    assert_eq!(
        errs,
        vec![
            Field::TrackNumber,
            Field::DeliveryName,
            Field::DeliveryZip,
            Field::DeliveryAddress,
            Field::DeliveryRegion,
        ]
    );
}

#[test]
fn no_items_is_a_violation() {
    let mut order = sample_order("A1", "T1");
    order.items = vec![];
    let errs = validate_order(&order).unwrap_err();
    assert_eq!(errs, vec![Field::Items]);
}

#[test]
fn bad_email_is_a_violation() {
    let mut order = sample_order("A1", "T1");
    order.delivery.email = "not-an-email".to_string();
    let errs = validate_order(&order).unwrap_err();
    assert_eq!(errs, vec![Field::DeliveryEmail]);
}

#[test]
fn plain_email_without_plus_digits_phone() {
    let mut order = sample_order("A1", "T1");
    order.delivery.phone = "987654321".to_string();
    order.delivery.email = "jane@example.com".to_string();
    assert!(validate_order(&order).is_ok());
}

#[test]
fn empty_email_is_a_violation() {
    let mut order = sample_order("A1", "T1");
    order.delivery.email = "".to_string();
    let errs = validate_order(&order).unwrap_err();
    assert_eq!(errs, vec![Field::DeliveryEmail]);
}

#[test]
fn phone_boundaries() {
    assert!(check_phone("1234567"));
    assert!(check_phone("+1234567"));
    assert!(check_phone("123456789012345"));
    assert!(check_phone("+123456789012345"));
    assert!(!check_phone("123456"));
    assert!(!check_phone("+123456"));
    assert!(!check_phone("1234567890123456"));
    assert!(!check_phone("+1234567890123456"));
    assert!(!check_phone(""));
    assert!(!check_phone("+"));
    assert!(!check_phone("12 34567"));
    assert!(!check_phone("12345a7"));
    assert!(!check_phone("++1234567"));
}
