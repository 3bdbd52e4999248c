//! The order document: the immutable value that clients submit and the
//! store keeps. Field layout follows the wire shape of a submitted order.

use vstd::prelude::*;

verus! {

/// Payment details of an order.
pub struct Payment {
    pub transaction: String,
    pub currency: String,
    pub provider: String,
    pub amount: i32,
    pub payment_dt: i64,
    pub bank: String,
    pub delivery_cost: i32,
    pub goods_total: i32,
    pub custom_fee: i32,
}

/// Delivery address and contact details of an order.
pub struct Delivery {
    pub name: String,
    pub phone: String,
    pub zip: String,
    pub city: String,
    pub address: String,
    pub region: String,
    pub email: String,
}

/// One line item of an order.
pub struct Item {
    pub chrt_id: i64,
    pub track_number: String,
    pub price: i32,
    pub rid: String,
    pub name: String,
    pub sale: i32,
    pub size: String,
    pub total_price: i32,
    pub nm_id: i64,
    pub brand: String,
    pub status: i32,
}

/// A full order document. `order_uid` is the identifying key under which
/// the store files every accepted version of the order.
pub struct Order {
    pub order_uid: String,
    pub track_number: String,
    pub entry: String,
    pub delivery: Delivery,
    pub payment: Payment,
    pub items: Vec<Item>,
    pub locale: String,
    pub customer_id: String,
    pub delivery_service: String,
    pub shardkey: String,
    pub sm_id: i32,
    pub date_created: String,
    pub oof_shard: String,
}

impl Clone for Payment {
    fn clone(&self) -> (r: Self)
        ensures
            r == *self,
    {
        Payment {
            transaction: self.transaction.clone(),
            currency: self.currency.clone(),
            provider: self.provider.clone(),
            amount: self.amount,
            payment_dt: self.payment_dt,
            bank: self.bank.clone(),
            delivery_cost: self.delivery_cost,
            goods_total: self.goods_total,
            custom_fee: self.custom_fee,
        }
    }
}

impl Clone for Delivery {
    fn clone(&self) -> (r: Self)
        ensures
            r == *self,
    {
        Delivery {
            name: self.name.clone(),
            phone: self.phone.clone(),
            zip: self.zip.clone(),
            city: self.city.clone(),
            address: self.address.clone(),
            region: self.region.clone(),
            email: self.email.clone(),
        }
    }
}

impl Clone for Item {
    fn clone(&self) -> (r: Self)
        ensures
            r == *self,
    {
        Item {
            chrt_id: self.chrt_id,
            track_number: self.track_number.clone(),
            price: self.price,
            rid: self.rid.clone(),
            name: self.name.clone(),
            sale: self.sale,
            size: self.size.clone(),
            total_price: self.total_price,
            nm_id: self.nm_id,
            brand: self.brand.clone(),
            status: self.status,
        }
    }
}

impl Order {
    /// Two order values carry the same document: every field agrees, with
    /// the item vectors compared by their contents.
    pub open spec fn equiv(self, other: Order) -> bool {
        &&& self.order_uid == other.order_uid
        &&& self.track_number == other.track_number
        &&& self.entry == other.entry
        &&& self.delivery == other.delivery
        &&& self.payment == other.payment
        &&& self.items@ == other.items@
        &&& self.locale == other.locale
        &&& self.customer_id == other.customer_id
        &&& self.delivery_service == other.delivery_service
        &&& self.shardkey == other.shardkey
        &&& self.sm_id == other.sm_id
        &&& self.date_created == other.date_created
        &&& self.oof_shard == other.oof_shard
    }

    /// The identifying key of this order, as the mathematical value the
    /// store's contracts are stated over.
    pub open spec fn uid(self) -> Seq<char> {
        self.order_uid@
    }
}

impl Clone for Order {
    fn clone(&self) -> (r: Self)
        ensures
            r.equiv(*self),
            r.uid() == self.uid(),
    {
        let items: Vec<Item> = self.items.clone();
        proof {
            assert forall|i: int| 0 <= i < self.items@.len() implies items@[i]
                == self.items@[i] by {
                assert(vstd::pervasive::cloned::<Item>(self.items@[i], items@[i]));
            }
            assert(items@ =~= self.items@);
        }
        Order {
            order_uid: self.order_uid.clone(),
            track_number: self.track_number.clone(),
            entry: self.entry.clone(),
            delivery: self.delivery.clone(),
            payment: self.payment.clone(),
            items,
            locale: self.locale.clone(),
            customer_id: self.customer_id.clone(),
            delivery_service: self.delivery_service.clone(),
            shardkey: self.shardkey.clone(),
            sm_id: self.sm_id,
            date_created: self.date_created.clone(),
            oof_shard: self.oof_shard.clone(),
        }
    }
}

} // verus!
