//! Messages flowing from the broker to the application: consumer deliveries
//! and basic-get responses, assembled from a method frame, a content header,
//! and body fragments.

use vstd::prelude::*;
use crate::frame::{BasicProperties, empty_props};

verus! {

/// One message delivered to a consumer, with its accumulated payload.
#[derive(Clone, Debug, PartialEq, Eq)]
pub struct Delivery {
    pub delivery_tag: u64,
    pub exchange: Vec<u8>,
    pub routing_key: Vec<u8>,
    pub redelivered: bool,
    pub properties: BasicProperties,
    pub data: Vec<u8>,
}

impl Delivery {
    pub fn new(delivery_tag: u64, exchange: Vec<u8>, routing_key: Vec<u8>, redelivered: bool)
        -> (r: Delivery)
        ensures
            r.delivery_tag == delivery_tag,
            r.exchange == exchange,
            r.routing_key == routing_key,
            r.redelivered == redelivered,
            r.properties@ == empty_props(),
            r.data@ == Seq::<u8>::empty(),
    {
        Delivery {
            delivery_tag,
            exchange,
            routing_key,
            redelivered,
            properties: BasicProperties::empty(),
            data: Vec::new(),
        }
    }

    /// Append one body fragment to the payload.
    pub fn receive_content(&mut self, data: Vec<u8>)
        ensures
            final(self).data@ == old(self).data@ + data@,
            final(self).delivery_tag == old(self).delivery_tag,
            final(self).exchange == old(self).exchange,
            final(self).routing_key == old(self).routing_key,
            final(self).redelivered == old(self).redelivered,
            final(self).properties == old(self).properties,
    {
        let mut d = data;
        self.data.append(&mut d);
    }
}

/// A completed basic-get response: the delivery plus the queue's remaining
/// message count as the broker reported it.
#[derive(Clone, Debug, PartialEq, Eq)]
pub struct BasicGetMessage {
    pub delivery: Delivery,
    pub message_count: u32,
}

impl BasicGetMessage {
    pub fn new(
        delivery_tag: u64,
        exchange: Vec<u8>,
        routing_key: Vec<u8>,
        redelivered: bool,
        message_count: u32,
    ) -> (r: BasicGetMessage)
        ensures
            r.delivery.delivery_tag == delivery_tag,
            r.delivery.exchange == exchange,
            r.delivery.routing_key == routing_key,
            r.delivery.redelivered == redelivered,
            r.delivery.properties@ == empty_props(),
            r.delivery.data@ == Seq::<u8>::empty(),
            r.message_count == message_count,
    {
        BasicGetMessage {
            delivery: Delivery::new(delivery_tag, exchange, routing_key, redelivered),
            message_count,
        }
    }
}

} // verus!
