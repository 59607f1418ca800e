//! Per-queue state held by a channel: declared flags, bindings, consumers,
//! and the FIFOs of completed basic-get responses and consumer deliveries.

use vstd::prelude::*;
use crate::message::{Delivery, BasicGetMessage};

verus! {

/// Compare two byte strings.
pub fn bytes_eq(a: &Vec<u8>, b: &Vec<u8>) -> (r: bool)
    ensures
        r == (a@ == b@),
{
    if a.len() != b.len() {
        proof {
            assert(a@.len() != b@.len());
        }
        return false;
    }
    let mut i: usize = 0;
    while i < a.len()
        invariant
            i <= a@.len(),
            a@.len() == b@.len(),
            forall|k: int| 0 <= k < i ==> a@[k] == b@[k],
        decreases a@.len() - i,
    {
        if a[i] != b[i] {
            return false;
        }
        i = i + 1;
    }
    proof {
        assert(a@ =~= b@);
    }
    true
}

/// One binding of a queue to an exchange under a routing key.
#[derive(Clone, Debug, PartialEq, Eq)]
pub struct Binding {
    pub exchange: Vec<u8>,
    pub routing_key: Vec<u8>,
    pub no_wait: bool,
    pub active: bool,
}

impl Binding {
    pub fn new(exchange: Vec<u8>, routing_key: Vec<u8>, no_wait: bool) -> (r: Binding)
        ensures
            r.exchange == exchange,
            r.routing_key == routing_key,
            r.no_wait == no_wait,
            !r.active,
    {
        Binding { exchange, routing_key, no_wait, active: false }
    }
}

/// One consumer registered on a queue, with its FIFO of completed deliveries
/// and the scratch slot for the delivery currently being assembled.
#[derive(Clone, Debug, PartialEq, Eq)]
pub struct Consumer {
    pub tag: Vec<u8>,
    pub no_local: bool,
    pub no_ack: bool,
    pub exclusive: bool,
    pub nowait: bool,
    pub messages: Vec<Delivery>,
    pub current_message: Option<Delivery>,
}

/// The index of the first consumer carrying `tag`.
pub open spec fn consumer_index(cs: Seq<Consumer>, tag: Seq<u8>) -> Option<int>
    decreases cs.len(),
{
    if cs.len() == 0 {
        None
    } else if cs[0].tag@ == tag {
        Some(0)
    } else {
        match consumer_index(cs.skip(1), tag) {
            Some(k) => Some(k + 1),
            None => None,
        }
    }
}

pub proof fn lemma_consumer_index_at(cs: Seq<Consumer>, tag: Seq<u8>, k: int)
    requires
        0 <= k < cs.len(),
        cs[k].tag@ == tag,
        forall|j: int| 0 <= j < k ==> cs[j].tag@ != tag,
    ensures
        consumer_index(cs, tag) == Some(k),
    decreases k,
{
    if k == 0 {
    } else {
        assert(cs.skip(1)[k - 1] == cs[k]);
        assert(forall|j: int| 0 <= j < k - 1 ==> cs.skip(1)[j] == cs[j + 1]);
        lemma_consumer_index_at(cs.skip(1), tag, k - 1);
    }
}

pub proof fn lemma_consumer_index_none(cs: Seq<Consumer>, tag: Seq<u8>)
    requires
        forall|j: int| 0 <= j < cs.len() ==> cs[j].tag@ != tag,
    ensures
        consumer_index(cs, tag) is None,
    decreases cs.len(),
{
    if cs.len() > 0 {
        assert(forall|j: int| 0 <= j < cs.skip(1).len() ==> cs.skip(1)[j] == cs[j + 1]);
        lemma_consumer_index_none(cs.skip(1), tag);
    }
}

/// Find the first consumer carrying `tag`.
pub fn find_consumer(cs: &Vec<Consumer>, tag: &Vec<u8>) -> (r: Option<usize>)
    ensures
        match r {
            Some(k) => k < cs@.len() && consumer_index(cs@, tag@) == Some(k as int),
            None => consumer_index(cs@, tag@) is None,
        },
{
    let mut k: usize = 0;
    while k < cs.len()
        invariant
            k <= cs@.len(),
            forall|j: int| 0 <= j < k ==> cs@[j].tag@ != tag@,
        decreases cs@.len() - k,
    {
        if bytes_eq(&cs[k].tag, tag) {
            proof {
                lemma_consumer_index_at(cs@, tag@, k as int);
            }
            return Some(k);
        }
        k = k + 1;
    }
    proof {
        lemma_consumer_index_none(cs@, tag@);
    }
    None
}

#[derive(Clone, Debug, PartialEq, Eq)]
pub struct Queue {
    pub name: Vec<u8>,
    pub passive: bool,
    pub durable: bool,
    pub exclusive: bool,
    pub auto_delete: bool,
    pub bindings: Vec<Binding>,
    pub consumers: Vec<Consumer>,
    pub message_count: u32,
    pub consumer_count: u32,
    pub created: bool,
    pub get_messages: Vec<BasicGetMessage>,
    pub current_get_message: Option<BasicGetMessage>,
}

/// The index of the first queue named `name`.
pub open spec fn queue_index(qs: Seq<Queue>, name: Seq<u8>) -> Option<int>
    decreases qs.len(),
{
    if qs.len() == 0 {
        None
    } else if qs[0].name@ == name {
        Some(0)
    } else {
        match queue_index(qs.skip(1), name) {
            Some(k) => Some(k + 1),
            None => None,
        }
    }
}

pub proof fn lemma_queue_index_at(qs: Seq<Queue>, name: Seq<u8>, k: int)
    requires
        0 <= k < qs.len(),
        qs[k].name@ == name,
        forall|j: int| 0 <= j < k ==> qs[j].name@ != name,
    ensures
        queue_index(qs, name) == Some(k),
    decreases k,
{
    if k == 0 {
    } else {
        assert(qs.skip(1)[k - 1] == qs[k]);
        assert(forall|j: int| 0 <= j < k - 1 ==> qs.skip(1)[j] == qs[j + 1]);
        lemma_queue_index_at(qs.skip(1), name, k - 1);
    }
}

pub proof fn lemma_queue_index_none(qs: Seq<Queue>, name: Seq<u8>)
    requires
        forall|j: int| 0 <= j < qs.len() ==> qs[j].name@ != name,
    ensures
        queue_index(qs, name) is None,
    decreases qs.len(),
{
    if qs.len() > 0 {
        assert(forall|j: int| 0 <= j < qs.skip(1).len() ==> qs.skip(1)[j] == qs[j + 1]);
        lemma_queue_index_none(qs.skip(1), name);
    }
}

/// Find the first queue named `name`.
pub fn find_queue(qs: &Vec<Queue>, name: &Vec<u8>) -> (r: Option<usize>)
    ensures
        match r {
            Some(k) => k < qs@.len() && queue_index(qs@, name@) == Some(k as int),
            None => queue_index(qs@, name@) is None,
        },
{
    let mut k: usize = 0;
    while k < qs.len()
        invariant
            k <= qs@.len(),
            forall|j: int| 0 <= j < k ==> qs@[j].name@ != name@,
        decreases qs@.len() - k,
    {
        if bytes_eq(&qs[k].name, name) {
            proof {
                lemma_queue_index_at(qs@, name@, k as int);
            }
            return Some(k);
        }
        k = k + 1;
    }
    proof {
        lemma_queue_index_none(qs@, name@);
    }
    None
}

impl Queue {
    pub fn new(name: Vec<u8>, passive: bool, durable: bool, exclusive: bool, auto_delete: bool)
        -> (r: Queue)
        ensures
            r.name == name,
            r.passive == passive,
            r.durable == durable,
            r.exclusive == exclusive,
            r.auto_delete == auto_delete,
            r.bindings@ == Seq::<Binding>::empty(),
            r.consumers@ == Seq::<Consumer>::empty(),
            r.message_count == 0,
            r.consumer_count == 0,
            !r.created,
            r.get_messages@ == Seq::<BasicGetMessage>::empty(),
            r.current_get_message is None,
    {
        Queue {
            name,
            passive,
            durable,
            exclusive,
            auto_delete,
            bindings: Vec::new(),
            consumers: Vec::new(),
            message_count: 0,
            consumer_count: 0,
            created: false,
            get_messages: Vec::new(),
            current_get_message: None,
        }
    }

    /// Pop the oldest completed delivery of the consumer carrying
    /// `consumer_tag`, if any.
    pub fn next_delivery(&mut self, consumer_tag: &Vec<u8>) -> (r: Option<Delivery>)
        ensures
            match consumer_index(old(self).consumers@, consumer_tag@) {
                None => r is None && *final(self) == *old(self),
                Some(k) => {
                    if old(self).consumers@[k].messages@.len() == 0 {
                        r is None && *final(self) == *old(self)
                    } else {
                        &&& r == Some(old(self).consumers@[k].messages@[0])
                        &&& final(self).consumers@.len() == old(self).consumers@.len()
                        &&& forall|j: int| 0 <= j < old(self).consumers@.len() && j != k
                            ==> final(self).consumers@[j] == old(self).consumers@[j]
                        &&& final(self).consumers@[k].messages@
                            == old(self).consumers@[k].messages@.skip(1)
                        &&& final(self).consumers@[k].tag == old(self).consumers@[k].tag
                        &&& final(self).consumers@[k].no_local
                            == old(self).consumers@[k].no_local
                        &&& final(self).consumers@[k].no_ack == old(self).consumers@[k].no_ack
                        &&& final(self).consumers@[k].exclusive
                            == old(self).consumers@[k].exclusive
                        &&& final(self).consumers@[k].nowait == old(self).consumers@[k].nowait
                        &&& final(self).consumers@[k].current_message
                            == old(self).consumers@[k].current_message
                        &&& final(self).name == old(self).name
                        &&& final(self).passive == old(self).passive
                        &&& final(self).durable == old(self).durable
                        &&& final(self).exclusive == old(self).exclusive
                        &&& final(self).auto_delete == old(self).auto_delete
                        &&& final(self).message_count == old(self).message_count
                        &&& final(self).consumer_count == old(self).consumer_count
                        &&& final(self).get_messages == old(self).get_messages
                        &&& final(self).bindings == old(self).bindings
                        &&& final(self).current_get_message == old(self).current_get_message
                        &&& final(self).created == old(self).created
                    }
                },
            },
    {
        match find_consumer(&self.consumers, consumer_tag) {
            None => None,
            Some(k) => {
                if self.consumers[k].messages.len() == 0 {
                    None
                } else {
                    let mut c = self.consumers.remove(k);
                    let d = c.messages.remove(0);
                    proof {
                        assert(c.messages@ =~= old(self).consumers@[k as int].messages@.skip(1));
                    }
                    self.consumers.insert(k, c);
                    proof {
                        assert(forall|j: int|
                            0 <= j < old(self).consumers@.len() && j != k as int
                                ==> final(self).consumers@[j] == old(self).consumers@[j]);
                    }
                    Some(d)
                }
            },
        }
    }

    /// Pop the oldest completed basic-get response.
    pub fn next_basic_get_message(&mut self) -> (r: Option<BasicGetMessage>)
        ensures
            old(self).get_messages@.len() == 0 ==> r is None && *final(self) == *old(self),
            old(self).get_messages@.len() > 0 ==> {
                &&& r == Some(old(self).get_messages@[0])
                &&& final(self).get_messages@ == old(self).get_messages@.skip(1)
                &&& final(self).consumers == old(self).consumers
                &&& final(self).name == old(self).name
                &&& final(self).passive == old(self).passive
                &&& final(self).durable == old(self).durable
                &&& final(self).exclusive == old(self).exclusive
                &&& final(self).auto_delete == old(self).auto_delete
                &&& final(self).message_count == old(self).message_count
                &&& final(self).consumer_count == old(self).consumer_count
                &&& final(self).bindings == old(self).bindings
                &&& final(self).current_get_message == old(self).current_get_message
                &&& final(self).created == old(self).created
            },
    {
        if self.get_messages.len() == 0 {
            None
        } else {
            let m = self.get_messages.remove(0);
            proof {
                assert(self.get_messages@ =~= old(self).get_messages@.skip(1));
            }
            Some(m)
        }
    }
}

} // verus!
