//! Option groups for the per-method operations; each field follows the AMQP
//! specification of the corresponding method argument.

use vstd::prelude::*;

verus! {

#[derive(Clone, Debug, Default, PartialEq)]
pub struct AccessRequestOptions {
    pub exclusive: bool,
    pub passive: bool,
    pub active: bool,
    pub write: bool,
    pub read: bool,
}

#[derive(Clone, Debug, Default, PartialEq)]
pub struct ExchangeDeclareOptions {
    pub ticket: u16,
    pub passive: bool,
    pub durable: bool,
    pub auto_delete: bool,
    pub internal: bool,
    pub nowait: bool,
}

#[derive(Clone, Debug, Default, PartialEq)]
pub struct ExchangeDeleteOptions {
    pub ticket: u16,
    pub if_unused: bool,
    pub nowait: bool,
}

#[derive(Clone, Debug, Default, PartialEq)]
pub struct ExchangeBindOptions {
    pub ticket: u16,
    pub nowait: bool,
}

#[derive(Clone, Debug, Default, PartialEq)]
pub struct ExchangeUnbindOptions {
    pub ticket: u16,
    pub nowait: bool,
}

#[derive(Clone, Debug, Default, PartialEq)]
pub struct QueueDeclareOptions {
    pub ticket: u16,
    pub passive: bool,
    pub durable: bool,
    pub exclusive: bool,
    pub auto_delete: bool,
    pub nowait: bool,
}

#[derive(Clone, Debug, Default, PartialEq)]
pub struct QueueUnbindOptions {
    pub ticket: u16,
}

#[derive(Clone, Debug, Default, PartialEq)]
pub struct ConfirmSelectOptions {
    pub nowait: bool,
}

#[derive(Clone, Debug, Default, PartialEq)]
pub struct QueueBindOptions {
    pub ticket: u16,
    pub nowait: bool,
}

#[derive(Clone, Debug, Default, PartialEq)]
pub struct QueuePurgeOptions {
    pub ticket: u16,
    pub nowait: bool,
}

#[derive(Clone, Debug, Default, PartialEq)]
pub struct BasicPublishOptions {
    pub ticket: u16,
    pub mandatory: bool,
    pub immediate: bool,
}

#[derive(Clone, Debug, Default, PartialEq)]
pub struct BasicConsumeOptions {
    pub ticket: u16,
    pub no_local: bool,
    pub no_ack: bool,
    pub exclusive: bool,
    pub no_wait: bool,
}

#[derive(Clone, Debug, Default, PartialEq)]
pub struct BasicGetOptions {
    pub ticket: u16,
    pub no_ack: bool,
}

#[derive(Clone, Debug, Default, PartialEq)]
pub struct BasicQosOptions {
    pub prefetch_size: u32,
    pub prefetch_count: u16,
    pub global: bool,
}

#[derive(Clone, Debug, Default, PartialEq)]
pub struct QueueDeleteOptions {
    pub ticket: u16,
    pub if_unused: bool,
    pub if_empty: bool,
    pub no_wait: bool,
}

#[derive(Clone, Debug, Default, PartialEq)]
pub struct ChannelFlowOptions {
    pub active: bool,
}

} // verus!
