//! Building blocks for data pipelines whose stages talk over channels.
//!
//! Each stage (extractor, loader, broadcast, router, messenger, funnel,
//! accumulator, transformer, filter) is split in two: the decisions it makes
//! on every turn of its worker loop live here, with contracts; the worker
//! threads that drive those decisions, sleep and watch the stop and pause
//! signals are outside this crate.

pub mod accumulator;
pub mod broadcast;
pub mod channel;
pub mod context;
pub mod control;
pub mod ends;
pub mod filter;
pub mod funnel;
pub mod messenger;
pub mod router;
pub mod transformer;

pub use accumulator::Accumulation;
pub use broadcast::{Broadcast, BroadcastError};
pub use channel::{
    capacity_fits, channel_capacity, get_channel, relay, try_get_channel, ChannelTag, Inbox, Outbox,
    RecvFailure, Relay,
};
pub use context::{FnContext, TransformerContext};
pub use control::{control, Control};
pub use ends::{accept_batch, forward_batch, receive_batch};
pub use filter::{filter_batch, filter_received, filter_step};
pub use funnel::{funnel_finish, funnel_step, Funnel, FunnelTurn};
pub use messenger::{Delivery, Message, Messenger};
pub use router::{RouteError, Router};
pub use transformer::{
    InputStep, TransformerEffectType, TransformerPorts, TransformerResult, TransformerState,
    YieldAction,
};
