//! The first broker: clients say hello and are handed to a shard, shards,
//! the spatial server and the orchestrator say hello as friends, and
//! messages are relayed by topic of thirty-two bytes.  Connections are known
//! by their uuid.
pub mod broker_state;

pub mod broker_tick;
