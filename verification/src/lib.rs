//! An iperf-style network throughput benchmarking library.
//!
//! The verified core covers the wire codec for length-prefixed control
//! messages, the test-association registry, the token-bucket rate limiter,
//! the direction/role gating rules, the data-plane engine's decision logic,
//! and the interval statistics model.  Socket I/O and the asynchronous
//! runtime live outside the library and drive it through plain values.

pub mod clock;
pub mod codec;
pub mod engine;
pub mod manager;
pub mod messages;
pub mod server;
pub mod stats;
pub mod token_bucket;
pub mod units;

pub use crate::codec::association_wire_bytes;
pub use crate::codec::decode_association;
pub use crate::codec::decode_new_test;
pub use crate::codec::encode_association;
pub use crate::codec::encode_new_test;
pub use crate::codec::frame_message;
pub use crate::codec::new_test_wire_bytes;
pub use crate::codec::parse_header;
pub use crate::codec::lemma_framing;
pub use crate::codec::proofs::lemma_association_round_trip;
pub use crate::codec::proofs::lemma_new_test_round_trip;
pub use crate::engine::EngineState;
pub use crate::engine::IoOutcome;
pub use crate::engine::TestControlMessage;
pub use crate::engine::UDPTest;
pub use crate::manager::ManagerAction;
pub use crate::manager::duration_nanos;
pub use crate::manager::next_action;
pub use crate::server::ControlMessage;
pub use crate::server::Registry;
pub use crate::server::ServerAction;
pub use crate::server::handle_control_message;
pub use crate::server::lemma_association_unique;
pub use crate::stats::IntervalResult;
pub use crate::stats::IntervalStats;
pub use crate::stats::lemma_interval_reset;

pub use crate::messages::CommonConfig;
pub use crate::messages::Direction;
pub use crate::messages::EndCondition;
pub use crate::messages::MessageID;
pub use crate::messages::MessageType;
pub use crate::messages::NBError;
pub use crate::messages::NewTestMessage;
pub use crate::messages::Protocol;
pub use crate::messages::Role;
pub use crate::messages::TCPTestInfo;
pub use crate::messages::TestAssociationMessage;
pub use crate::messages::TestDuration;
pub use crate::messages::CONTROL_MSG_SIZE;
pub use crate::messages::codes_equal;
pub use crate::messages::should_recv;
pub use crate::messages::should_send;
pub use crate::messages::lemma_direction_role_table;
pub use crate::clock::now_nanos;
pub use crate::token_bucket::TokenBucket;
pub use crate::token_bucket::lemma_token_bucket_gate;
pub use crate::units::Base;
pub use crate::units::BasePreference;
pub use crate::units::NBytes;
pub use crate::units::SizePreference;
pub use crate::units::Unit;
pub use crate::units::auto_exponent;
pub use crate::units::parse_u64_with_suffix;
