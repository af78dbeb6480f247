//! Groups: the proposals of a commit, and the framing of messages.

pub mod framing;
pub mod message_signature;
pub mod proposal;
pub mod proposal_filter;
pub mod sender;
