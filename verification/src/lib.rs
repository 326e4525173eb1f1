pub mod assoc;
pub mod block;
pub mod block_desc;
pub mod candidate;
pub mod candidate_book;
pub mod candidate_controller;
pub mod candidate_laws;
pub mod certificate;
pub mod chain;
pub mod collation;
pub mod collation_controller;
pub mod collation_laws;
pub mod collation_promises;
pub mod consensus_backend;
pub mod consensus_controller;
pub mod consensus_laws;
pub mod database;
pub mod database_controller;
pub mod misbehavior;
pub mod options;
pub mod order;
pub mod prometheus_publisher;
pub mod raw_vote;
pub mod session_description;
pub mod text;
pub mod time;
pub mod votes;
