//! The decision logic of the metrics monitoring backend: the wire format of the
//! metrics agent protocol, the handshake, the connection and polling state
//! machines, and the assembly of the REST responses from what the database and
//! the live collectors report.
pub mod packet;
pub mod handshake;
pub mod client;
pub mod requester;
pub mod text;
pub mod time;
pub mod addr;
pub mod report_file;
pub mod collections;
pub mod metrics;
pub mod health;
pub mod status;
pub mod realtime;
pub mod reports;
