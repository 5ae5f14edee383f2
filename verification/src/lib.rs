//! Discovery and command authentication for a small private network.
//!
//! A node joining the network scans its local subnet for a live peer and
//! learns the coordinating ("genesis") node's address from the first peer
//! found; administrative commands exchanged between nodes are signed with a
//! private RSA key and verified with the matching public key.

mod addr;
mod auth;
mod block;
mod iface;
mod registry;
mod scan;

pub use addr::Ipv4;
pub use addr::SubnetPrefix;
pub use addr::lemma_dotted_injective;
pub use addr::spec_octet;
pub use auth::AuthError;
pub use auth::rsa_private_key_ok;
pub use auth::rsa_sha256_accepts;
pub use auth::rsa_sha256_signature;
pub use auth::sign_command;
pub use auth::verify_signature;
pub use block::BlockData;
pub use iface::IfaceAddr;
pub use iface::IfaceInfo;
pub use iface::PREFERRED_IFACE;
pub use iface::fallback_yields;
pub use iface::first_v4_is;
pub use iface::get_network_info;
pub use iface::has_v4;
pub use iface::preferred_has_v4;
pub use iface::preferred_yields;
pub use iface::resolve_interfaces;
pub use registry::join_lines;
pub use registry::lemma_saved_list_reads_back;
pub use registry::line_views;
pub use registry::spec_join_lines;
pub use registry::spec_lines;
pub use registry::split_lines;
pub use registry::storable_lines;
pub use scan::FIRST_HOST;
pub use scan::LAST_HOST;
pub use scan::PORT;
pub use scan::ScanAction;
pub use scan::ScanEvent;
pub use scan::ScanPhase;
pub use scan::ScanState;
pub use scan::lemma_all_dead_scan_yields_none;
pub use scan::lemma_never_probes_self;
pub use scan::lemma_probe_differs_in_text;
pub use scan::probe_outcome;
pub use scan::run_outcome;
pub use scan::spec_next_candidate;
pub use scan::spec_probe_outcome;
