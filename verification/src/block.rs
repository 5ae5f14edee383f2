//! The envelope an authenticated command travels in.

use vstd::prelude::*;

verus! {

/// A command submitted to a peer: the sender's address, the command text,
/// and the RSA signature over the command's UTF-8 bytes. The signature is
/// meaningful only against the public key matching the private key that
/// produced it; the envelope carries no key identifier, so the receiver
/// must know out of band which key to verify against.
#[derive(Clone, PartialEq, Eq, Debug)]
pub struct BlockData {
    pub ip: String,
    pub command: String,
    pub sign: Vec<u8>,
}

impl BlockData {
    /// Wrap a signed command for submission.
    pub fn new(ip: String, command: String, sign: Vec<u8>) -> (r: BlockData)
        ensures
            r.ip == ip,
            r.command == command,
            r.sign == sign,
    {
        BlockData { ip, command, sign }
    }
}

} // verus!
