//! The host of the manager: the way to the server and the cryptographic
//! operations, with a journal of everything that was asked of them.

use vstd::prelude::*;
use vstd::string::*;
use crate::bridge::{
    reply_view, BridgeCall, BridgeCallView, PushConfiguration, PushConfigurationView, Reply,
    ReplyView, Transport,
};
use crate::keystore::{
    bytes_view, generated_view, Cryptography, Encoding, KeyMaterial, KeyMaterialView,
};

verus! {

/// One question to the outside world, with its answer.
pub enum Exchange {
    /// A call of the bridging server.
    Call { config: PushConfigurationView, call: BridgeCallView, reply: ReplyView },
    /// A request for key material.
    Keys { generated: Result<KeyMaterialView, Seq<char>> },
    /// A request for `count` bytes of entropy.
    Entropy { count: usize, bytes: Result<Seq<u8>, Seq<char>> },
    /// A request to decrypt a message.
    Decrypt {
        encoding: Encoding,
        ciphertext: Seq<u8>,
        private_key: Seq<u8>,
        auth_secret: Seq<u8>,
        salt: Seq<char>,
        dh: Seq<char>,
        opened: Result<Seq<u8>, Seq<char>>,
    },
}

/// The outside world as the manager sees it. Every question goes through
/// here and is entered in the journal with its answer.
pub struct Host<T: Transport, C: Cryptography> {
    transport: T,
    crypto: C,
    journal: Ghost<Seq<Exchange>>,
}

impl<T: Transport, C: Cryptography> Host<T, C> {
    /// Everything that was asked so far, in order.
    pub closed spec fn journal(&self) -> Seq<Exchange> {
        self.journal@
    }

    /// A host with an empty journal.
    pub fn new(transport: T, crypto: C) -> (host: Self)
        ensures
            host.journal() == Seq::<Exchange>::empty(),
    {
        Host { transport, crypto, journal: Ghost(Seq::empty()) }
    }

    /// Calls the bridging server.
    pub fn round_trip(&mut self, config: &PushConfiguration, call: &BridgeCall) -> (reply: Reply)
        ensures
            final(self).journal() == old(self).journal().push(
                Exchange::Call { config: config@, call: call@, reply: reply_view(reply) },
            ),
    {
        let reply = self.transport.round_trip(config, call);
        self.journal = Ghost(
            self.journal@.push(
                Exchange::Call { config: config@, call: call@, reply: reply_view(reply) },
            ),
        );
        reply
    }

    /// Asks for key material.
    pub fn generate_keys(&mut self) -> (generated: Result<KeyMaterial, String>)
        ensures
            final(self).journal() == old(self).journal().push(
                Exchange::Keys { generated: generated_view(generated) },
            ),
    {
        let generated = self.crypto.generate_keys();
        self.journal = Ghost(
            self.journal@.push(Exchange::Keys { generated: generated_view(generated) }),
        );
        generated
    }

    /// Asks for entropy.
    pub fn random_bytes(&mut self, count: usize) -> (bytes: Result<Vec<u8>, String>)
        ensures
            final(self).journal() == old(self).journal().push(
                Exchange::Entropy { count, bytes: bytes_view(bytes) },
            ),
    {
        let bytes = self.crypto.random_bytes(count);
        self.journal = Ghost(self.journal@.push(Exchange::Entropy { count, bytes: bytes_view(bytes) }));
        bytes
    }

    /// Asks for the plaintext of a message.
    pub fn decrypt(
        &mut self,
        encoding: Encoding,
        ciphertext: &Vec<u8>,
        private_key: &Vec<u8>,
        auth_secret: &Vec<u8>,
        salt: &str,
        dh: &str,
    ) -> (opened: Result<Vec<u8>, String>)
        ensures
            final(self).journal() == old(self).journal().push(
                Exchange::Decrypt {
                    encoding,
                    ciphertext: ciphertext@,
                    private_key: private_key@,
                    auth_secret: auth_secret@,
                    salt: salt@,
                    dh: dh@,
                    opened: bytes_view(opened),
                },
            ),
    {
        let opened = self.crypto.decrypt(encoding, ciphertext, private_key, auth_secret, salt, dh);
        self.journal = Ghost(
            self.journal@.push(
                Exchange::Decrypt {
                    encoding,
                    ciphertext: ciphertext@,
                    private_key: private_key@,
                    auth_secret: auth_secret@,
                    salt: salt@,
                    dh: dh@,
                    opened: bytes_view(opened),
                },
            ),
        );
        opened
    }
}

} // verus!
