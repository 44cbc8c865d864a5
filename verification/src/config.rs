//! The configuration that the server hands to every client.

use vstd::prelude::*;

verus! {

/// Game settings shared by both peers. The protocol carries them as a blob
/// of bytes and never looks inside.
#[derive(Debug, PartialEq, Eq)]
pub struct GameConfig {
    data: Vec<u8>,
}

impl View for GameConfig {
    type V = Seq<u8>;

    closed spec fn view(&self) -> Seq<u8> {
        self.data@
    }
}

impl GameConfig {
    /// A configuration that holds `data`.
    pub fn new(data: Vec<u8>) -> (config: GameConfig)
        ensures
            config@ == data@,
    {
        GameConfig { data }
    }

    /// The bytes of the configuration.
    pub fn as_bytes(&self) -> (bytes: &[u8])
        ensures
            bytes@ == self@,
    {
        self.data.as_slice()
    }
}

impl Default for GameConfig {
    /// The empty configuration.
    fn default() -> (config: GameConfig)
        ensures
            config@ == Seq::<u8>::empty(),
    {
        GameConfig { data: Vec::new() }
    }
}

impl Clone for GameConfig {
    fn clone(&self) -> (copy: GameConfig)
        ensures
            copy@ == self@,
    {
        GameConfig { data: self.data.clone() }
    }
}

} // verus!
