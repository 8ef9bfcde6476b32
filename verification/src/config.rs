use vstd::prelude::*;

verus! {

/// Buffer sizing and timeout knobs for the handshake layer.
///
/// Purely declarative: consumers interpret a zero buffer size under their own
/// policy, so no setter rejects any value.
#[derive(PartialEq, Eq, Debug, Copy, Clone, Structural)]
pub struct HandshakerConfig {
    pub sink_buffer_size: usize,
    pub wait_buffer_size: usize,
    pub done_buffer_size: usize,
    pub handshake_timeout_millis: u64,
}

pub const DEFAULT_HANDSHAKE_BUFFER_SIZE: usize = 1000;

pub const DEFAULT_WAIT_BUFFER_SIZE: usize = 10;

pub const DEFAULT_DONE_BUFFER_SIZE: usize = 10;

pub const DEFAULT_HANDSHAKE_TIMEOUT_MILLIS: u64 = 1000;

impl HandshakerConfig {
    /// Sets the buffer size that the handshake sink uses internally
    /// to hold initiate messages before they are processed.
    pub fn set_sink_buffer_size(&mut self, size: usize)
        ensures
            *final(self) == (HandshakerConfig { sink_buffer_size: size, ..*old(self) }),
    {
        self.sink_buffer_size = size;
    }

    /// Gets the sink buffer size.
    pub fn sink_buffer_size(&self) -> (size: usize)
        ensures
            size == self.sink_buffer_size,
    {
        self.sink_buffer_size
    }

    /// Sets the buffer size that the handshaker uses internally
    /// to store handshake connections before they are processed.
    pub fn set_wait_buffer_size(&mut self, size: usize)
        ensures
            *final(self) == (HandshakerConfig { wait_buffer_size: size, ..*old(self) }),
    {
        self.wait_buffer_size = size;
    }

    /// Gets the wait buffer size.
    pub fn wait_buffer_size(&self) -> (size: usize)
        ensures
            size == self.wait_buffer_size,
    {
        self.wait_buffer_size
    }

    /// Sets the buffer size that the handshake stream uses internally
    /// to store processed handshake connections before they are yielded.
    pub fn set_done_buffer_size(&mut self, size: usize)
        ensures
            *final(self) == (HandshakerConfig { done_buffer_size: size, ..*old(self) }),
    {
        self.done_buffer_size = size;
    }

    /// Gets the done buffer size.
    pub fn done_buffer_size(&self) -> (size: usize)
        ensures
            size == self.done_buffer_size,
    {
        self.done_buffer_size
    }

    /// Sets the timeout, in milliseconds, that the handshaker uses to
    /// make sure peers do not take too long to respond to us.
    pub fn set_handshake_timeout(&mut self, timeout_millis: u64)
        ensures
            *final(self) == (HandshakerConfig { handshake_timeout_millis: timeout_millis, ..*old(self) }),
    {
        self.handshake_timeout_millis = timeout_millis;
    }

    /// Gets the handshake timeout in milliseconds.
    pub fn handshake_timeout(&self) -> (timeout_millis: u64)
        ensures
            timeout_millis == self.handshake_timeout_millis,
    {
        self.handshake_timeout_millis
    }
}

impl Default for HandshakerConfig {
    /// The stock configuration: sink buffer 1000, wait buffer 10, done
    /// buffer 10, handshake timeout 1000 ms.
    fn default() -> (cfg: HandshakerConfig)
        ensures
            cfg == (HandshakerConfig {
                sink_buffer_size: DEFAULT_HANDSHAKE_BUFFER_SIZE,
                wait_buffer_size: DEFAULT_WAIT_BUFFER_SIZE,
                done_buffer_size: DEFAULT_DONE_BUFFER_SIZE,
                handshake_timeout_millis: DEFAULT_HANDSHAKE_TIMEOUT_MILLIS,
            }),
    {
        HandshakerConfig {
            sink_buffer_size: DEFAULT_HANDSHAKE_BUFFER_SIZE,
            wait_buffer_size: DEFAULT_WAIT_BUFFER_SIZE,
            done_buffer_size: DEFAULT_DONE_BUFFER_SIZE,
            handshake_timeout_millis: DEFAULT_HANDSHAKE_TIMEOUT_MILLIS,
        }
    }
}

} // verus!
