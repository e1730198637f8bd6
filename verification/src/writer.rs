//! Interface for an event-based FBX emitter.

use vstd::prelude::*;

pub mod ascii;
pub mod binary;
pub mod emitter;
pub mod error;
pub mod events;
pub mod sink;

pub use error::Error;
pub use error::Result;
pub use events::FbxEvent;

use emitter::{write_spec, Emitter};
use sink::MemSink;

verus! {

/// A writer around an in-memory seekable sink which emits FBX.
pub struct EventWriter {
    /// The sink being written; the binary form patches earlier bytes of it.
    pub sink: MemSink,
    /// The emitter state.
    pub emitter: Emitter,
}

impl EventWriter {
    /// The emitter agrees with its sink.
    pub open spec fn wf(&self) -> bool {
        self.emitter.wf(self.sink)
    }

    /// Creates a new writer with default configuration.
    pub fn new(sink: MemSink) -> (r: Self)
        requires
            sink.pos == sink.data@.len(),
        ensures
            r.wf(),
            r.sink == sink,
            r.emitter.done is None,
            r.emitter.state is Initial,
            r.emitter.config == (EmitterConfig { ignore_minor_errors: true, fbx_version: None }),
    {
        EventWriter { sink, emitter: Emitter::new(EmitterConfig::new()) }
    }

    /// Creates a new writer with the provided configuration.
    pub fn new_with_config(sink: MemSink, config: EmitterConfig) -> (r: Self)
        requires
            sink.pos == sink.data@.len(),
        ensures
            r.wf(),
            r.sink == sink,
            r.emitter.done is None,
            r.emitter.state is Initial,
            r.emitter.config == config,
    {
        EventWriter { sink, emitter: Emitter::new(config) }
    }

    /// Writes the next piece of the FBX stream, as the event demands.
    pub fn write(&mut self, event: FbxEvent<'_>) -> (r: Result<()>)
        requires
            old(self).wf(),
        ensures
            final(self).wf(),
            final(self).emitter.config == old(self).emitter.config,
            write_spec(
                old(self).emitter,
                old(self).sink,
                event@,
                final(self).emitter,
                final(self).sink,
                r,
            ),
    {
        self.emitter.write(&mut self.sink, event)
    }

    /// Consumes the writer and hands out its sink.
    pub fn into_inner(self) -> (r: MemSink)
        ensures
            r == self.sink,
    {
        self.sink
    }
}

/// Configuration of an `EventWriter`.
#[derive(Debug, Clone, Copy, PartialEq, Eq, Structural)]
pub struct EmitterConfig {
    /// Whether non-fatal mismatches, such as a comment aimed at a binary
    /// stream, are tolerated and dropped.
    pub ignore_minor_errors: bool,
    /// The FBX version to write.  Mandatory for ASCII output; when set, a
    /// binary `StartFbx` must carry the same version.
    pub fbx_version: Option<u32>,
}

impl EmitterConfig {
    /// Creates a new config with default options.
    pub fn new() -> (r: Self)
        ensures
            r == (EmitterConfig { ignore_minor_errors: true, fbx_version: None }),
    {
        EmitterConfig { ignore_minor_errors: true, fbx_version: None }
    }

    /// Creates an FBX writer with this configuration.
    pub fn create_writer(self, sink: MemSink) -> (r: EventWriter)
        requires
            sink.pos == sink.data@.len(),
        ensures
            r.wf(),
            r.sink == sink,
            r.emitter.done is None,
            r.emitter.state is Initial,
            r.emitter.config == self,
    {
        EventWriter::new_with_config(sink, self)
    }

    /// Sets the field to the provided value and returns the updated config.
    pub fn ignore_minor_errors(self, value: bool) -> (r: Self)
        ensures
            r == (EmitterConfig { ignore_minor_errors: value, ..self }),
    {
        EmitterConfig { ignore_minor_errors: value, ..self }
    }

    /// Sets the FBX version to write.
    pub fn fbx_version(self, value: Option<u32>) -> (r: Self)
        ensures
            r == (EmitterConfig { fbx_version: value, ..self }),
    {
        EmitterConfig { fbx_version: value, ..self }
    }
}

impl Default for EmitterConfig {
    fn default() -> (r: EmitterConfig)
        ensures
            r == (EmitterConfig { ignore_minor_errors: true, fbx_version: None }),
    {
        EmitterConfig::new()
    }
}

} // verus!
