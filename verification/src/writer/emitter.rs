//! The FBX emitter: dispatch of events to the binary or ASCII writer,
//! with the configuration checks and the error latch.

use vstd::prelude::*;

use crate::common::FbxFormatType;
use crate::writer::ascii::{
    ascii_end_node_bytes, ascii_header_bytes, ascii_prop_ok, ascii_start_node_bytes, comment_text,
    AsciiEmitter,
};
use crate::writer::binary::{
    end_fbx_bytes, set_top_true, start_fbx_bytes, start_node_bytes, start_node_ok, BinaryEmitter,
};
use crate::writer::error::{Error, Result};
use crate::writer::events::FbxEvent;
use crate::writer::sink::{splice, MemSink};
use crate::writer::EmitterConfig;
use crate::wire::{enc_field, EventData};

verus! {

/// Which form is being written, with the writer for it.
#[derive(Debug, Clone)]
pub enum EmitterState {
    /// Nothing written yet; only `StartFbx` is welcome.
    Initial,
    /// Writing binary FBX.
    Binary(BinaryEmitter),
    /// Writing ASCII FBX.
    Ascii(AsciiEmitter),
}

/// The event dispatcher around the two emitters.
pub struct Emitter {
    /// The configuration the emitter was created with.
    pub config: EmitterConfig,
    /// The first error, repeated forever after.
    pub done: Option<Error>,
    /// Which writer is active.
    pub state: EmitterState,
}

/// What one write does: `post` and `r` against `pre` over the event's
/// value.  From `Initial` only `StartFbx` is accepted, checked against the
/// configured version; in a stream, each event behaves as the active
/// form's emitter has it; every error latches and then repeats.
pub open spec fn write_spec(
    pre: Emitter,
    presink: MemSink,
    ev: EventData,
    post: Emitter,
    postsink: MemSink,
    r: Result<()>,
) -> bool {
    &&& (pre.done matches Some(e0) ==> r matches Err(e1) && e1 == e0 && postsink == presink)
    &&& (pre.done is None ==> match pre.state {
        EmitterState::Initial => match ev {
            EventData::StartFbx(FbxFormatType::Binary(v)) => {
                if pre.config.fbx_version matches Some(cv) && cv != v {
                    r matches Err(e) && e is InvalidOption && post.done == Some(e)
                } else if 7000 <= v < 8000 && presink.data@.len() + 27 <= usize::MAX {
                    &&& r is Ok
                    &&& postsink.data@ == presink.data@ + start_fbx_bytes(v)
                    &&& post.state matches EmitterState::Binary(be) && be.version == v
                        && be.end_offset_pos_stack@.len() == 0
                        && be.null_record_necessities@.len() == 0
                    &&& post.done is None
                } else {
                    r matches Err(e) && (e is UnsupportedFbxVersion || e is DataTooLarge)
                        && post.done == Some(e)
                }
            },
            EventData::StartFbx(FbxFormatType::Ascii) => match pre.config.fbx_version {
                Option::None => r matches Err(e) && e is InvalidOption && post.done == Some(e),
                Option::Some(v) => if 7000 <= v < 8000 && presink.data@.len()
                    + ascii_header_bytes(v).len() <= usize::MAX {
                    &&& r is Ok
                    &&& postsink.data@ == presink.data@ + ascii_header_bytes(v)
                    &&& post.state matches EmitterState::Ascii(ae)
                        && ae.prop_child_existence@.len() == 0
                    &&& post.done is None
                } else {
                    r matches Err(e) && (e is UnsupportedFbxVersion || e is DataTooLarge)
                        && post.done == Some(e)
                },
            },
            _ => r matches Err(e) && e == Error::FbxNotStarted && post.done == Some(e) && postsink
                == presink,
        },
        EmitterState::Binary(be) => match ev {
            EventData::StartFbx(_) => r matches Err(e) && e == Error::FbxAlreadyStarted
                && post.done == Some(e) && postsink == presink,
            EventData::EndFbx => {
                if presink.data@.len() + end_fbx_bytes(be.version, presink.data@.len() as int).len()
                    <= usize::MAX {
                    &&& r is Ok
                    &&& postsink.data@ == presink.data@ + end_fbx_bytes(
                        be.version,
                        presink.data@.len() as int,
                    )
                    &&& post.state == pre.state
                    &&& post.done is None
                } else {
                    r matches Err(e) && e is DataTooLarge && post.done == Some(e)
                }
            },
            EventData::StartNode { name, properties } => {
                if start_node_ok(be.version, name, properties, presink.data@.len() as int) {
                    &&& r is Ok
                    &&& postsink.data@ == presink.data@ + start_node_bytes(
                        be.version,
                        name,
                        properties,
                    )
                    &&& post.state matches EmitterState::Binary(be2) && be2.version == be.version
                        && be2.end_offset_pos_stack@ == be.end_offset_pos_stack@.push(
                        presink.data@.len() as usize,
                    ) && be2.null_record_necessities@ == set_top_true(
                        be.null_record_necessities@,
                    ).push(properties.len() == 0)
                    &&& post.done is None
                } else {
                    r matches Err(e) && e is DataTooLarge && post.done == Some(e)
                }
            },
            EventData::EndNode => {
                if be.null_record_necessities@.len() == 0 {
                    r matches Err(e) && e == Error::ExtraEndNode && post.done == Some(e)
                        && postsink == presink
                } else {
                    let flag = be.null_record_necessities@.last();
                    let nullrec = if flag {
                        crate::wire::null_record_bytes(be.version)
                    } else {
                        Seq::<u8>::empty()
                    };
                    let newlen = presink.data@.len() + nullrec.len();
                    let slot = be.end_offset_pos_stack@.last();
                    if newlen <= usize::MAX && (be.version >= 7500 || newlen <= u32::MAX) {
                        &&& r is Ok
                        &&& postsink.data@ == splice(
                            presink.data@ + nullrec,
                            slot as int,
                            enc_field(newlen as u64, be.version),
                        )
                        &&& post.state matches EmitterState::Binary(be2) && be2.version
                            == be.version && be2.end_offset_pos_stack@
                            == be.end_offset_pos_stack@.drop_last()
                            && be2.null_record_necessities@
                            == be.null_record_necessities@.drop_last()
                        &&& post.done is None
                    } else {
                        r matches Err(e) && e is DataTooLarge && post.done == Some(e)
                    }
                }
            },
            EventData::Comment(_) => {
                if pre.config.ignore_minor_errors {
                    r is Ok && postsink == presink && post == pre
                } else {
                    r matches Err(e) && e == Error::UnwritableEvent && post.done == Some(e)
                        && postsink == presink
                }
            },
        },
        EmitterState::Ascii(ae) => match ev {
            EventData::StartFbx(_) => r matches Err(e) && e == Error::FbxAlreadyStarted
                && post.done == Some(e) && postsink == presink,
            EventData::EndFbx => r is Ok && postsink == presink && post == pre,
            EventData::StartNode { name, properties } => {
                let st = ae.prop_child_existence@;
                let written = ascii_start_node_bytes(st, name, properties);
                if (forall|i: int|
                    0 <= i < properties.len() ==> ascii_prop_ok(#[trigger] properties[i]))
                    && presink.data@.len() + written.len() <= usize::MAX {
                    &&& r is Ok
                    &&& postsink.data@ == presink.data@ + written
                    &&& post.state matches EmitterState::Ascii(ae2) && ae2.prop_child_existence@
                        == (if st.len() > 0 {
                        st.update(st.len() - 1, (st.last().0, true))
                    } else {
                        st
                    }).push((properties.len() > 0, false))
                    &&& post.done is None
                } else {
                    r matches Err(e) && (e is Unimplemented || e is DataTooLarge) && post.done
                        == Some(e)
                }
            },
            EventData::EndNode => {
                if ae.prop_child_existence@.len() == 0 {
                    r matches Err(e) && e == Error::ExtraEndNode && post.done == Some(e)
                        && postsink == presink
                } else {
                    let st = ae.prop_child_existence@;
                    let written = ascii_end_node_bytes(st.last(), st.len() - 1);
                    if presink.data@.len() + written.len() <= usize::MAX {
                        &&& r is Ok
                        &&& postsink.data@ == presink.data@ + written
                        &&& post.state matches EmitterState::Ascii(ae2)
                            && ae2.prop_child_existence@ == st.drop_last()
                        &&& post.done is None
                    } else {
                        r matches Err(e) && e is DataTooLarge && post.done == Some(e)
                    }
                }
            },
            EventData::Comment(text) => {
                let written = comment_text(
                    ae.prop_child_existence@.len() as int,
                    vstd::utf8::encode_utf8(text),
                    0,
                );
                if presink.data@.len() + written.len() <= usize::MAX {
                    &&& r is Ok
                    &&& postsink.data@ == presink.data@ + written
                    &&& post.state == pre.state
                    &&& post.done is None
                } else {
                    r matches Err(e) && e is DataTooLarge && post.done == Some(e)
                }
            },
        },
    })
}

impl Emitter {
    /// The sink stands at its end and, in the binary form, the emitter's
    /// records agree with it — or an error was latched and nothing more
    /// will be written.
    pub open spec fn wf(&self, sink: MemSink) -> bool {
        self.done is Some || (match self.state {
            EmitterState::Binary(be) => be.wf(sink),
            _ => sink.pos == sink.data@.len(),
        })
    }

    /// Constructs an emitter that expects `StartFbx` next.
    pub fn new(config: EmitterConfig) -> (r: Self)
        ensures
            r.config == config,
            r.done is None,
            r.state is Initial,
    {
        Emitter { config, done: None, state: EmitterState::Initial }
    }

    /// Writes one event, or repeats the latched error.
    pub fn write(&mut self, sink: &mut MemSink, event: FbxEvent<'_>) -> (r: Result<()>)
        requires
            old(self).wf(*old(sink)),
        ensures
            final(self).wf(*final(sink)),
            final(self).config == old(self).config,
            write_spec(*old(self), *old(sink), event@, *final(self), *final(sink), r),
    {
        match &self.done {
            Some(e) => {
                return Err(e.duplicate());
            },
            None => {},
        }
        let kind: u8 = match &self.state {
            EmitterState::Initial => 0,
            EmitterState::Binary(_) => 1,
            EmitterState::Ascii(_) => 2,
        };
        let result: Result<()>;
        if kind == 0 {
            match event {
                FbxEvent::StartFbx(FbxFormatType::Binary(ver)) => {
                    let mut mismatch = false;
                    match &self.config.fbx_version {
                        Some(cv) => {
                            if *cv != ver {
                                mismatch = true;
                            }
                        },
                        None => {},
                    }
                    if mismatch {
                        result = Err(
                            Error::InvalidOption(
                                "The configured FBX version differs from the one given".to_owned(),
                            ),
                        );
                    } else {
                        let mut be = BinaryEmitter::new(ver);
                        match be.emit_start_fbx(sink, ver) {
                            Ok(()) => {
                                self.state = EmitterState::Binary(be);
                                result = Ok(());
                            },
                            Err(e) => {
                                result = Err(e);
                            },
                        }
                    }
                },
                FbxEvent::StartFbx(FbxFormatType::Ascii) => {
                    match self.config.fbx_version {
                        None => {
                            result = Err(
                                Error::InvalidOption(
                                    "ASCII output needs a configured FBX version".to_owned(),
                                ),
                            );
                        },
                        Some(ver) => {
                            let mut ae = AsciiEmitter::new();
                            match ae.emit_start_fbx(sink, ver) {
                                Ok(()) => {
                                    self.state = EmitterState::Ascii(ae);
                                    result = Ok(());
                                },
                                Err(e) => {
                                    result = Err(e);
                                },
                            }
                        },
                    }
                },
                _ => {
                    result = Err(Error::FbxNotStarted);
                },
            }
        } else if kind == 1 {
            result = match &mut self.state {
                EmitterState::Binary(be) => match event {
                    FbxEvent::StartFbx(_) => Err(Error::FbxAlreadyStarted),
                    FbxEvent::EndFbx => be.emit_end_fbx(sink),
                    FbxEvent::StartNode { name, properties } => be.emit_start_node(
                        sink,
                        name,
                        properties.as_slice(),
                    ),
                    FbxEvent::EndNode => be.emit_end_node(sink),
                    FbxEvent::Comment(_) => {
                        if self.config.ignore_minor_errors {
                            // A comment cannot be stored in binary FBX;
                            // dropping it is the one tolerated mismatch.
                            Ok(())
                        } else {
                            Err(Error::UnwritableEvent)
                        }
                    },
                },
                _ => {
                    proof {
                        assert(false);
                    }
                    Err(Error::FbxNotStarted)
                },
            };
        } else {
            result = match &mut self.state {
                EmitterState::Ascii(ae) => match event {
                    FbxEvent::StartFbx(_) => Err(Error::FbxAlreadyStarted),
                    FbxEvent::EndFbx => ae.emit_end_fbx(sink),
                    FbxEvent::StartNode { name, properties } => ae.emit_start_node(
                        sink,
                        name,
                        properties.as_slice(),
                    ),
                    FbxEvent::EndNode => ae.emit_end_node(sink),
                    FbxEvent::Comment(text) => ae.emit_comment(sink, text),
                },
                _ => {
                    proof {
                        assert(false);
                    }
                    Err(Error::FbxNotStarted)
                },
            };
        }
        match &result {
            Ok(()) => {},
            Err(e) => {
                self.done = Some(e.duplicate());
            },
        }
        result
    }
}

} // verus!
