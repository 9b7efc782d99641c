use vstd::prelude::*;

verus! {

#[derive(Clone, Debug)]
pub enum AudioError {
    DeviceNotFound(String),
    DeviceUnavailable(String),
    UnsupportedConfig(String),
    Backend(String),
}

/// An open output stream; closing it stops the callbacks.
pub trait AudioStreamHandle: Send {
    fn close(self: Box<Self>);
}

} // verus!
