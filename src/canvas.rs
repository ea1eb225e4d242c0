use vstd::prelude::*;
use crate::context::DrawError;

verus! {

/// Window settings requested by the host.
#[derive(Clone, Copy, Debug, PartialEq, Eq, Structural)]
pub struct CanvasProperties {
    pub resizable: bool,
    pub width: u32,
    pub height: u32,
}

impl CanvasProperties {
    pub open spec fn initial() -> CanvasProperties {
        CanvasProperties { resizable: true, width: 500, height: 500 }
    }

    /// A resizable 500 by 500 window.
    pub fn default() -> (r: CanvasProperties)
        ensures
            r == CanvasProperties::initial(),
    {
        CanvasProperties { resizable: true, width: 500, height: 500 }
    }
}

/// Events handed to the host's event callback.
#[derive(Clone, Copy, Debug, PartialEq, Eq, Structural)]
pub enum Event {
    FrameUpdate,
}

/// The window host's settings; the event loop that drives it lives with the
/// platform code.
pub struct WinitCanvas {
    pub properties: CanvasProperties,
}

impl WinitCanvas {
    /// A canvas with the default properties.
    pub fn new() -> (r: Result<WinitCanvas, DrawError>)
        ensures
            r is Ok,
            r->Ok_0.properties == CanvasProperties::initial(),
    {
        Ok(WinitCanvas { properties: CanvasProperties::default() })
    }

    /// Replaces the window settings.
    pub fn set_properties(&mut self, properties: CanvasProperties)
        ensures
            final(self).properties == properties,
    {
        self.properties = properties;
    }
}

} // verus!
