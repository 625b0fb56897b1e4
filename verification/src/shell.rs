//! Plain shell-facing types — command-line requests, ad-hoc messages between
//! a running instance and a command-line invocation, configuration records —
//! and the on-screen-display lifecycle decisions.

use vstd::prelude::*;

verus! {

/// The layer a surface occupies.
#[derive(Clone, Copy, Debug, PartialEq, Eq, Structural)]
pub enum WindowLayer {
    /// Behind everything.
    Background,
    /// Below the windows.
    Bottom,
    /// Above the windows.
    Top,
    /// Above everything.
    Overlay,
}

/// What a command-line invocation asks of the running instance.
#[derive(Clone, Debug)]
pub enum Command {
    /// Pass a message to a given module.
    Pass {
        /// Module to pass the message to.
        module: String,
        /// Message that is passed to the module.
        message: String,
    },
    /// Change the layer the bar occupies.
    Layer {
        /// Name of the layer, empty for the default one.
        layer: Option<WindowLayer>,
    },
}

/// The parsed command line.
#[derive(Clone, Debug)]
pub struct Args {
    /// The requested command, if any.
    pub command: Option<Command>,
}

/// A message passed between a command-line invocation and the running
/// instance.
#[derive(Clone, Debug)]
pub enum IpcMessage {
    /// Pass a message to the named module.
    ModuleUpdate(String, String),
    /// Move the bar to another layer.
    LayerChange(Option<WindowLayer>),
}

/// Settings of the on-screen display.
#[derive(Clone, Copy, Debug)]
pub struct ConfigOsd {
    /// Whether the on-screen display is enabled.
    pub enabled: bool,
    /// The layer the display is rendered on.
    pub layer: WindowLayer,
    /// How long an event stays on screen, in milliseconds.
    pub timeout: u64,
    /// How long the display hides while respawning, in milliseconds, giving
    /// the compositor time for an animation.
    pub respawn_time: u64,
}

impl Default for ConfigOsd {
    /// The stock settings: enabled, on the overlay layer, four seconds on
    /// screen, a fifth of a second to respawn.
    fn default() -> (r: Self)
        ensures
            r.enabled,
            r.layer is Overlay,
            r.timeout == 4000,
            r.respawn_time == 200,
    {
        ConfigOsd { enabled: true, layer: WindowLayer::Overlay, timeout: 4000, respawn_time: 200 }
    }
}

/// Settings of the clock.
#[derive(Clone, Copy, Debug)]
pub struct ConfigClock {
    /// Whether to show the seconds indicator; without it, minutes may lag.
    pub seconds: bool,
}

impl Default for ConfigClock {
    /// The stock settings: seconds shown.
    fn default() -> (r: Self)
        ensures
            r.seconds,
    {
        ConfigClock { seconds: true }
    }
}

/// A message the on-screen display reacts to.
#[derive(Clone, Copy, Debug, PartialEq, Eq, Structural)]
pub enum OsdMessage {
    /// The on-screen timeout passed: close the display.
    Close,
    /// The respawn pause passed: show the display again.
    Respawn,
}

/// What an on-screen-display decision asks the surface layer to do.
#[derive(Clone, Copy, Debug, PartialEq, Eq, Structural)]
pub enum OsdAction {
    /// Create the display surface now.
    CreateSurface,
    /// Destroy the surface and respawn it after the respawn pause.
    RespawnLater,
    /// Leave the surface as it is.
    Keep,
}

/// The lifecycle state of the on-screen display: which module's event is
/// showing, which showed before — the surface outlives its event briefly —
/// and whether a respawn is pending.
pub struct OsdHandler {
    /// The module and event currently showing.
    pub current: Option<(u64, u32)>,
    /// What showed before; rendering may still ask for it while the surface
    /// closes.
    pub last: Option<(u64, u32)>,
    /// Whether the surface is between destruction and respawn.
    pub respawning: bool,
}

impl OsdHandler {
    /// A display showing nothing.
    pub fn new() -> (r: Self)
        ensures
            r.current is None,
            r.last is None,
            !r.respawning,
    {
        OsdHandler { current: None, last: None, respawning: false }
    }

    /// A module requests the display for one of its events.  A dead surface
    /// is created; a live surface showing a different event is respawned so
    /// the change is visible; repeating the same event, or asking during a
    /// respawn, keeps everything as it is.  The on-screen timeout restarts
    /// either way.
    pub fn request_osd(&mut self, module: u64, osd: u32) -> (a: OsdAction)
        ensures
            final(self).current == Some((module, osd)),
            final(self).last == old(self).current,
            ({
                let alive = old(self).current is Some;
                let same = old(self).current == Some((module, osd));
                if !alive && !old(self).respawning {
                    a is CreateSurface && final(self).respawning == old(self).respawning
                } else if alive && !same && !old(self).respawning {
                    a is RespawnLater && final(self).respawning
                } else {
                    a is Keep && final(self).respawning == old(self).respawning
                }
            }),
    {
        let alive = self.current.is_some();
        let same = match self.current {
            Some((m, o)) => m == module && o == osd,
            None => false,
        };
        self.last = self.current;
        self.current = Some((module, osd));
        if !alive && !self.respawning {
            OsdAction::CreateSurface
        } else if alive && !same && !self.respawning {
            self.respawning = true;
            OsdAction::RespawnLater
        } else {
            OsdAction::Keep
        }
    }

    /// The on-screen timeout passed: the display empties, remembering what
    /// showed while the surface closes.
    pub fn on_close(&mut self)
        ensures
            final(self).current is None,
            final(self).last == old(self).current,
            final(self).respawning == old(self).respawning,
    {
        self.last = self.current;
        self.current = None;
    }

    /// The respawn pause passed: the surface is created again and the
    /// timeout restarts.
    pub fn on_respawn(&mut self) -> (a: OsdAction)
        ensures
            !final(self).respawning,
            final(self).current == old(self).current,
            final(self).last == old(self).last,
            a is CreateSurface,
    {
        self.respawning = false;
        OsdAction::CreateSurface
    }

    /// What the display renders: the current event, or the one just closed
    /// while the surface still lives.
    pub fn active(&self) -> (r: Option<(u64, u32)>)
        ensures
            self.current is Some ==> r == self.current,
            self.current is None ==> r == self.last,
    {
        match self.current {
            Some(cur) => Some(cur),
            None => self.last,
        }
    }
}

} // verus!
