//! The registry of globals and outputs that one connection discovers.
use vstd::prelude::*;
use crate::outputs::{apply_spec, OutputDescriptor, OutputEvent};
use crate::text::{chars_eq, chars_of};

verus! {

/// The kinds of global objects the freeze needs from the display server.
#[derive(Debug, Clone, Copy, PartialEq, Eq, Structural)]
pub enum GlobalKind {
    Compositor,
    Shm,
    LayerShell,
    Output,
    OutputManager,
    Other,
}

pub open spec fn global_kind_spec(interface: Seq<char>) -> GlobalKind {
    if interface == "wl_compositor"@ {
        GlobalKind::Compositor
    } else if interface == "wl_shm"@ {
        GlobalKind::Shm
    } else if interface == "zwlr_layer_shell_v1"@ {
        GlobalKind::LayerShell
    } else if interface == "wl_output"@ {
        GlobalKind::Output
    } else if interface == "zxdg_output_manager_v1"@ {
        GlobalKind::OutputManager
    } else {
        GlobalKind::Other
    }
}

fn is_named(v: &Vec<char>, name: &str) -> (r: bool)
    ensures
        r == (v@ == name@),
{
    let n = chars_of(name);
    chars_eq(v, &n)
}

/// Which kind of global an announced interface name is.
pub fn classify_global(interface: &str) -> (r: GlobalKind)
    ensures
        r == global_kind_spec(interface@),
{
    let v = chars_of(interface);
    if is_named(&v, "wl_compositor") {
        GlobalKind::Compositor
    } else if is_named(&v, "wl_shm") {
        GlobalKind::Shm
    } else if is_named(&v, "zwlr_layer_shell_v1") {
        GlobalKind::LayerShell
    } else if is_named(&v, "wl_output") {
        GlobalKind::Output
    } else if is_named(&v, "zxdg_output_manager_v1") {
        GlobalKind::OutputManager
    } else {
        GlobalKind::Other
    }
}

/// The highest interface version this client speaks for each kind.
pub open spec fn max_version(kind: GlobalKind) -> u32 {
    match kind {
        GlobalKind::Compositor => 5,
        GlobalKind::Shm => 1,
        GlobalKind::LayerShell => 4,
        GlobalKind::Output => 4,
        GlobalKind::OutputManager => 3,
        GlobalKind::Other => 0,
    }
}

/// The version to bind: the advertised one, capped at what this client speaks.
pub fn bind_version(kind: GlobalKind, advertised: u32) -> (r: u32)
    ensures
        r == if advertised < max_version(kind) {
            advertised
        } else {
            max_version(kind)
        },
{
    let cap: u32 = match kind {
        GlobalKind::Compositor => 5,
        GlobalKind::Shm => 1,
        GlobalKind::LayerShell => 4,
        GlobalKind::Output => 4,
        GlobalKind::OutputManager => 3,
        GlobalKind::Other => 0,
    };
    if advertised < cap {
        advertised
    } else {
        cap
    }
}

/// A freshly announced output: nothing known yet, scale 1.
pub open spec fn fresh_output() -> OutputDescriptor {
    OutputDescriptor {
        name: None,
        scale: 1,
        position: None,
        mode_size: None,
        logical_position: None,
        logical_size: None,
    }
}

/// Globals seen so far, and every announced output in order of announcement.
pub struct OutputRegistry {
    pub has_compositor: bool,
    pub has_shm: bool,
    pub has_layer_shell: bool,
    pub has_output_manager: bool,
    pub outputs: Vec<OutputDescriptor>,
}

impl OutputRegistry {
    pub fn new() -> (r: OutputRegistry)
        ensures
            !r.has_compositor && !r.has_shm && !r.has_layer_shell && !r.has_output_manager,
            r.outputs@.len() == 0,
    {
        OutputRegistry {
            has_compositor: false,
            has_shm: false,
            has_layer_shell: false,
            has_output_manager: false,
            outputs: Vec::new(),
        }
    }

    /// Records an announced global. An output gets a fresh descriptor at the
    /// end; its index is returned, for the events that follow.
    pub fn announce(&mut self, kind: GlobalKind) -> (r: Option<usize>)
        ensures
            final(self).has_compositor == (old(self).has_compositor || kind
                == GlobalKind::Compositor),
            final(self).has_shm == (old(self).has_shm || kind == GlobalKind::Shm),
            final(self).has_layer_shell == (old(self).has_layer_shell || kind
                == GlobalKind::LayerShell),
            final(self).has_output_manager == (old(self).has_output_manager || kind
                == GlobalKind::OutputManager),
            kind == GlobalKind::Output ==> r == Some(old(self).outputs@.len() as usize),
            kind == GlobalKind::Output ==> final(self).outputs@ == old(self).outputs@.push(
                fresh_output(),
            ),
            kind != GlobalKind::Output ==> r is None,
            kind != GlobalKind::Output ==> final(self).outputs@ == old(self).outputs@,
    {
        match kind {
            GlobalKind::Compositor => {
                self.has_compositor = true;
                None
            },
            GlobalKind::Shm => {
                self.has_shm = true;
                None
            },
            GlobalKind::LayerShell => {
                self.has_layer_shell = true;
                None
            },
            GlobalKind::OutputManager => {
                self.has_output_manager = true;
                None
            },
            GlobalKind::Output => {
                let idx = self.outputs.len();
                self.outputs.push(OutputDescriptor::empty());
                Some(idx)
            },
            GlobalKind::Other => None,
        }
    }

    /// Records an event for the output at `index`; an unknown index is ignored.
    pub fn apply(&mut self, index: usize, event: OutputEvent)
        ensures
            final(self).has_compositor == old(self).has_compositor,
            final(self).has_shm == old(self).has_shm,
            final(self).has_layer_shell == old(self).has_layer_shell,
            final(self).has_output_manager == old(self).has_output_manager,
            final(self).outputs@.len() == old(self).outputs@.len(),
            forall|i: int|
                0 <= i < old(self).outputs@.len() && i != index ==> #[trigger] final(self).outputs@[i]
                    == old(self).outputs@[i],
            index < old(self).outputs@.len() ==> apply_spec(
                old(self).outputs@[index as int],
                event,
                final(self).outputs@[index as int],
            ),
    {
        if index < self.outputs.len() {
            let mut d = self.outputs[index].clone_descriptor();
            d.apply(event);
            self.outputs.set(index, d);
        }
    }
}

impl OutputDescriptor {
    /// A copy of this descriptor.
    pub fn clone_descriptor(&self) -> (r: OutputDescriptor)
        ensures
            r == *self,
    {
        let name = match &self.name {
            Some(n) => Some(n.clone()),
            None => None,
        };
        OutputDescriptor {
            name,
            scale: self.scale,
            position: self.position,
            mode_size: self.mode_size,
            logical_position: self.logical_position,
            logical_size: self.logical_size,
        }
    }
}

} // verus!
