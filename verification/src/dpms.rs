//! Tracking of the screen power state reported by the compositor's DPMS
//! protocols (KDE's `org_kde_kwin_dpms` and wlroots'
//! `zwlr_output_power_management_v1`).

use vstd::prelude::*;
use vstd::utf8::*;

verus! {

/// The power state of the screen.
#[derive(Debug, Clone, Copy, PartialEq, Eq, Structural)]
pub enum ScreenPowerState {
    On,
    Off,
}

/// The state that a mode report of `on` stands for.
pub open spec fn power_state_of(on: bool) -> ScreenPowerState {
    if on {
        ScreenPowerState::On
    } else {
        ScreenPowerState::Off
    }
}

/// What the DPMS monitor remembers between compositor events: the last
/// state it has seen, and whether the compositor has finished reporting the
/// initial state.
pub struct DpmsTracker {
    pub last_state: Option<ScreenPowerState>,
    pub initial_done: bool,
}

impl DpmsTracker {
    /// A tracker that has seen nothing yet.
    pub fn new() -> (t: DpmsTracker)
        ensures
            t.last_state is None,
            !t.initial_done,
    {
        DpmsTracker { last_state: None, initial_done: false }
    }

    /// Records a mode report (`on` is true when the output is on) and returns
    /// the state to announce, if any.
    ///
    /// While the initial state is still being reported, the state is only
    /// remembered; afterwards a state is announced exactly when it differs
    /// from the last one seen.
    pub fn handle_mode_change(&mut self, on: bool) -> (announce: Option<ScreenPowerState>)
        ensures
            *final(self) == after_mode(*old(self), on),
            announce == announced(*old(self), on),
    {
        let new_state = if on {
            ScreenPowerState::On
        } else {
            ScreenPowerState::Off
        };
        let changed = match self.last_state {
            Some(s) => s != new_state,
            None => true,
        };
        if self.initial_done && changed {
            self.last_state = Some(new_state);
            Some(new_state)
        } else {
            self.last_state = Some(new_state);
            None
        }
    }

    /// Handles an event of KDE's `org_kde_kwin_dpms` object and returns the
    /// state to announce, if any. KDE reports mode 0 for "on" (1, 2 and 3 are
    /// standby, suspend and off); `Done` ends the initial report.
    pub fn on_kde_event(&mut self, event: KdeDpmsEvent) -> (announce: Option<ScreenPowerState>)
        ensures
            match event {
                KdeDpmsEvent::Mode { mode } => {
                    &&& final(self).initial_done == old(self).initial_done
                    &&& final(self).last_state == Some(power_state_of(mode == 0))
                    &&& announce == announced(*old(self), mode == 0)
                },
                KdeDpmsEvent::Done => {
                    &&& final(self).initial_done
                    &&& final(self).last_state == old(self).last_state
                    &&& announce is None
                },
                KdeDpmsEvent::Supported { .. } => {
                    &&& *final(self) == *old(self)
                    &&& announce is None
                },
            },
    {
        match event {
            KdeDpmsEvent::Mode { mode } => self.handle_mode_change(mode == 0),
            KdeDpmsEvent::Done => {
                self.initial_done = true;
                None
            },
            KdeDpmsEvent::Supported { .. } => None,
        }
    }

    /// Handles an event of a wlroots `zwlr_output_power_v1` object and returns
    /// the state to announce, if any. wlroots has no batching event: each mode
    /// report is final, so it also ends the initial report.
    pub fn on_wlr_event(&mut self, event: WlrPowerEvent) -> (announce: Option<ScreenPowerState>)
        ensures
            match event {
                WlrPowerEvent::Mode { on } => {
                    &&& final(self).initial_done
                    &&& final(self).last_state == Some(power_state_of(on))
                    &&& announce == announced(*old(self), on)
                },
                WlrPowerEvent::Failed => {
                    &&& *final(self) == *old(self)
                    &&& announce is None
                },
            },
    {
        match event {
            WlrPowerEvent::Mode { on } => {
                let announce = self.handle_mode_change(on);
                self.initial_done = true;
                announce
            },
            WlrPowerEvent::Failed => None,
        }
    }
}

/// What a tracker in state `t` announces on a mode report of `on`.
pub open spec fn announced(t: DpmsTracker, on: bool) -> Option<ScreenPowerState> {
    if t.initial_done && t.last_state != Some(power_state_of(on)) {
        Some(power_state_of(on))
    } else {
        None
    }
}

/// A tracker in state `t` after a mode report of `on`.
pub open spec fn after_mode(t: DpmsTracker, on: bool) -> DpmsTracker {
    DpmsTracker { last_state: Some(power_state_of(on)), initial_done: t.initial_done }
}

/// The states announced over a run of mode reports `ons`, starting in `t`.
pub open spec fn announcements(t: DpmsTracker, ons: Seq<bool>) -> Seq<ScreenPowerState>
    decreases ons.len(),
{
    if ons.len() == 0 {
        seq![]
    } else {
        let rest = announcements(after_mode(t, ons[0]), ons.drop_first());
        match announced(t, ons[0]) {
            Some(s) => seq![s] + rest,
            None => rest,
        }
    }
}

/// Nothing is announced while the initial state is being reported.
pub proof fn lemma_silent_until_initial_done(t: DpmsTracker, ons: Seq<bool>)
    requires
        !t.initial_done,
    ensures
        announcements(t, ons) == Seq::<ScreenPowerState>::empty(),
    decreases ons.len(),
{
    if ons.len() > 0 {
        lemma_silent_until_initial_done(after_mode(t, ons[0]), ons.drop_first());
    }
}

/// Once the initial state is known, the announced states are exactly the
/// changes: the first one differs from the last state seen, and no two
/// announcements in a row are the same state. A repeated report is never
/// announced.
pub proof fn lemma_announces_only_changes(t: DpmsTracker, ons: Seq<bool>)
    requires
        t.initial_done,
    ensures
        announcements(t, ons).len() > 0 ==> t.last_state != Some(announcements(t, ons)[0]),
        forall|i: int|
            0 <= i < announcements(t, ons).len() - 1 ==> #[trigger] announcements(t, ons)[i]
                != announcements(t, ons)[i + 1],
    decreases ons.len(),
{
    if ons.len() > 0 {
        let t2 = after_mode(t, ons[0]);
        let rest = announcements(t2, ons.drop_first());
        lemma_announces_only_changes(t2, ons.drop_first());
        let all = announcements(t, ons);
        match announced(t, ons[0]) {
            Some(s) => {
                assert(all == seq![s] + rest);
                assert forall|i: int| 0 <= i < all.len() - 1 implies #[trigger] all[i] != all[i
                    + 1] by {
                    if i > 0 {
                        assert(all[i] == rest[i - 1]);
                        assert(all[i + 1] == rest[i]);
                    }
                }
            },
            None => {},
        }
    }
}

/// A report that repeats the state just reported announces nothing.
pub proof fn lemma_repeat_is_silent(t: DpmsTracker, on: bool)
    ensures
        announced(after_mode(t, on), on) is None,
{
}

/// An event of KDE's `org_kde_kwin_dpms` object.
pub enum KdeDpmsEvent {
    Mode { mode: u32 },
    Done,
    Supported { supported: u32 },
}

/// An event of a wlroots `zwlr_output_power_v1` object; `on` is true when
/// the reported mode is "on".
pub enum WlrPowerEvent {
    Mode { on: bool },
    Failed,
}

/// What to bind when the compositor announces a global.
#[derive(Debug, Clone, Copy, PartialEq, Eq, Structural)]
pub enum RegistryBinding {
    /// Bind KDE's DPMS manager at this version.
    KdeDpmsManager { version: u32 },
    /// Bind the wlroots output power manager at this version.
    WlrPowerManager { version: u32 },
    /// Bind an output at this version and remember it.
    Output { version: u32 },
    /// Leave the global alone.
    Ignore,
}

pub open spec fn min_u32(a: u32, b: u32) -> u32 {
    if a < b {
        a
    } else {
        b
    }
}

/// The binding that a global with the given interface name and version calls
/// for. A DPMS manager is only bound while no backend has been chosen.
pub open spec fn binding_for(interface: Seq<char>, version: u32, has_backend: bool) -> RegistryBinding {
    if interface == "org_kde_kwin_dpms_manager"@ && !has_backend {
        RegistryBinding::KdeDpmsManager { version: min_u32(version, 1) }
    } else if interface == "zwlr_output_power_manager_v1"@ && !has_backend {
        RegistryBinding::WlrPowerManager { version: min_u32(version, 1) }
    } else if interface == "wl_output"@ {
        RegistryBinding::Output { version: min_u32(version, 4) }
    } else {
        RegistryBinding::Ignore
    }
}

/// A global is never bound above the version the compositor advertises: an
/// output is bound at the advertised version capped at 4, a DPMS manager at
/// the advertised version capped at 1, and only the named interfaces are
/// bound at all (a DPMS manager only while no backend has been chosen).
pub proof fn lemma_binding_versions(interface: Seq<char>, version: u32, has_backend: bool)
    ensures
        binding_for(interface, version, has_backend) matches RegistryBinding::Output {
            version: v,
        } ==> v <= version && v <= 4 && (version <= 4 ==> v == version) && (version >= 4 ==> v
            == 4),
        binding_for(interface, version, has_backend) matches RegistryBinding::KdeDpmsManager {
            version: v,
        } ==> v <= version && v <= 1 && (version >= 1 ==> v == 1) && !has_backend,
        binding_for(interface, version, has_backend) matches RegistryBinding::WlrPowerManager {
            version: v,
        } ==> v <= version && v <= 1 && (version >= 1 ==> v == 1) && !has_backend,
        interface == "wl_output"@ ==> binding_for(interface, version, has_backend) matches RegistryBinding::Output { .. },
{
    reveal_strlit("wl_output");
    reveal_strlit("org_kde_kwin_dpms_manager");
    reveal_strlit("zwlr_output_power_manager_v1");
    assert("wl_output"@.len() != "org_kde_kwin_dpms_manager"@.len());
    assert("wl_output"@.len() != "zwlr_output_power_manager_v1"@.len());
}

/// Whether two strings hold the same characters, decided on their UTF-8 bytes.
fn same_text(a: &str, b: &str) -> (r: bool)
    ensures
        r == (a@ == b@),
{
    let x = a.as_bytes();
    let y = b.as_bytes();
    proof {
        encode_utf8_decode_utf8(a@);
        encode_utf8_decode_utf8(b@);
    }
    if x.len() != y.len() {
        return false;
    }
    let mut i: usize = 0;
    while i < x.len()
        invariant
            x@ == encode_utf8(a@),
            y@ == encode_utf8(b@),
            x.len() == y.len(),
            i <= x.len(),
            forall|j: int| 0 <= j < i ==> x@[j] == y@[j],
        decreases x.len() - i,
    {
        if x[i] != y[i] {
            return false;
        }
        i = i + 1;
    }
    assert(x@ =~= y@);
    true
}

/// Decides what to bind for a global announced by the compositor's registry.
pub fn registry_binding(interface: &str, version: u32, has_backend: bool) -> (b: RegistryBinding)
    ensures
        b == binding_for(interface@, version, has_backend),
        b matches RegistryBinding::Output { version: v } ==> v == (if version <= 4 {
            version
        } else {
            4
        }),
        b matches RegistryBinding::KdeDpmsManager { version: v } ==> v == (if version <= 1 {
            version
        } else {
            1
        }),
        b matches RegistryBinding::WlrPowerManager { version: v } ==> v == (if version <= 1 {
            version
        } else {
            1
        }),
{
    let v1 = if version < 1 {
        version
    } else {
        1
    };
    if !has_backend && same_text(interface, "org_kde_kwin_dpms_manager") {
        RegistryBinding::KdeDpmsManager { version: v1 }
    } else if !has_backend && same_text(interface, "zwlr_output_power_manager_v1") {
        RegistryBinding::WlrPowerManager { version: v1 }
    } else if same_text(interface, "wl_output") {
        RegistryBinding::Output {
            version: if version < 4 {
                version
            } else {
                4
            },
        }
    } else {
        RegistryBinding::Ignore
    }
}

} // verus!
