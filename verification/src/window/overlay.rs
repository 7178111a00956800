//! The overlay that fades: when it shows, and what holds it.
use vstd::prelude::*;

verus! {

/// The state of the overlay.
#[derive(Debug, Clone, Copy, PartialEq, Eq, Structural)]
pub struct Overlay {
    pub visible: bool,
    /// The pointer holds the seek bar.
    pub scrubbing: bool,
    /// The pointer rests on the controls.
    pub on_controls: bool,
    /// The pointer rests on what an empty window or an error offers.
    pub on_status: bool,
    pub menu_open: bool,
}

/// What happened to the pointer or to a menu.
#[derive(Debug, Clone, Copy, PartialEq, Eq, Structural)]
pub enum PointerEvent {
    /// It moved over the window.
    Moved,
    /// It left the window.
    Left,
    /// It pressed the seek bar.
    SeekPressed,
    SeekReleased,
    EnteredControls,
    LeftControls,
    EnteredStatus,
    LeftStatus,
    /// A menu opened or closed.
    Menu(bool),
    /// The time to fade is over.
    Elapsed,
}

/// Whether the overlay may not fade.
pub fn chrome_is_held(scrubbing: bool, pointer_on_chrome: bool, menu_open: bool) -> (result: bool)
    ensures
        result == (scrubbing || pointer_on_chrome || menu_open),
{
    scrubbing || pointer_on_chrome || menu_open
}

impl Overlay {
    /// Whether something holds the overlay on screen.
    pub open spec fn is_held(self) -> bool {
        self.scrubbing || self.on_controls || self.on_status || self.menu_open
    }

    pub open spec fn shown(self) -> Overlay {
        Overlay { visible: true, ..self }
    }

    /// The overlay when it is to fade: what is held, and any markup session, stays.
    pub open spec fn faded(self, marking: bool) -> Overlay {
        if marking || self.is_held() {
            self
        } else {
            Overlay { visible: false, ..self }
        }
    }

    /// The overlay after an event.
    pub open spec fn after(self, event: PointerEvent, marking: bool) -> Overlay {
        match event {
            PointerEvent::Moved => self.shown(),
            PointerEvent::Left => self.faded(marking),
            PointerEvent::SeekPressed => Overlay { scrubbing: true, ..self },
            PointerEvent::SeekReleased => Overlay { scrubbing: false, ..self }.shown(),
            PointerEvent::EnteredControls => Overlay { on_controls: true, ..self },
            PointerEvent::LeftControls => Overlay { on_controls: false, ..self }.shown(),
            PointerEvent::EnteredStatus => Overlay { on_status: true, ..self },
            PointerEvent::LeftStatus => Overlay { on_status: false, ..self }.shown(),
            PointerEvent::Menu(open) => Overlay { menu_open: open, ..self }.shown(),
            PointerEvent::Elapsed => self.faded(marking),
        }
    }

    pub fn new() -> (result: Self)
        ensures
            result == (Overlay {
                visible: false,
                scrubbing: false,
                on_controls: false,
                on_status: false,
                menu_open: false,
            }),
    {
        Overlay {
            visible: false,
            scrubbing: false,
            on_controls: false,
            on_status: false,
            menu_open: false,
        }
    }

    pub fn show(&mut self)
        ensures
            *final(self) == old(self).shown(),
    {
        self.visible = true;
    }

    /// Lets the overlay fade unless something holds it; returns whether it faded.
    pub fn fade(&mut self, marking: bool) -> (result: bool)
        ensures
            *final(self) == old(self).faded(marking),
            result == !(marking || old(self).is_held()),
    {
        if marking || chrome_is_held(
            self.scrubbing,
            self.on_controls || self.on_status,
            self.menu_open,
        ) {
            return false;
        }
        self.visible = false;
        true
    }

    /// Takes an event in; returns whether the time to fade starts over.
    pub fn handle(&mut self, event: PointerEvent, marking: bool) -> (result: bool)
        ensures
            *final(self) == old(self).after(event, marking),
            result == match event {
                PointerEvent::Moved | PointerEvent::SeekReleased | PointerEvent::LeftControls
                | PointerEvent::LeftStatus | PointerEvent::Menu(_) => true,
                _ => false,
            },
    {
        match event {
            PointerEvent::Moved => {
                self.show();
                true
            },
            PointerEvent::Left | PointerEvent::Elapsed => {
                self.fade(marking);
                false
            },
            PointerEvent::SeekPressed => {
                self.scrubbing = true;
                false
            },
            PointerEvent::SeekReleased => {
                self.scrubbing = false;
                self.show();
                true
            },
            PointerEvent::EnteredControls => {
                self.on_controls = true;
                false
            },
            PointerEvent::LeftControls => {
                self.on_controls = false;
                self.show();
                true
            },
            PointerEvent::EnteredStatus => {
                self.on_status = true;
                false
            },
            PointerEvent::LeftStatus => {
                self.on_status = false;
                self.show();
                true
            },
            PointerEvent::Menu(open) => {
                self.menu_open = open;
                self.show();
                true
            },
        }
    }

    /// The video is gone: no release of the seek bar will come.
    pub fn end_scrub(&mut self)
        ensures
            *final(self) == (Overlay { scrubbing: false, ..*old(self) }),
    {
        self.scrubbing = false;
    }

    /// What an empty window or an error offered is gone.
    pub fn status_hidden(&mut self)
        ensures
            *final(self) == (Overlay { on_status: false, ..*old(self) }),
    {
        self.on_status = false;
    }
}

impl Default for Overlay {
    fn default() -> (result: Self)
        ensures
            result == (Overlay {
                visible: false,
                scrubbing: false,
                on_controls: false,
                on_status: false,
                menu_open: false,
            }),
    {
        Overlay::new()
    }
}

/// Controls never vanish from under the pointer: while the overlay is held, or an image
/// is marked up, no event takes it away.
pub proof fn held_controls_stay(overlay: Overlay, event: PointerEvent, marking: bool)
    requires
        overlay.visible,
        overlay.is_held() || marking,
    ensures
        overlay.after(event, marking).visible,
{
}

/// Only time and leaving the window take the overlay away, and only while nothing
/// holds it.
pub proof fn fading_has_a_reason(overlay: Overlay, event: PointerEvent, marking: bool)
    requires
        overlay.visible,
        !overlay.after(event, marking).visible,
    ensures
        event == PointerEvent::Elapsed || event == PointerEvent::Left,
        !overlay.is_held(),
        !marking,
{
}

/// The overlay comes when the pointer moves over the window, lets the seek bar or the
/// controls go, or a menu opens or closes.
pub proof fn the_pointer_brings_the_overlay(overlay: Overlay, open: bool, marking: bool)
    ensures
        overlay.after(PointerEvent::Moved, marking).visible,
        overlay.after(PointerEvent::SeekReleased, marking).visible,
        overlay.after(PointerEvent::LeftControls, marking).visible,
        overlay.after(PointerEvent::LeftStatus, marking).visible,
        overlay.after(PointerEvent::Menu(open), marking).visible,
        overlay.shown().visible,
{
}

/// With nothing to hold it and no markup, the overlay goes when the pointer leaves or
/// its time is over.
pub proof fn an_idle_overlay_goes(overlay: Overlay, marking: bool)
    ensures
        !overlay.scrubbing && !overlay.on_controls && !overlay.on_status && !overlay.menu_open
            && !marking ==> !overlay.after(PointerEvent::Left, marking).visible && !overlay.after(
            PointerEvent::Elapsed,
            marking,
        ).visible && !overlay.faded(marking).visible,
        overlay.scrubbing || overlay.on_controls || overlay.on_status || overlay.menu_open
            || marking ==> overlay.after(PointerEvent::Left, marking) == overlay && overlay.after(
            PointerEvent::Elapsed,
            marking,
        ) == overlay && overlay.faded(marking) == overlay,
{
}

/// Each hold lasts from its own beginning to its own end.
pub proof fn holds_begin_and_end(overlay: Overlay, open: bool, marking: bool)
    ensures
        overlay.after(PointerEvent::SeekPressed, marking) == (Overlay {
            scrubbing: true,
            ..overlay
        }),
        overlay.after(PointerEvent::SeekReleased, marking) == (Overlay {
            scrubbing: false,
            visible: true,
            ..overlay
        }),
        overlay.after(PointerEvent::EnteredControls, marking) == (Overlay {
            on_controls: true,
            ..overlay
        }),
        overlay.after(PointerEvent::LeftControls, marking) == (Overlay {
            on_controls: false,
            visible: true,
            ..overlay
        }),
        overlay.after(PointerEvent::EnteredStatus, marking) == (Overlay {
            on_status: true,
            ..overlay
        }),
        overlay.after(PointerEvent::LeftStatus, marking) == (Overlay {
            on_status: false,
            visible: true,
            ..overlay
        }),
        overlay.after(PointerEvent::Menu(open), marking) == (Overlay {
            menu_open: open,
            visible: true,
            ..overlay
        }),
        overlay.after(PointerEvent::Moved, marking) == (Overlay { visible: true, ..overlay }),
{
}

}
