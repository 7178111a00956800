//! Coordination for asynchronous source-media operations.
//!
//! Persistent writes happen elsewhere. This module owns the identity and
//! applicability rules that decide whether a late result may also update the
//! active navigation set or the displayed media.
use vstd::prelude::*;

use crate::folder::{
    following, insertion_preserves_current, position, position_bounds, removal_undoes_insertion, spot_of, Course,
    Destination, FileSnapshot, Facts, Navigation, NavigationSetId, Spot,
};
use crate::paths::{copy_bytes, place, same_path};

verus! {

/// What an operation was started on.
pub struct Context {
    id: u64,
    path: Vec<u8>,
    set: NavigationSetId,
    media_generation: u64,
}

/// A context as a value.
#[verifier::ext_equal]
pub struct Ticket {
    pub id: u64,
    pub path: Seq<u8>,
    pub set: NavigationSetId,
    pub generation: u64,
}

impl View for Context {
    type V = Ticket;

    closed spec fn view(&self) -> Ticket {
        Ticket {
            id: self.id,
            path: self.path@,
            set: self.set,
            generation: self.media_generation,
        }
    }
}

/// Whether two tickets are of one operation: all their parts agree.
pub open spec fn same_ticket(left: Ticket, right: Ticket) -> bool {
    &&& left.id == right.id
    &&& place(left.path) == place(right.path)
    &&& left.set == right.set
    &&& left.generation == right.generation
}

/// The set that a course is showing.
pub open spec fn set_of(course: Course) -> Option<NavigationSetId> {
    if course.shelf is Some {
        Some(NavigationSetId(course.set))
    } else {
        None
    }
}

impl Ticket {
    pub open spec fn matches_set(self, course: Course) -> bool {
        set_of(course) == Some(self.set)
    }

    /// Whether the media that the operation was started on is still displayed.
    pub open spec fn matches_media(self, course: Course) -> bool {
        &&& self.matches_set(course)
        &&& course.generation == self.generation
        &&& course.is_current(self.path)
    }
}

impl Context {
    fn copy(&self) -> (result: Self)
        ensures
            result@ == self@,
    {
        Context {
            id: self.id,
            path: copy_bytes(self.path.as_slice()),
            set: self.set,
            media_generation: self.media_generation,
        }
    }

    fn same(&self, other: &Context) -> (result: bool)
        ensures
            result == same_ticket(self@, other@),
    {
        self.id == other.id && same_path(self.path.as_slice(), other.path.as_slice()) && self.set
            == other.set && self.media_generation == other.media_generation
    }

    fn matches_set(&self, navigation: &Navigation) -> (result: bool)
        ensures
            result == self@.matches_set(navigation@),
    {
        match navigation.set_id() {
            Some(set) => set == self.set,
            None => false,
        }
    }

    fn matches_media(&self, navigation: &Navigation) -> (result: bool)
        ensures
            result == self@.matches_media(navigation@),
    {
        self.matches_set(navigation) && navigation.generation() == self.media_generation
            && navigation.is_current(self.path.as_slice())
    }
}

pub struct TrashToken(Context);

impl View for TrashToken {
    type V = Ticket;

    closed spec fn view(&self) -> Ticket {
        self.0@
    }
}

impl TrashToken {
    pub fn path(&self) -> (result: &[u8])
        ensures
            result@ == self@.path,
    {
        self.0.path.as_slice()
    }

    pub fn set(&self) -> (result: NavigationSetId)
        ensures
            result == self@.set,
    {
        self.0.set
    }
}

pub struct SaveToken(Context);

impl View for SaveToken {
    type V = Ticket;

    closed spec fn view(&self) -> Ticket {
        self.0@
    }
}

#[derive(Debug, Clone, Copy, PartialEq, Eq, Structural)]
pub struct UndoId(pub u64);

pub struct UndoToken {
    id: u64,
    path: Vec<u8>,
    set: NavigationSetId,
    return_generation: Option<u64>,
}

/// An undo as a value.
#[verifier::ext_equal]
pub struct Return {
    pub id: u64,
    pub path: Seq<u8>,
    pub set: NavigationSetId,
    pub generation: Option<u64>,
}

impl View for UndoToken {
    type V = Return;

    closed spec fn view(&self) -> Return {
        Return {
            id: self.id,
            path: self.path@,
            set: self.set,
            generation: self.return_generation,
        }
    }
}

pub open spec fn same_return(left: Return, right: Return) -> bool {
    &&& left.id == right.id
    &&& place(left.path) == place(right.path)
    &&& left.set == right.set
    &&& left.generation == right.generation
}

impl UndoToken {
    pub fn path(&self) -> (result: &[u8])
        ensures
            result@ == self@.path,
    {
        self.path.as_slice()
    }

    fn copy(&self) -> (result: Self)
        ensures
            result@ == self@,
    {
        UndoToken {
            id: self.id,
            path: copy_bytes(self.path.as_slice()),
            set: self.set,
            return_generation: self.return_generation,
        }
    }

    fn same(&self, other: &UndoToken) -> (result: bool)
        ensures
            result == same_return(self@, other@),
    {
        let generation = match (self.return_generation, other.return_generation) {
            (Some(left), Some(right)) => left == right,
            (None, None) => true,
            _ => false,
        };
        self.id == other.id && same_path(self.path.as_slice(), other.path.as_slice()) && self.set
            == other.set && generation
    }
}

struct PendingTrash {
    context: Context,
    return_generation: Option<u64>,
}

#[derive(Debug, Clone, Copy, PartialEq, Eq, Structural)]
pub enum UndoDisposition {
    Offered(UndoId),
    NewerOfferPreserved,
    OperationSuperseded,
}

#[derive(Debug, Clone, PartialEq, Eq)]
pub enum UndoEffect {
    Detached,
    Reconciled(Option<Destination>),
}

/// The effect of an undo as a value.
pub enum Effect {
    Detached,
    Reconciled(Option<Spot>),
}

impl View for UndoEffect {
    type V = Effect;

    open spec fn view(&self) -> Effect {
        match self {
            UndoEffect::Detached => Effect::Detached,
            UndoEffect::Reconciled(destination) => Effect::Reconciled(spot_of(*destination)),
        }
    }
}

/// The operations in flight. At most one trash, one undo and one save run at a time.
pub struct Coordinator {
    next: u64,
    trash: Option<PendingTrash>,
    undo: Option<UndoToken>,
    undo_in_flight: Option<UndoToken>,
    save: Option<SaveToken>,
}

/// The coordinator as a value.
#[verifier::ext_equal]
pub struct Desk {
    pub next: u64,
    /// The trash in flight, and the generation that was shown once its file was gone.
    pub trash: Option<(Ticket, Option<u64>)>,
    pub undo: Option<Return>,
    pub undo_in_flight: Option<Return>,
    pub save: Option<Ticket>,
}

impl View for Coordinator {
    type V = Desk;

    closed spec fn view(&self) -> Desk {
        Desk {
            next: self.next,
            trash: match self.trash {
                Some(pending) => Some((pending.context@, pending.return_generation)),
                None => None,
            },
            undo: match self.undo {
                Some(token) => Some(token@),
                None => None,
            },
            undo_in_flight: match self.undo_in_flight {
                Some(token) => Some(token@),
                None => None,
            },
            save: match self.save {
                Some(token) => Some(token@),
                None => None,
            },
        }
    }
}

impl Desk {
    pub open spec fn empty() -> Desk {
        Desk { next: 0, trash: None, undo: None, undo_in_flight: None, save: None }
    }

    /// The ticket of an operation on a path, where that path is the current item.
    pub open spec fn ticket(self, course: Course, path: Seq<u8>) -> Option<Ticket> {
        match set_of(course) {
            Some(set) => if course.is_current(path) {
                Some(
                    Ticket {
                        id: following(self.next),
                        path,
                        set,
                        generation: course.generation,
                    },
                )
            } else {
                None
            },
            None => None,
        }
    }

    pub open spec fn saves(self, path: Seq<u8>) -> bool {
        self.save matches Some(ticket) && place(ticket.path) == place(path)
    }

    pub open spec fn trashes(self, path: Seq<u8>) -> bool {
        self.trash matches Some((ticket, _)) && place(ticket.path) == place(path)
    }

    pub open spec fn may_trash(self, path: Seq<u8>) -> bool {
        self.trash is None && self.undo_in_flight is None && !self.saves(path)
    }

    pub open spec fn may_save(self, path: Seq<u8>) -> bool {
        self.save is None && self.undo_in_flight is None && !self.trashes(path)
    }

    /// Whether the trash in flight is the one with this number.
    pub open spec fn is_trashing(self, id: u64) -> bool {
        self.trash matches Some((ticket, _)) && ticket.id == id
    }

    pub open spec fn removal_observed(
        self,
        set: NavigationSetId,
        path: Seq<u8>,
        before: u64,
        after: u64,
        removed_current: bool,
    ) -> Desk {
        match self.trash {
            Some((ticket, _)) => if removed_current && ticket.set == set && place(ticket.path)
                == place(path) && ticket.generation == before {
                Desk { trash: Some((ticket, Some(after))), ..self }
            } else {
                self
            },
            None => self,
        }
    }

    /// The undo that a finished trash can offer.
    pub open spec fn offer(self) -> Return {
        let (ticket, generation) = self.trash->0;
        Return { id: ticket.id, path: ticket.path, set: ticket.set, generation }
    }

    pub open spec fn disposition(self, id: u64) -> UndoDisposition {
        if !self.is_trashing(id) {
            UndoDisposition::OperationSuperseded
        } else if self.undo matches Some(current) && current.id > id {
            UndoDisposition::NewerOfferPreserved
        } else {
            UndoDisposition::Offered(UndoId(id))
        }
    }

    pub open spec fn trash_finished(self, id: u64) -> Desk {
        match self.disposition(id) {
            UndoDisposition::OperationSuperseded => self,
            UndoDisposition::NewerOfferPreserved => Desk { trash: None, ..self },
            UndoDisposition::Offered(_) => Desk {
                trash: None,
                undo: Some(self.offer()),
                ..self
            },
        }
    }

    pub open spec fn is_undoing(self, token: Return) -> bool {
        self.undo_in_flight matches Some(current) && same_return(current, token)
    }

    pub open spec fn is_saving(self, token: Ticket) -> bool {
        self.save matches Some(current) && same_ticket(current, token)
    }
}

/// Whether a restored file belongs to the set that is open.
pub open spec fn undo_applies(desk: Desk, token: Return, facts: Facts, course: Course) -> bool {
    &&& desk.is_undoing(token)
    &&& place(facts.path) == place(token.path)
    &&& set_of(course) == Some(token.set)
}

/// Where a restored file is in the set, once it was taken in.
pub open spec fn restored_index(token: Return, facts: Facts, course: Course) -> Option<int> {
    if course.accepts(facts) {
        Some(course.shelf->0.slot_of(facts))
    } else if course.contains(token.path) {
        Some(position(course.items(), token.path))
    } else {
        None
    }
}

/// Navigation after an undo: the file is taken in, and selected only if nothing
/// was navigated to since it went.
pub open spec fn undone(token: Return, facts: Facts, course: Course) -> Course {
    match restored_index(token, facts, course) {
        Some(index) => if token.generation == Some(course.generation) {
            course.with(facts).selected(index)
        } else {
            course.with(facts)
        },
        None => course.with(facts),
    }
}

/// An undo never changes what is shown after the user has navigated on: the
/// current item and its generation stay.
pub proof fn undo_never_interrupts(token: Return, facts: Facts, course: Course)
    requires
        course.wf(),
        token.generation != Some(course.generation),
    ensures
        undone(token, facts, course).generation == course.generation,
        undone(token, facts, course).current_path() == course.current_path(),
        undone(token, facts, course).wf(),
{
    insertion_preserves_current(course, facts);
}

/// A restored file that comes back to an undisturbed viewer is shown again.
pub proof fn undo_returns_to_the_restored_file(token: Return, facts: Facts, course: Course)
    requires
        course.wf(),
        place(facts.path) == place(token.path),
        token.generation == Some(course.generation),
        course.accepts(facts),
    ensures
        undone(token, facts, course).is_current(token.path),
        undone(token, facts, course).wf(),
{
    insertion_preserves_current(course, facts);
    let shelf = course.shelf->0;
    removal_undoes_insertion(shelf, facts);
    let after = undone(token, facts, course);
    position_bounds(shelf.with(facts).items, facts.path);
    assert(after.items() == shelf.with(facts).items);
}

/// Every operation gets a number of its own, other than the one handed out before.
pub proof fn tickets_are_numbered_anew(desk: Desk, course: Course, path: Seq<u8>)
    requires
        desk.ticket(course, path) is Some,
    ensures
        desk.ticket(course, path)->0.id != desk.next,
        desk.ticket(course, path)->0.matches_media(course),
{
}

/// A file is never trashed and saved at once.
pub proof fn trash_and_save_exclude_each_other(desk: Desk, path: Seq<u8>)
    ensures
        desk.trashes(path) ==> !desk.may_save(path),
        desk.saves(path) ==> !desk.may_trash(path),
{
}

/// A number that is not the trash in flight finishes nothing.
pub proof fn stale_trash_changes_nothing(desk: Desk, id: u64)
    requires
        !desk.is_trashing(id),
    ensures
        desk.trash_finished(id) == desk,
        desk.disposition(id) == UndoDisposition::OperationSuperseded,
{
}

/// Finishing a trash twice offers one undo.
pub proof fn trash_finishes_once(desk: Desk, id: u64)
    requires
        desk.is_trashing(id),
    ensures
        desk.trash_finished(id).trash is None,
        desk.trash_finished(id).disposition(id) == UndoDisposition::OperationSuperseded,
{
}

impl Coordinator {
    pub fn new() -> (result: Self)
        ensures
            result@ == Desk::empty(),
    {
        Coordinator { next: 0, trash: None, undo: None, undo_in_flight: None, save: None }
    }

    fn context(&mut self, navigation: &Navigation, path: &[u8]) -> (result: Option<Context>)
        ensures
            match result {
                Some(context) => old(self)@.ticket(navigation@, path@) == Some(context@)
                    && final(self)@ == (Desk { next: following(old(self)@.next), ..old(self)@ }),
                None => old(self)@.ticket(navigation@, path@) is None && final(self)@
                    == old(self)@,
            },
    {
        match navigation.set_id() {
            Some(set) => {
                if !navigation.is_current(path) {
                    return None;
                }
                self.next = if self.next == u64::MAX {
                    0
                } else {
                    self.next + 1
                };
                Some(
                    Context {
                        id: self.next,
                        path: copy_bytes(path),
                        set,
                        media_generation: navigation.generation(),
                    },
                )
            },
            None => None,
        }
    }

    /// Starts moving the current item to the trash. One such operation runs at a
    /// time, none while an undo runs, and none on a file that is being saved.
    pub fn start_trash(&mut self, navigation: &Navigation, path: &[u8]) -> (result: Option<
        TrashToken,
    >)
        ensures
            match result {
                Some(token) => old(self)@.may_trash(path@) && old(self)@.ticket(
                    navigation@,
                    path@,
                ) == Some(token@) && final(self)@ == (Desk {
                    next: following(old(self)@.next),
                    trash: Some((token@, None)),
                    ..old(self)@
                }),
                None => final(self)@ == old(self)@ && (!old(self)@.may_trash(path@) || old(self)@.ticket(navigation@, path@) is None),
            },
    {
        if self.trash.is_some() || self.undo_in_flight.is_some() {
            return None;
        }
        let saving = match &self.save {
            Some(token) => same_path(token.0.path.as_slice(), path),
            None => false,
        };
        if saving {
            return None;
        }
        match self.context(navigation, path) {
            Some(context) => {
                let token = TrashToken(context.copy());
                self.trash = Some(PendingTrash { context, return_generation: None });
                Some(token)
            },
            None => None,
        }
    }

    pub fn trash_applies(&self, token: &TrashToken, navigation: &Navigation) -> (result: bool)
        ensures
            result == (self@.is_trashing(token@.id) && token@.matches_set(navigation@)),
    {
        let pending = match &self.trash {
            Some(pending) => pending.context.id == token.0.id,
            None => false,
        };
        pending && token.0.matches_set(navigation)
    }

    /// Records the final media generation after a matching removal has also been
    /// presented. This works whether the monitor or the operation's result
    /// observes the removal first.
    pub fn observe_removal(
        &mut self,
        set: NavigationSetId,
        path: &[u8],
        before_generation: u64,
        after_generation: u64,
        removed_current: bool,
    )
        ensures
            final(self)@ == old(self)@.removal_observed(
                set,
                path@,
                before_generation,
                after_generation,
                removed_current,
            ),
    {
        if !removed_current {
            return;
        }
        match self.trash.take() {
            Some(mut pending) => {
                if pending.context.set == set && same_path(pending.context.path.as_slice(), path)
                    && pending.context.media_generation == before_generation {
                    pending.return_generation = Some(after_generation);
                }
                self.trash = Some(pending);
            },
            None => {},
        }
    }

    /// Ends a trash that succeeded, and offers its undo unless a newer one is offered.
    pub fn finish_trash(&mut self, token: TrashToken) -> (result: UndoDisposition)
        ensures
            result == old(self)@.disposition(token@.id),
            final(self)@ == old(self)@.trash_finished(token@.id),
    {
        let superseded = match &self.trash {
            Some(pending) => pending.context.id != token.0.id,
            None => true,
        };
        if superseded {
            return UndoDisposition::OperationSuperseded;
        }
        match self.trash.take() {
            Some(pending) => {
                let id: u64 = pending.context.id;
                let newer = match &self.undo {
                    Some(current) => current.id > id,
                    None => false,
                };
                if newer {
                    return UndoDisposition::NewerOfferPreserved;
                }
                self.undo = Some(
                    UndoToken {
                        id,
                        path: pending.context.path,
                        set: pending.context.set,
                        return_generation: pending.return_generation,
                    },
                );
                UndoDisposition::Offered(UndoId(id))
            },
            None => UndoDisposition::OperationSuperseded,
        }
    }

    /// Ends a trash that failed.
    pub fn cancel_trash(&mut self, token: &TrashToken)
        ensures
            final(self)@ == (if old(self)@.is_trashing(token@.id) {
                Desk { trash: None, ..old(self)@ }
            } else {
                old(self)@
            }),
    {
        let matching = match &self.trash {
            Some(pending) => pending.context.id == token.0.id,
            None => false,
        };
        if matching {
            self.trash = None;
        }
    }

    pub fn has_undo(&self) -> (result: bool)
        ensures
            result == (self@.undo is Some),
    {
        self.undo.is_some()
    }

    /// Withdraws an offer, if it is still the one with this number.
    pub fn expire_undo(&mut self, id: UndoId) -> (result: bool)
        ensures
            result == (old(self)@.undo matches Some(offer) && offer.id == id.0),
            final(self)@ == (if result {
                Desk { undo: None, ..old(self)@ }
            } else {
                old(self)@
            }),
    {
        let matching = match &self.undo {
            Some(offer) => offer.id == id.0,
            None => false,
        };
        if matching {
            self.undo = None;
        }
        matching
    }

    /// Takes the offer up, unless an undo is running.
    pub fn begin_undo(&mut self) -> (result: Option<UndoToken>)
        ensures
            match result {
                Some(token) => old(self)@.undo_in_flight is None && old(self)@.undo == Some(token@)
                    && final(self)@ == (Desk {
                    undo: None,
                    undo_in_flight: Some(token@),
                    ..old(self)@
                }),
                None => final(self)@ == old(self)@ && (old(self)@.undo_in_flight is Some || old(self)@.undo is None),
            },
    {
        if self.undo_in_flight.is_some() {
            return None;
        }
        match self.undo.take() {
            Some(token) => {
                self.undo_in_flight = Some(token.copy());
                Some(token)
            },
            None => None,
        }
    }

    /// Reconciles a successful restore with the originating navigation set. The
    /// entry is inserted (or found again) whenever that set is active, but it is
    /// presented only if the user has not navigated since the trash.
    pub fn finish_undo(
        &mut self,
        token: &UndoToken,
        snapshot: FileSnapshot,
        navigation: &mut Navigation,
    ) -> (result: UndoEffect)
        requires
            old(navigation)@.wf(),
        ensures
            final(navigation)@.wf(),
            final(self)@ == (if old(self)@.is_undoing(token@) {
                Desk { undo_in_flight: None, ..old(self)@ }
            } else {
                old(self)@
            }),
            if undo_applies(old(self)@, token@, snapshot@, old(navigation)@) {
                &&& final(navigation)@ == undone(token@, snapshot@, old(navigation)@)
                &&& result@ == Effect::Reconciled(
                    if token@.generation == Some(old(navigation)@.generation) && restored_index(
                        token@,
                        snapshot@,
                        old(navigation)@,
                    ) is Some {
                        final(navigation)@.destination()
                    } else {
                        None
                    },
                )
            } else {
                final(navigation)@ == old(navigation)@ && result@ == Effect::Detached
            },
    {
        let running = match &self.undo_in_flight {
            Some(current) => current.same(token),
            None => false,
        };
        if !running {
            return UndoEffect::Detached;
        }
        self.undo_in_flight = None;
        if !same_path(snapshot.path(), token.path.as_slice()) {
            return UndoEffect::Detached;
        }
        let same_set = match navigation.set_id() {
            Some(set) => set == token.set,
            None => false,
        };
        if !same_set {
            return UndoEffect::Detached;
        }
        let ghost course = navigation@;
        let ghost facts = snapshot@;
        let may_present = match token.return_generation {
            Some(generation) => generation == navigation.generation(),
            None => false,
        };
        proof {
            insertion_preserves_current(course, facts);
            position_bounds(course.items(), token@.path);
            position_bounds(course.items(), facts.path);
            if course.accepts(facts) {
                removal_undoes_insertion(course.shelf->0, facts);
            }
        }
        let index = match navigation.insert(snapshot) {
            Some(index) => Some(index),
            None => navigation.index_of(token.path.as_slice()),
        };
        if may_present {
            match index {
                Some(index) => UndoEffect::Reconciled(navigation.select(index)),
                None => UndoEffect::Reconciled(None),
            }
        } else {
            UndoEffect::Reconciled(None)
        }
    }

    /// Ends an undo that failed.
    pub fn cancel_undo(&mut self, token: &UndoToken)
        ensures
            final(self)@ == (if old(self)@.is_undoing(token@) {
                Desk { undo_in_flight: None, ..old(self)@ }
            } else {
                old(self)@
            }),
    {
        let running = match &self.undo_in_flight {
            Some(current) => current.same(token),
            None => false,
        };
        if running {
            self.undo_in_flight = None;
        }
    }

    /// Starts saving the current item. One save runs at a time, none while an
    /// undo runs, and none on a file that is on its way to the trash.
    pub fn start_save(&mut self, navigation: &Navigation, path: &[u8]) -> (result: Option<
        SaveToken,
    >)
        ensures
            match result {
                Some(token) => old(self)@.may_save(path@) && old(self)@.ticket(
                    navigation@,
                    path@,
                ) == Some(token@) && final(self)@ == (Desk {
                    next: following(old(self)@.next),
                    save: Some(token@),
                    ..old(self)@
                }),
                None => final(self)@ == old(self)@ && (!old(self)@.may_save(path@) || old(self)@.ticket(navigation@, path@) is None),
            },
    {
        if self.save.is_some() || self.undo_in_flight.is_some() {
            return None;
        }
        let trashing = match &self.trash {
            Some(pending) => same_path(pending.context.path.as_slice(), path),
            None => false,
        };
        if trashing {
            return None;
        }
        match self.context(navigation, path) {
            Some(context) => {
                self.save = Some(SaveToken(context.copy()));
                Some(SaveToken(context))
            },
            None => None,
        }
    }

    pub fn is_saving(&self) -> (result: bool)
        ensures
            result == (self@.save is Some),
    {
        self.save.is_some()
    }

    /// Ends the matching save and returns the exact destination that may be
    /// reloaded. A stale save changed its own file on disk, but it cannot reload
    /// whichever media is current now.
    pub fn finish_save(&mut self, token: &SaveToken, navigation: &Navigation) -> (result: Option<
        Destination,
    >)
        ensures
            final(self)@ == (if old(self)@.is_saving(token@) {
                Desk { save: None, ..old(self)@ }
            } else {
                old(self)@
            }),
            spot_of(result) == (if old(self)@.is_saving(token@) && token@.matches_media(
                navigation@,
            ) {
                navigation@.destination()
            } else {
                None
            }),
    {
        let saving = match &self.save {
            Some(current) => current.0.same(&token.0),
            None => false,
        };
        if !saving {
            return None;
        }
        self.save = None;
        if token.0.matches_media(navigation) {
            navigation.current_destination()
        } else {
            None
        }
    }

    /// Ends a save that failed.
    pub fn cancel_save(&mut self, token: &SaveToken)
        ensures
            final(self)@ == (if old(self)@.is_saving(token@) {
                Desk { save: None, ..old(self)@ }
            } else {
                old(self)@
            }),
    {
        let saving = match &self.save {
            Some(current) => current.0.same(&token.0),
            None => false,
        };
        if saving {
            self.save = None;
        }
    }

    /// Forgets every operation; numbers go on.
    pub fn clear(&mut self)
        ensures
            final(self)@ == (Desk { next: old(self)@.next, ..Desk::empty() }),
    {
        self.trash = None;
        self.undo = None;
        self.undo_in_flight = None;
        self.save = None;
    }
}

impl Default for Coordinator {
    fn default() -> (result: Self)
        ensures
            result@ == Desk::empty(),
    {
        Coordinator::new()
    }
}

/// An operation is started on the current file of an open folder, and is numbered
/// one up; on any other file it is not started.
pub proof fn operations_start_on_the_current_file(desk: Desk, course: Course, path: Seq<u8>)
    ensures
        desk.ticket(course, path) is Some <==> course.shelf is Some && course.is_current(path),
        desk.ticket(course, path) matches Some(ticket) ==> {
            &&& ticket.path == path
            &&& ticket.set == NavigationSetId(course.set)
            &&& ticket.generation == course.generation
            &&& desk.next < u64::MAX ==> ticket.id == desk.next + 1
        },
{
}

/// A result is shown only where nothing changed: the same folder, the same showing,
/// the same file.
pub proof fn late_results_are_held_to_their_media(ticket: Ticket, course: Course)
    ensures
        ticket.matches_set(course) <==> course.shelf is Some && ticket.set.0 == course.set,
        ticket.matches_media(course) <==> {
            &&& course.shelf is Some
            &&& ticket.set.0 == course.set
            &&& course.generation == ticket.generation
            &&& course.is_current(ticket.path)
        },
{
}

/// One trash, one save and one undo at a time; a file that is being saved is not
/// trashed, one that is being trashed is not saved, and neither begins during an undo.
pub proof fn operations_do_not_meet(desk: Desk, path: Seq<u8>)
    ensures
        desk.trash is Some ==> !desk.may_trash(path),
        desk.undo_in_flight is Some ==> !desk.may_trash(path) && !desk.may_save(path),
        desk.save is Some ==> !desk.may_save(path),
        desk.save matches Some(ticket) ==> (place(ticket.path) == place(path) ==> !desk.may_trash(
            path,
        )),
        desk.trash matches Some((ticket, _)) ==> (place(ticket.path) == place(path)
            ==> !desk.may_save(path)),
        desk.trash is None && desk.undo_in_flight is None && desk.save is None ==> desk.may_trash(
            path,
        ) && desk.may_save(path),
        desk.trash is None && desk.undo_in_flight is None ==> (desk.save matches Some(ticket) ==> (
        place(ticket.path) != place(path) ==> desk.may_trash(path))),
        desk.save is None && desk.undo_in_flight is None ==> (desk.trash matches Some((ticket, _))
            ==> (place(ticket.path) != place(path) ==> desk.may_save(path))),
{
}

/// A finished trash offers to bring back its own file, unless something newer is
/// offered already; either way the trash is over and nothing else changes.
pub proof fn finished_trash_is_offered_back(desk: Desk, ticket: Ticket, generation: Option<u64>)
    requires
        desk.trash == Some((ticket, generation)),
    ensures
        desk.undo is None || desk.undo->0.id <= ticket.id ==> desk.trash_finished(ticket.id).undo
            == Some(
            Return { id: ticket.id, path: ticket.path, set: ticket.set, generation },
        ) && desk.disposition(ticket.id) == UndoDisposition::Offered(UndoId(ticket.id)),
        desk.undo is Some && desk.undo->0.id > ticket.id ==> desk.trash_finished(ticket.id).undo
            == desk.undo && desk.disposition(ticket.id) == UndoDisposition::NewerOfferPreserved,
        desk.trash_finished(ticket.id).trash is None,
        desk.trash_finished(ticket.id).save == desk.save,
        desk.trash_finished(ticket.id).undo_in_flight == desk.undo_in_flight,
        desk.trash_finished(ticket.id).next == desk.next,
{
}

/// Where the file of a trash leaves the screen, what is shown afterwards is noted; any
/// other removal is none of its concern.
pub proof fn removals_are_noted_for_their_trash(
    desk: Desk,
    set: NavigationSetId,
    path: Seq<u8>,
    before: u64,
    after: u64,
    removed_current: bool,
)
    ensures
        ({
            let noted = desk.removal_observed(set, path, before, after, removed_current);
            &&& desk.trash matches Some((ticket, _)) ==> (removed_current && ticket.set == set
                && place(ticket.path) == place(path) && ticket.generation == before ==> noted.trash
                == Some((ticket, Some(after))))
            &&& !removed_current ==> noted == desk
            &&& desk.trash is None ==> noted == desk
            &&& desk.trash matches Some((ticket, _)) ==> (ticket.set != set || place(ticket.path)
                != place(path) || ticket.generation != before ==> noted == desk)
            &&& noted.undo == desk.undo && noted.save == desk.save && noted.undo_in_flight
                == desk.undo_in_flight && noted.next == desk.next
        }),
{
}

/// Operations are told apart by all that they were started on.
pub proof fn operations_are_told_apart(left: Ticket, right: Ticket, first: Return, second: Return)
    ensures
        left.id != right.id || left.set != right.set || left.generation != right.generation || place(
            left.path,
        ) != place(right.path) ==> !same_ticket(left, right),
        same_ticket(left, left),
        first.id != second.id || first.set != second.set || first.generation != second.generation
            || place(first.path) != place(second.path) ==> !same_return(first, second),
        same_return(first, first),
{
}

/// Only the undo and the save in flight are finished.
pub proof fn what_is_in_flight_is_known(desk: Desk, undo: Return, save: Ticket)
    ensures
        desk.undo_in_flight == Some(undo) ==> desk.is_undoing(undo),
        desk.undo_in_flight is None ==> !desk.is_undoing(undo),
        desk.save == Some(save) ==> desk.is_saving(save),
        desk.save is None ==> !desk.is_saving(save),
        desk.undo_in_flight is Some && desk.undo_in_flight->0.id != undo.id ==> !desk.is_undoing(
            undo,
        ),
        desk.save is Some && desk.save->0.id != save.id ==> !desk.is_saving(save),
{
}

/// A restored file is taken back into the folder that it came from, and only there.
pub proof fn restored_files_are_taken_back(desk: Desk, token: Return, facts: Facts, course: Course)
    requires
        course.wf(),
    ensures
        undo_applies(desk, token, facts, course) <==> {
            &&& desk.is_undoing(token)
            &&& place(facts.path) == place(token.path)
            &&& course.shelf is Some
            &&& course.set == token.set.0
        },
        course.accepts(facts) ==> undone(token, facts, course).contains(facts.path),
        course.accepts(facts) && token.generation == Some(course.generation) ==> undone(
            token,
            facts,
            course,
        ).is_current(facts.path),
        !course.accepts(facts) && course.contains(token.path) && token.generation == Some(
            course.generation,
        ) ==> undone(token, facts, course).is_current(token.path),
        !course.accepts(facts) && !course.contains(token.path) ==> undone(token, facts, course)
            == course,
{
    if course.accepts(facts) {
        crate::folder::insertion_adds_the_file_alone(course, facts, facts.path);
        if token.generation == Some(course.generation) {
            undo_returns_to_the_restored_file(
                Return { path: facts.path, ..token },
                facts,
                course,
            );
        }
    } else if course.contains(token.path) {
        position_bounds(course.items(), token.path);
    }
}

}
