//! The connection to one lamp, as a machine that is told what the radio
//! answered and says what to ask of it next.
//!
//! Nothing here touches the radio. The caller performs each `Action` and
//! hands its result back as an `Event`; every failure of the link is met by
//! asking again, without bound. Handles that were found stay cached for the
//! life of the manager, also across a lost link and after `disconnect`.

use std::collections::HashMap;
use vstd::prelude::*;

verus! {

broadcast use vstd::std_specs::hash::group_hash_axioms;

/// Where a characteristic sits on the lamp: the number of its service and
/// its own number within that service.
#[derive(Clone, Copy, Debug, PartialEq, Eq, Structural)]
pub struct CharacteristicHandle {
    pub service: u16,
    pub characteristic: u16,
}

/// What the manager has been asked to do.
#[derive(Clone, Copy, Debug, PartialEq, Eq, Structural)]
pub enum Request {
    Establish,
    Resolve,
    Write,
    Read,
}

/// What the manager is waiting for.
#[derive(Clone, Copy, Debug, PartialEq, Eq, Structural)]
pub enum Phase {
    /// Nothing: no request is under way.
    Idle,
    /// Whether the link is up. `resolving` tells the check that opens the
    /// search for a characteristic from the one that opens a transfer.
    Link { resolving: bool },
    /// The result of connecting.
    Connecting { resolving: bool },
    /// The list of the lamp's services.
    Services,
    /// The list of one service's characteristics.
    Characteristics,
    /// The identifier of one characteristic.
    Identifier,
    /// The result of the write or the read.
    Transfer,
}

/// What the radio answered. `None` and `false` report a failure.
#[derive(Debug)]
pub enum Event {
    Link(Option<bool>),
    Connected(bool),
    Services(Option<Vec<u16>>),
    Characteristics(Option<Vec<u16>>),
    Identifier(Option<u128>),
    Written(bool),
    Read(Option<Vec<u8>>),
}

/// How a request ended.
#[derive(Debug)]
pub enum Outcome {
    Connected,
    NotFound,
    Resolved(CharacteristicHandle),
    Written,
    Data(Vec<u8>),
}

/// What to ask of the radio next.
#[derive(Debug)]
pub enum Action {
    /// Nothing: no request is under way.
    Idle,
    QueryLink,
    Connect,
    Disconnect,
    ListServices,
    ListCharacteristics { service: u16 },
    QueryIdentifier { handle: CharacteristicHandle },
    Write { handle: CharacteristicHandle, data: Vec<u8> },
    Read { handle: CharacteristicHandle },
    /// The request is over.
    Done(Outcome),
}

/// An `Event` with its lists as sequences.
pub enum EventView {
    Link(Option<bool>),
    Connected(bool),
    Services(Option<Seq<u16>>),
    Characteristics(Option<Seq<u16>>),
    Identifier(Option<u128>),
    Written(bool),
    Read(Option<Seq<u8>>),
}

/// An `Outcome` with its bytes as a sequence.
pub enum OutcomeView {
    Connected,
    NotFound,
    Resolved(CharacteristicHandle),
    Written,
    Data(Seq<u8>),
}

/// An `Action` with its bytes as a sequence.
pub enum ActionView {
    Idle,
    QueryLink,
    Connect,
    Disconnect,
    ListServices,
    ListCharacteristics { service: u16 },
    QueryIdentifier { handle: CharacteristicHandle },
    Write { handle: CharacteristicHandle, data: Seq<u8> },
    Read { handle: CharacteristicHandle },
    Done(OutcomeView),
}

impl View for Event {
    type V = EventView;

    open spec fn view(&self) -> EventView {
        match *self {
            Event::Link(up) => EventView::Link(up),
            Event::Connected(ok) => EventView::Connected(ok),
            Event::Services(Some(list)) => EventView::Services(Some(list@)),
            Event::Services(None) => EventView::Services(None),
            Event::Characteristics(Some(list)) => EventView::Characteristics(Some(list@)),
            Event::Characteristics(None) => EventView::Characteristics(None),
            Event::Identifier(id) => EventView::Identifier(id),
            Event::Written(ok) => EventView::Written(ok),
            Event::Read(Some(data)) => EventView::Read(Some(data@)),
            Event::Read(None) => EventView::Read(None),
        }
    }
}

impl View for Outcome {
    type V = OutcomeView;

    open spec fn view(&self) -> OutcomeView {
        match *self {
            Outcome::Connected => OutcomeView::Connected,
            Outcome::NotFound => OutcomeView::NotFound,
            Outcome::Resolved(handle) => OutcomeView::Resolved(handle),
            Outcome::Written => OutcomeView::Written,
            Outcome::Data(data) => OutcomeView::Data(data@),
        }
    }
}

impl View for Action {
    type V = ActionView;

    open spec fn view(&self) -> ActionView {
        match *self {
            Action::Idle => ActionView::Idle,
            Action::QueryLink => ActionView::QueryLink,
            Action::Connect => ActionView::Connect,
            Action::Disconnect => ActionView::Disconnect,
            Action::ListServices => ActionView::ListServices,
            Action::ListCharacteristics { service } => ActionView::ListCharacteristics { service },
            Action::QueryIdentifier { handle } => ActionView::QueryIdentifier { handle },
            Action::Write { handle, data } => ActionView::Write { handle, data: data@ },
            Action::Read { handle } => ActionView::Read { handle },
            Action::Done(outcome) => ActionView::Done(outcome@),
        }
    }
}

/// The manager as a mathematical value.
pub struct Model {
    /// The handles found so far, by identifier.
    pub cache: Map<u128, CharacteristicHandle>,
    pub phase: Phase,
    pub request: Request,
    /// The identifier that the request names.
    pub id: u128,
    /// The bytes of a write.
    pub data: Seq<u8>,
    /// The services not yet listed.
    pub services: Seq<u16>,
    /// The characteristics of the service at hand not yet examined.
    pub characteristics: Seq<u16>,
    /// The service being listed, the characteristic being examined, or the
    /// handle in use.
    pub at: CharacteristicHandle,
}

impl Model {
    /// The request ends with `outcome`.
    pub open spec fn finish(self, outcome: OutcomeView) -> (Model, ActionView) {
        (Model { phase: Phase::Idle, ..self }, ActionView::Done(outcome))
    }

    /// Make sure of the link first.
    pub open spec fn ask_link(self, resolving: bool) -> (Model, ActionView) {
        (Model { phase: Phase::Link { resolving }, ..self }, ActionView::QueryLink)
    }

    /// A new request takes the place of whatever was under way.
    pub open spec fn begin(self, request: Request, id: u128, data: Seq<u8>) -> (Model, ActionView) {
        Model { request, id, data, ..self }.ask_link(request == Request::Resolve)
    }

    /// The characteristic is known to sit at `handle`.
    pub open spec fn resolved(self, handle: CharacteristicHandle) -> (Model, ActionView) {
        match self.request {
            Request::Write => (
                Model { phase: Phase::Transfer, at: handle, ..self },
                ActionView::Write { handle, data: self.data },
            ),
            Request::Read => (
                Model { phase: Phase::Transfer, at: handle, ..self },
                ActionView::Read { handle },
            ),
            _ => self.finish(OutcomeView::Resolved(handle)),
        }
    }

    /// The link is up.
    pub open spec fn linked(self, resolving: bool) -> (Model, ActionView) {
        if self.request == Request::Establish {
            self.finish(OutcomeView::Connected)
        } else if !resolving {
            self.ask_link(true)
        } else if self.cache.contains_key(self.id) {
            self.resolved(self.cache[self.id])
        } else {
            (Model { phase: Phase::Services, ..self }, ActionView::ListServices)
        }
    }

    /// Go on with the next service, if one is left.
    pub open spec fn next_service(self) -> (Model, ActionView) {
        if self.services.len() > 0 {
            let service = self.services[0];
            (
                Model {
                    phase: Phase::Characteristics,
                    services: self.services.remove(0),
                    at: CharacteristicHandle { service, characteristic: self.at.characteristic },
                    ..self
                },
                ActionView::ListCharacteristics { service },
            )
        } else {
            self.finish(OutcomeView::NotFound)
        }
    }

    /// Go on with the next characteristic of the service at hand, else with
    /// the next service.
    pub open spec fn next_characteristic(self) -> (Model, ActionView) {
        if self.characteristics.len() > 0 {
            let handle = CharacteristicHandle {
                service: self.at.service,
                characteristic: self.characteristics[0],
            };
            (
                Model {
                    phase: Phase::Identifier,
                    characteristics: self.characteristics.remove(0),
                    at: handle,
                    ..self
                },
                ActionView::QueryIdentifier { handle },
            )
        } else {
            self.next_service()
        }
    }

    /// The action whose result the manager is waiting for.
    pub open spec fn pending(self) -> ActionView {
        match self.phase {
            Phase::Idle => ActionView::Idle,
            Phase::Link { .. } => ActionView::QueryLink,
            Phase::Connecting { .. } => ActionView::Connect,
            Phase::Services => ActionView::ListServices,
            Phase::Characteristics => ActionView::ListCharacteristics { service: self.at.service },
            Phase::Identifier => ActionView::QueryIdentifier { handle: self.at },
            Phase::Transfer => if self.request == Request::Write {
                ActionView::Write { handle: self.at, data: self.data }
            } else {
                ActionView::Read { handle: self.at }
            },
        }
    }

    /// The manager after `event`, and what it asks next. An event that does
    /// not answer the pending action changes nothing and has the action
    /// asked again.
    pub open spec fn after(self, event: EventView) -> (Model, ActionView) {
        match event {
            EventView::Link(up) => match self.phase {
                Phase::Link { resolving } => match up {
                    Some(true) => self.linked(resolving),
                    Some(false) => (
                        Model { phase: Phase::Connecting { resolving }, ..self },
                        ActionView::Connect,
                    ),
                    None => self.ask_link(resolving),
                },
                _ => (self, self.pending()),
            },
            EventView::Connected(ok) => match self.phase {
                Phase::Connecting { resolving } => if ok {
                    self.linked(resolving)
                } else {
                    self.ask_link(resolving)
                },
                _ => (self, self.pending()),
            },
            EventView::Services(list) => match self.phase {
                Phase::Services => match list {
                    Some(services) => Model { services, ..self }.next_service(),
                    None => self.ask_link(true),
                },
                _ => (self, self.pending()),
            },
            EventView::Characteristics(list) => match self.phase {
                Phase::Characteristics => match list {
                    Some(characteristics) => Model { characteristics, ..self }.next_characteristic(),
                    None => self.ask_link(true),
                },
                _ => (self, self.pending()),
            },
            EventView::Identifier(found) => match self.phase {
                Phase::Identifier => match found {
                    Some(id) => if id == self.id {
                        Model { cache: self.cache.insert(id, self.at), ..self }.resolved(self.at)
                    } else {
                        self.next_characteristic()
                    },
                    None => self.ask_link(true),
                },
                _ => (self, self.pending()),
            },
            EventView::Written(ok) => if self.phase == Phase::Transfer && self.request
                == Request::Write {
                if ok {
                    self.finish(OutcomeView::Written)
                } else {
                    self.ask_link(false)
                }
            } else {
                (self, self.pending())
            },
            EventView::Read(answer) => if self.phase == Phase::Transfer && self.request
                == Request::Read {
                match answer {
                    Some(data) => self.finish(OutcomeView::Data(data)),
                    None => self.ask_link(false),
                }
            } else {
                (self, self.pending())
            },
        }
    }
}

/// The connection to one lamp.
pub struct GattManipulator {
    address: String,
    /// The handles found so far, not their values.
    ch_cache: HashMap<u128, CharacteristicHandle>,
    phase: Phase,
    request: Request,
    id: u128,
    data: Vec<u8>,
    services: Vec<u16>,
    characteristics: Vec<u16>,
    at: CharacteristicHandle,
}

impl View for GattManipulator {
    type V = Model;

    closed spec fn view(&self) -> Model {
        Model {
            cache: self.ch_cache@,
            phase: self.phase,
            request: self.request,
            id: self.id,
            data: self.data@,
            services: self.services@,
            characteristics: self.characteristics@,
            at: self.at,
        }
    }
}

/// A copy of `bytes`.
fn copy_bytes(bytes: &Vec<u8>) -> (copy: Vec<u8>)
    ensures
        copy@ == bytes@,
{
    let mut copy: Vec<u8> = Vec::new();
    let mut i: usize = 0;
    while i < bytes.len()
        invariant
            i <= bytes.len(),
            copy@ == bytes@.take(i as int),
        decreases bytes.len() - i,
    {
        copy.push(bytes[i]);
        i = i + 1;
    }
    copy
}

impl GattManipulator {
    /// The address that the manager was made for.
    pub closed spec fn spec_address(&self) -> Seq<char> {
        self.address@
    }

    /// A manager for the lamp at `address`, with nothing cached and no
    /// request under way.
    pub fn new(address: &str) -> (manager: GattManipulator)
        ensures
            manager.spec_address() == address@,
            manager@.cache == Map::<u128, CharacteristicHandle>::empty(),
            manager@.phase == Phase::Idle,
    {
        GattManipulator {
            address: address.to_owned(),
            ch_cache: HashMap::new(),
            phase: Phase::Idle,
            request: Request::Establish,
            id: 0,
            data: Vec::new(),
            services: Vec::new(),
            characteristics: Vec::new(),
            at: CharacteristicHandle { service: 0, characteristic: 0 },
        }
    }

    /// The address that the manager was made for.
    pub fn address(&self) -> (address: &str)
        ensures
            address@ == self.spec_address(),
    {
        self.address.as_str()
    }

    /// Whether no request is under way.
    pub fn is_idle(&self) -> (idle: bool)
        ensures
            idle == (self@.phase == Phase::Idle),
    {
        self.phase == Phase::Idle
    }

    /// The handle cached for `ch_uuid`, if there is one.
    pub fn cached(&self, ch_uuid: u128) -> (handle: Option<CharacteristicHandle>)
        ensures
            handle == if self@.cache.contains_key(ch_uuid) {
                Some(self@.cache[ch_uuid])
            } else {
                None
            },
    {
        match self.ch_cache.get(&ch_uuid) {
            Some(handle) => Some(*handle),
            None => None,
        }
    }

    fn begin(&mut self, request: Request, id: u128, data: Vec<u8>) -> (action: Action)
        ensures
            final(self)@ == old(self)@.begin(request, id, data@).0,
            action@ == old(self)@.begin(request, id, data@).1,
            final(self).spec_address() == old(self).spec_address(),
    {
        self.request = request;
        self.id = id;
        self.data = data;
        self.ask_link(request == Request::Resolve)
    }

    /// Starts bringing the link up: the manager asks again until the lamp
    /// is connected.
    pub fn establish(&mut self) -> (action: Action)
        ensures
            final(self)@ == old(self)@.begin(Request::Establish, 0, Seq::empty()).0,
            action@ == old(self)@.begin(Request::Establish, 0, Seq::empty()).1,
            final(self).spec_address() == old(self).spec_address(),
    {
        self.begin(Request::Establish, 0, Vec::new())
    }

    /// Starts the search for the characteristic `ch_uuid`.
    pub fn resolve_characteristic(&mut self, ch_uuid: u128) -> (action: Action)
        ensures
            final(self)@ == old(self)@.begin(Request::Resolve, ch_uuid, Seq::empty()).0,
            action@ == old(self)@.begin(Request::Resolve, ch_uuid, Seq::empty()).1,
            final(self).spec_address() == old(self).spec_address(),
    {
        self.begin(Request::Resolve, ch_uuid, Vec::new())
    }

    /// Starts writing `data` to the characteristic `ch_uuid`.
    pub fn write_characteristic(&mut self, ch_uuid: u128, data: Vec<u8>) -> (action: Action)
        ensures
            final(self)@ == old(self)@.begin(Request::Write, ch_uuid, data@).0,
            action@ == old(self)@.begin(Request::Write, ch_uuid, data@).1,
            final(self).spec_address() == old(self).spec_address(),
    {
        self.begin(Request::Write, ch_uuid, data)
    }

    /// Starts reading the characteristic `ch_uuid`.
    pub fn read_characteristic(&mut self, ch_uuid: u128) -> (action: Action)
        ensures
            final(self)@ == old(self)@.begin(Request::Read, ch_uuid, Seq::empty()).0,
            action@ == old(self)@.begin(Request::Read, ch_uuid, Seq::empty()).1,
            final(self).spec_address() == old(self).spec_address(),
    {
        self.begin(Request::Read, ch_uuid, Vec::new())
    }

    /// Gives up whatever is under way and asks for the link to be dropped.
    /// What the radio answers to that is of no account.
    pub fn disconnect(&mut self) -> (action: Action)
        ensures
            final(self)@ == (Model { phase: Phase::Idle, ..old(self)@ }),
            action@ == ActionView::Disconnect,
            final(self).spec_address() == old(self).spec_address(),
    {
        self.phase = Phase::Idle;
        Action::Disconnect
    }

    fn finish(&mut self, outcome: Outcome) -> (action: Action)
        ensures
            final(self)@ == old(self)@.finish(outcome@).0,
            action@ == old(self)@.finish(outcome@).1,
            final(self).spec_address() == old(self).spec_address(),
    {
        self.phase = Phase::Idle;
        Action::Done(outcome)
    }

    fn ask_link(&mut self, resolving: bool) -> (action: Action)
        ensures
            final(self)@ == old(self)@.ask_link(resolving).0,
            action@ == old(self)@.ask_link(resolving).1,
            final(self).spec_address() == old(self).spec_address(),
    {
        self.phase = Phase::Link { resolving };
        Action::QueryLink
    }

    fn resolved(&mut self, handle: CharacteristicHandle) -> (action: Action)
        ensures
            final(self)@ == old(self)@.resolved(handle).0,
            action@ == old(self)@.resolved(handle).1,
            final(self).spec_address() == old(self).spec_address(),
    {
        match self.request {
            Request::Write => {
                self.phase = Phase::Transfer;
                self.at = handle;
                Action::Write { handle, data: copy_bytes(&self.data) }
            },
            Request::Read => {
                self.phase = Phase::Transfer;
                self.at = handle;
                Action::Read { handle }
            },
            _ => self.finish(Outcome::Resolved(handle)),
        }
    }

    fn linked(&mut self, resolving: bool) -> (action: Action)
        ensures
            final(self)@ == old(self)@.linked(resolving).0,
            action@ == old(self)@.linked(resolving).1,
            final(self).spec_address() == old(self).spec_address(),
    {
        if self.request == Request::Establish {
            self.finish(Outcome::Connected)
        } else if !resolving {
            self.ask_link(true)
        } else {
            match self.cached(self.id) {
                Some(handle) => self.resolved(handle),
                None => {
                    self.phase = Phase::Services;
                    Action::ListServices
                },
            }
        }
    }

    fn next_service(&mut self) -> (action: Action)
        ensures
            final(self)@ == old(self)@.next_service().0,
            action@ == old(self)@.next_service().1,
            final(self).spec_address() == old(self).spec_address(),
    {
        if self.services.len() > 0 {
            let service = self.services.remove(0);
            self.phase = Phase::Characteristics;
            self.at = CharacteristicHandle { service, characteristic: self.at.characteristic };
            Action::ListCharacteristics { service }
        } else {
            self.finish(Outcome::NotFound)
        }
    }

    fn next_characteristic(&mut self) -> (action: Action)
        ensures
            final(self)@ == old(self)@.next_characteristic().0,
            action@ == old(self)@.next_characteristic().1,
            final(self).spec_address() == old(self).spec_address(),
    {
        if self.characteristics.len() > 0 {
            let characteristic = self.characteristics.remove(0);
            let handle = CharacteristicHandle { service: self.at.service, characteristic };
            self.phase = Phase::Identifier;
            self.at = handle;
            Action::QueryIdentifier { handle }
        } else {
            self.next_service()
        }
    }

    /// The action whose result the manager is waiting for.
    pub fn pending(&self) -> (action: Action)
        ensures
            action@ == self@.pending(),
    {
        match self.phase {
            Phase::Idle => Action::Idle,
            Phase::Link { .. } => Action::QueryLink,
            Phase::Connecting { .. } => Action::Connect,
            Phase::Services => Action::ListServices,
            Phase::Characteristics => Action::ListCharacteristics { service: self.at.service },
            Phase::Identifier => Action::QueryIdentifier { handle: self.at },
            Phase::Transfer => if self.request == Request::Write {
                Action::Write { handle: self.at, data: copy_bytes(&self.data) }
            } else {
                Action::Read { handle: self.at }
            },
        }
    }

    /// Takes what the radio answered and says what to ask of it next.
    pub fn advance(&mut self, event: Event) -> (action: Action)
        ensures
            final(self)@ == old(self)@.after(event@).0,
            action@ == old(self)@.after(event@).1,
            final(self).spec_address() == old(self).spec_address(),
    {
        match event {
            Event::Link(up) => match self.phase {
                Phase::Link { resolving } => match up {
                    Some(true) => self.linked(resolving),
                    Some(false) => {
                        self.phase = Phase::Connecting { resolving };
                        Action::Connect
                    },
                    None => self.ask_link(resolving),
                },
                _ => self.pending(),
            },
            Event::Connected(ok) => match self.phase {
                Phase::Connecting { resolving } => if ok {
                    self.linked(resolving)
                } else {
                    self.ask_link(resolving)
                },
                _ => self.pending(),
            },
            Event::Services(list) => match self.phase {
                Phase::Services => match list {
                    Some(services) => {
                        self.services = services;
                        self.next_service()
                    },
                    None => self.ask_link(true),
                },
                _ => self.pending(),
            },
            Event::Characteristics(list) => match self.phase {
                Phase::Characteristics => match list {
                    Some(characteristics) => {
                        self.characteristics = characteristics;
                        self.next_characteristic()
                    },
                    None => self.ask_link(true),
                },
                _ => self.pending(),
            },
            Event::Identifier(found) => match self.phase {
                Phase::Identifier => match found {
                    Some(id) => if id == self.id {
                        self.ch_cache.insert(id, self.at);
                        self.resolved(self.at)
                    } else {
                        self.next_characteristic()
                    },
                    None => self.ask_link(true),
                },
                _ => self.pending(),
            },
            Event::Written(ok) => if self.phase == Phase::Transfer && self.request
                == Request::Write {
                if ok {
                    self.finish(Outcome::Written)
                } else {
                    self.ask_link(false)
                }
            } else {
                self.pending()
            },
            Event::Read(answer) => if self.phase == Phase::Transfer && self.request
                == Request::Read {
                match answer {
                    Some(data) => self.finish(Outcome::Data(data)),
                    None => self.ask_link(false),
                }
            } else {
                self.pending()
            },
        }
    }
}

} // verus!
