use std::collections::HashMap;
use vstd::prelude::*;

verus! {

/// What a handle is registered for, or what it was reported ready for: the
/// key that identifies the handle and one flag per direction.
#[derive(Clone, Copy, Debug, PartialEq, Eq, Structural)]
pub struct Interest {
    pub key: usize,
    pub readable: bool,
    pub writable: bool,
}

/// The key that the multiplexer keeps for its own wake-up notification.
/// No handle can be registered under it and no readiness report carries it.
pub open spec fn reserved_key() -> usize {
    usize::MAX
}

/// `polling::Event::none`: interest in nothing, under `key`.
#[verifier::external_body]
fn event_none(key: usize) -> (i: Interest)
    ensures
        i == (Interest { key, readable: false, writable: false }),
{
    let ev = polling::Event::none(key);
    Interest { key: ev.key, readable: ev.readable, writable: ev.writable }
}

/// `polling::Event::readable`: interest in read readiness only, under `key`.
#[verifier::external_body]
fn event_readable(key: usize) -> (i: Interest)
    ensures
        i == (Interest { key, readable: true, writable: false }),
{
    let ev = polling::Event::readable(key);
    Interest { key: ev.key, readable: ev.readable, writable: ev.writable }
}

/// `polling::Event::writable`: interest in write readiness only, under `key`.
#[verifier::external_body]
fn event_writable(key: usize) -> (i: Interest)
    ensures
        i == (Interest { key, readable: false, writable: true }),
{
    let ev = polling::Event::writable(key);
    Interest { key: ev.key, readable: ev.readable, writable: ev.writable }
}

/// `polling::Event::all`: interest in both directions, under `key`.
#[verifier::external_body]
fn event_all(key: usize) -> (i: Interest)
    ensures
        i == (Interest { key, readable: true, writable: true }),
{
    let ev = polling::Event::all(key);
    Interest { key: ev.key, readable: ev.readable, writable: ev.writable }
}

impl Interest {
    /// Interest in nothing.
    pub fn none(key: usize) -> (i: Interest)
        ensures
            i == (Interest { key, readable: false, writable: false }),
    {
        event_none(key)
    }

    /// Interest in read readiness only.
    pub fn readable(key: usize) -> (i: Interest)
        ensures
            i == (Interest { key, readable: true, writable: false }),
    {
        event_readable(key)
    }

    /// Interest in write readiness only.
    pub fn writable(key: usize) -> (i: Interest)
        ensures
            i == (Interest { key, readable: false, writable: true }),
    {
        event_writable(key)
    }

    /// Interest in both directions.
    pub fn all(key: usize) -> (i: Interest)
        ensures
            i == (Interest { key, readable: true, writable: true }),
    {
        event_all(key)
    }

    /// The interest under `key` that covers exactly the wanted directions.
    pub open spec fn spec_of(key: usize, readable: bool, writable: bool) -> Interest {
        Interest { key, readable, writable }
    }

    /// The interest under `key` that covers exactly the wanted directions.
    pub fn of(key: usize, readable: bool, writable: bool) -> (i: Interest)
        ensures
            i == Self::spec_of(key, readable, writable),
    {
        if readable {
            if writable {
                Interest::all(key)
            } else {
                Interest::readable(key)
            }
        } else {
            if writable {
                Interest::writable(key)
            } else {
                Interest::none(key)
            }
        }
    }

    /// True when neither direction is wanted.
    pub open spec fn spec_is_none(self) -> bool {
        !self.readable && !self.writable
    }

    /// True when neither direction is wanted.
    #[verifier::when_used_as_spec(spec_is_none)]
    pub fn is_none(self) -> (b: bool)
        ensures
            b == self.spec_is_none(),
    {
        !self.readable && !self.writable
    }
}

/// Why the multiplexer refused a change to its registrations.
#[derive(Clone, Copy, Debug, PartialEq, Eq, Structural)]
pub enum RegistrationError {
    /// The handle already has a live registration.
    AlreadyRegistered,
    /// The handle has no live registration.
    NotRegistered,
    /// The key is the one kept for the wake-up notification.
    ReservedKey,
}

/// The interest set of every registered handle, as the operating system's
/// readiness facility holds it. Registrations are one-shot: once readiness
/// has been reported for a handle its interest is empty until it is set again.
pub struct Multiplexer {
    interests: HashMap<usize, Interest>,
}

impl View for Multiplexer {
    type V = Map<usize, Interest>;

    closed spec fn view(&self) -> Map<usize, Interest> {
        self.interests@
    }
}

impl Multiplexer {
    /// Every registration is filed under its own key, and never under the
    /// reserved one.
    pub open spec fn wf(&self) -> bool {
        forall|k: usize| #[trigger]
            self@.contains_key(k) ==> self@[k].key == k && k != reserved_key()
    }

    /// A multiplexer without registrations.
    pub fn new() -> (m: Multiplexer)
        ensures
            m@ == Map::<usize, Interest>::empty(),
            m.wf(),
    {
        Multiplexer { interests: HashMap::new() }
    }

    /// Whether `key` has a live registration.
    pub fn is_registered(&self, key: usize) -> (b: bool)
        ensures
            b == self@.contains_key(key),
    {
        self.interests.contains_key(&key)
    }

    /// The registered interest of `key`, if it has a live registration.
    pub fn interest(&self, key: usize) -> (r: Option<Interest>)
        ensures
            r == (if self@.contains_key(key) {
                Some(self@[key])
            } else {
                None
            }),
    {
        match self.interests.get(&key) {
            Some(i) => Some(*i),
            None => None,
        }
    }

    /// How many handles are registered.
    pub fn len(&self) -> (n: usize)
        ensures
            n == self@.len(),
    {
        self.interests.len()
    }

    /// The outcome of `add` on a multiplexer that holds `m`.
    pub open spec fn spec_add(m: Map<usize, Interest>, interest: Interest) -> Result<
        (),
        RegistrationError,
    > {
        if interest.key == reserved_key() {
            Err(RegistrationError::ReservedKey)
        } else if m.contains_key(interest.key) {
            Err(RegistrationError::AlreadyRegistered)
        } else {
            Ok(())
        }
    }

    /// Registers a handle with its initial interest. A reserved key or a
    /// handle that is already registered is refused and changes nothing.
    pub fn add(&mut self, interest: Interest) -> (r: Result<(), RegistrationError>)
        requires
            old(self).wf(),
        ensures
            final(self).wf(),
            r == Self::spec_add(old(self)@, interest),
            r is Ok ==> final(self)@ == old(self)@.insert(interest.key, interest),
            r is Err ==> final(self)@ == old(self)@,
    {
        if interest.key == usize::MAX {
            Err(RegistrationError::ReservedKey)
        } else if self.interests.contains_key(&interest.key) {
            Err(RegistrationError::AlreadyRegistered)
        } else {
            self.interests.insert(interest.key, interest);
            Ok(())
        }
    }

    /// The outcome of `modify` and of `remove` on a multiplexer that holds `m`.
    pub open spec fn spec_find(m: Map<usize, Interest>, key: usize) -> Result<
        (),
        RegistrationError,
    > {
        if key == reserved_key() {
            Err(RegistrationError::ReservedKey)
        } else if !m.contains_key(key) {
            Err(RegistrationError::NotRegistered)
        } else {
            Ok(())
        }
    }

    /// Replaces the interest of a live registration. A reserved key or an
    /// unregistered handle is refused and changes nothing.
    pub fn modify(&mut self, interest: Interest) -> (r: Result<(), RegistrationError>)
        requires
            old(self).wf(),
        ensures
            final(self).wf(),
            r == Self::spec_find(old(self)@, interest.key),
            r is Ok ==> final(self)@ == old(self)@.insert(interest.key, interest),
            r is Err ==> final(self)@ == old(self)@,
    {
        if interest.key == usize::MAX {
            Err(RegistrationError::ReservedKey)
        } else if !self.interests.contains_key(&interest.key) {
            Err(RegistrationError::NotRegistered)
        } else {
            self.interests.insert(interest.key, interest);
            Ok(())
        }
    }

    /// Ends the registration of `key`. An unregistered handle is refused and
    /// changes nothing.
    pub fn remove(&mut self, key: usize) -> (r: Result<(), RegistrationError>)
        requires
            old(self).wf(),
        ensures
            final(self).wf(),
            r == Self::spec_find(old(self)@, key),
            r is Ok ==> final(self)@ == old(self)@.remove(key),
            r is Err ==> final(self)@ == old(self)@,
    {
        if key == usize::MAX {
            Err(RegistrationError::ReservedKey)
        } else if !self.interests.contains_key(&key) {
            Err(RegistrationError::NotRegistered)
        } else {
            self.interests.remove(&key);
            Ok(())
        }
    }

    /// What is registered once readiness has been reported for `key`: its
    /// interest is used up, every other registration stays.
    pub open spec fn spec_deliver(m: Map<usize, Interest>, key: usize) -> Map<usize, Interest> {
        if m.contains_key(key) {
            m.insert(key, Interest { key, readable: false, writable: false })
        } else {
            m
        }
    }

    /// Records that readiness was reported for `key`.
    pub fn deliver(&mut self, key: usize)
        requires
            old(self).wf(),
        ensures
            final(self).wf(),
            final(self)@ == Self::spec_deliver(old(self)@, key),
    {
        if self.interests.contains_key(&key) {
            assert(self@.contains_key(key));
            self.interests.insert(key, Interest::none(key));
        }
    }
}

/// The buffer that the readiness facility fills while it waits.
#[verifier::external_type_specification]
#[verifier::external_body]
pub struct ExEvents(polling::Events);

/// The readiness reports that a buffer holds, in the order of delivery.
pub uninterp spec fn reports(events: polling::Events) -> Seq<Interest>;

/// `polling::Events::iter`, each report copied out field by field. The
/// iterator leaves out the entry of the wake-up notification, so no report
/// carries the reserved key.
#[verifier::external_body]
fn collect_reports(events: &polling::Events) -> (out: Vec<Interest>)
    ensures
        out@ == reports(*events),
        forall|i: int| 0 <= i < out@.len() ==> (#[trigger] out@[i]).key != reserved_key(),
{
    events.iter().map(
        |ev| Interest { key: ev.key, readable: ev.readable, writable: ev.writable },
    ).collect()
}

/// The readiness reports of a filled buffer, as plain values.
pub fn delivered(events: &polling::Events) -> (out: Vec<Interest>)
    ensures
        out@ == reports(*events),
        forall|i: int| 0 <= i < out@.len() ==> (#[trigger] out@[i]).key != reserved_key(),
{
    collect_reports(events)
}

} // verus!
