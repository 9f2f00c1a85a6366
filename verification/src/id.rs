//! Identifiers. Each is opaque text, typed by the role of what it names.
//!
//! Two identifiers of one role are the same exactly when their text is the
//! same. The text is chosen by whoever creates the identifier.

use vstd::prelude::*;

verus! {

/// Names a fixture.
#[derive(Debug, PartialEq, Eq, Hash)]
pub struct FixtureId {
    id: String,
}

impl View for FixtureId {
    type V = Seq<char>;

    closed spec fn view(&self) -> Seq<char> {
        self.id@
    }
}

impl Clone for FixtureId {
    fn clone(&self) -> (copy: Self)
        ensures
            copy == *self,
    {
        FixtureId { id: self.id.clone() }
    }
}

impl FixtureId {
    /// The identifier with the given text.
    pub fn new_from(id: String) -> (made: Self)
        ensures
            made@ == id@,
    {
        FixtureId { id }
    }

    /// The identifier's text.
    pub fn unprotect(&self) -> (text: String)
        ensures
            text@ == self@,
    {
        self.id.clone()
    }

    /// The identifier's text, borrowed.
    pub fn key(&self) -> (text: &String)
        ensures
            text@ == self@,
    {
        &self.id
    }

    /// Whether both identifiers have the same text.
    pub fn same(&self, other: &FixtureId) -> (equal: bool)
        ensures
            equal == (self@ == other@),
    {
        self.id == other.id
    }
}

/// Names an installation.
#[derive(Debug, PartialEq, Eq, Hash)]
pub struct InstallationId {
    id: String,
}

impl View for InstallationId {
    type V = Seq<char>;

    closed spec fn view(&self) -> Seq<char> {
        self.id@
    }
}

impl Clone for InstallationId {
    fn clone(&self) -> (copy: Self)
        ensures
            copy == *self,
    {
        InstallationId { id: self.id.clone() }
    }
}

impl InstallationId {
    /// The identifier with the given text.
    pub fn new_from(id: String) -> (made: Self)
        ensures
            made@ == id@,
    {
        InstallationId { id }
    }

    /// The identifier's text.
    pub fn unprotect(&self) -> (text: String)
        ensures
            text@ == self@,
    {
        self.id.clone()
    }

    /// The identifier's text, borrowed.
    pub fn key(&self) -> (text: &String)
        ensures
            text@ == self@,
    {
        &self.id
    }

    /// Whether both identifiers have the same text.
    pub fn same(&self, other: &InstallationId) -> (equal: bool)
        ensures
            equal == (self@ == other@),
    {
        self.id == other.id
    }
}

/// Names a group.
#[derive(Debug, PartialEq, Eq, Hash)]
pub struct GroupId {
    id: String,
}

impl View for GroupId {
    type V = Seq<char>;

    closed spec fn view(&self) -> Seq<char> {
        self.id@
    }
}

impl Clone for GroupId {
    fn clone(&self) -> (copy: Self)
        ensures
            copy == *self,
    {
        GroupId { id: self.id.clone() }
    }
}

impl GroupId {
    /// The identifier with the given text.
    pub fn new_from(id: String) -> (made: Self)
        ensures
            made@ == id@,
    {
        GroupId { id }
    }

    /// The identifier's text.
    pub fn unprotect(&self) -> (text: String)
        ensures
            text@ == self@,
    {
        self.id.clone()
    }

    /// The identifier's text, borrowed.
    pub fn key(&self) -> (text: &String)
        ensures
            text@ == self@,
    {
        &self.id
    }

    /// Whether both identifiers have the same text.
    pub fn same(&self, other: &GroupId) -> (equal: bool)
        ensures
            equal == (self@ == other@),
    {
        self.id == other.id
    }
}

/// Names an animation.
#[derive(Debug, PartialEq, Eq, Hash)]
pub struct AnimationId {
    id: String,
}

impl View for AnimationId {
    type V = Seq<char>;

    closed spec fn view(&self) -> Seq<char> {
        self.id@
    }
}

impl Clone for AnimationId {
    fn clone(&self) -> (copy: Self)
        ensures
            copy == *self,
    {
        AnimationId { id: self.id.clone() }
    }
}

impl AnimationId {
    /// The identifier with the given text.
    pub fn new_from(id: String) -> (made: Self)
        ensures
            made@ == id@,
    {
        AnimationId { id }
    }

    /// The identifier's text.
    pub fn unprotect(&self) -> (text: String)
        ensures
            text@ == self@,
    {
        self.id.clone()
    }

    /// The identifier's text, borrowed.
    pub fn key(&self) -> (text: &String)
        ensures
            text@ == self@,
    {
        &self.id
    }

    /// Whether both identifiers have the same text.
    pub fn same(&self, other: &AnimationId) -> (equal: bool)
        ensures
            equal == (self@ == other@),
    {
        self.id == other.id
    }
}

/// Names a device.
#[derive(Debug, PartialEq, Eq, Hash)]
pub struct DeviceId {
    id: String,
}

impl View for DeviceId {
    type V = Seq<char>;

    closed spec fn view(&self) -> Seq<char> {
        self.id@
    }
}

impl Clone for DeviceId {
    fn clone(&self) -> (copy: Self)
        ensures
            copy == *self,
    {
        DeviceId { id: self.id.clone() }
    }
}

impl DeviceId {
    /// The identifier with the given text.
    pub fn new_from(id: String) -> (made: Self)
        ensures
            made@ == id@,
    {
        DeviceId { id }
    }

    /// The identifier's text.
    pub fn unprotect(&self) -> (text: String)
        ensures
            text@ == self@,
    {
        self.id.clone()
    }

    /// The identifier's text, borrowed.
    pub fn key(&self) -> (text: &String)
        ensures
            text@ == self@,
    {
        &self.id
    }

    /// Whether both identifiers have the same text.
    pub fn same(&self, other: &DeviceId) -> (equal: bool)
        ensures
            equal == (self@ == other@),
    {
        self.id == other.id
    }
}

/// Names an auxiliary data stream.
#[derive(Debug, PartialEq, Eq, Hash)]
pub struct AuxiliaryId {
    id: String,
}

impl View for AuxiliaryId {
    type V = Seq<char>;

    closed spec fn view(&self) -> Seq<char> {
        self.id@
    }
}

impl Clone for AuxiliaryId {
    fn clone(&self) -> (copy: Self)
        ensures
            copy == *self,
    {
        AuxiliaryId { id: self.id.clone() }
    }
}

impl AuxiliaryId {
    /// The identifier with the given text.
    pub fn new_from(id: String) -> (made: Self)
        ensures
            made@ == id@,
    {
        AuxiliaryId { id }
    }

    /// The identifier's text.
    pub fn unprotect(&self) -> (text: String)
        ensures
            text@ == self@,
    {
        self.id.clone()
    }

    /// The identifier's text, borrowed.
    pub fn key(&self) -> (text: &String)
        ensures
            text@ == self@,
    {
        &self.id
    }

    /// Whether both identifiers have the same text.
    pub fn same(&self, other: &AuxiliaryId) -> (equal: bool)
        ensures
            equal == (self@ == other@),
    {
        self.id == other.id
    }
}

} // verus!
