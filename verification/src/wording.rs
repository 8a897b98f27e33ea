//! How things are called when a player is told about them.

use vstd::prelude::*;

use crate::protocol::{DenyReason, PowerUp, RejectReason, POWERUPS};

verus! {

/// What an upgrade is called, and what it does.
#[derive(Clone, Debug)]
pub struct Label {
    pub name: String,
    pub description: String,
}

/// The words for everything that has a name of its own.
#[derive(Clone, Debug)]
pub struct Wording {
    pub server_full: String,
    pub match_finished: String,
    pub name_taken: String,
    pub eliminated: String,
    pub already_owned: String,
    pub not_enough_credits: String,
    /// One for each upgrade, in the order of the build list.
    pub upgrades: Vec<Label>,
}

impl Wording {
    /// There is a label for every upgrade.
    pub open spec fn wf(&self) -> bool {
        self.upgrades@.len() == POWERUPS
    }

    pub open spec fn deny_spec(&self, reason: DenyReason) -> Seq<char> {
        match reason {
            DenyReason::ServerFull => self.server_full@,
            DenyReason::MatchFinished => self.match_finished@,
            DenyReason::NameTaken => self.name_taken@,
        }
    }

    /// Why a client was turned away.
    pub fn deny(&self, reason: DenyReason) -> (r: &str)
        ensures
            reason == DenyReason::ServerFull ==> r@ == self.server_full@,
            reason == DenyReason::MatchFinished ==> r@ == self.match_finished@,
            reason == DenyReason::NameTaken ==> r@ == self.name_taken@,
            r@ == self.deny_spec(reason),
    {
        match reason {
            DenyReason::ServerFull => self.server_full.as_str(),
            DenyReason::MatchFinished => self.match_finished.as_str(),
            DenyReason::NameTaken => self.name_taken.as_str(),
        }
    }

    pub open spec fn reject_spec(&self, reason: RejectReason) -> Seq<char> {
        match reason {
            RejectReason::Eliminated => self.eliminated@,
            RejectReason::AlreadyOwned => self.already_owned@,
            RejectReason::NotEnoughCredits => self.not_enough_credits@,
        }
    }

    /// Why a purchase was declined.
    pub fn reject(&self, reason: RejectReason) -> (r: &str)
        ensures
            reason == RejectReason::Eliminated ==> r@ == self.eliminated@,
            reason == RejectReason::AlreadyOwned ==> r@ == self.already_owned@,
            reason == RejectReason::NotEnoughCredits ==> r@ == self.not_enough_credits@,
            r@ == self.reject_spec(reason),
    {
        match reason {
            RejectReason::Eliminated => self.eliminated.as_str(),
            RejectReason::AlreadyOwned => self.already_owned.as_str(),
            RejectReason::NotEnoughCredits => self.not_enough_credits.as_str(),
        }
    }

    pub open spec fn upgrade_spec(&self, powerup: PowerUp) -> Seq<char> {
        self.upgrades@[powerup.index_spec()].name@
    }

    /// What an upgrade is called.
    pub fn upgrade(&self, powerup: PowerUp) -> (r: &str)
        requires
            self.wf(),
        ensures
            r@ == self.upgrades@[powerup.index_spec()].name@,
            r@ == self.upgrade_spec(powerup),
    {
        self.upgrades[powerup.index()].name.as_str()
    }

    pub open spec fn about_spec(&self, powerup: PowerUp) -> Seq<char> {
        self.upgrades@[powerup.index_spec()].description@
    }

    /// What an upgrade does.
    pub fn about(&self, powerup: PowerUp) -> (r: &str)
        requires
            self.wf(),
        ensures
            r@ == self.upgrades@[powerup.index_spec()].description@,
            r@ == self.about_spec(powerup),
    {
        self.upgrades[powerup.index()].description.as_str()
    }
}

} // verus!
