//! Notification targets: saved delivery configurations (webhook, chat,
//! email) that alerts resolve by id before sending a notification.

use vstd::prelude::*;
use crate::index::Dup;

verus! {

/// Spec-level image of a [`Target`].
pub struct TargetModel {
    pub id: Seq<char>,
    pub name: Seq<char>,
    pub kind: Seq<char>,
    pub config: Seq<char>,
}

/// A saved notification-delivery configuration.
///
/// `id` is a generated identifier assigned only at creation and immutable
/// thereafter. `name` is caller-supplied at creation and immutable after
/// creation: any update attempting to change it is rejected. `kind` names
/// the delivery mechanism (webhook, chat, email) and `config` carries the
/// kind-specific delivery configuration; both are opaque to the registry
/// beyond being stored and returned unchanged.
#[derive(Debug)]
pub struct Target {
    pub id: String,
    pub name: String,
    pub kind: String,
    pub config: String,
}

impl View for Target {
    type V = TargetModel;

    open spec fn view(&self) -> TargetModel {
        TargetModel { id: self.id@, name: self.name@, kind: self.kind@, config: self.config@ }
    }
}

/// Structural validity: a target must have a name.
pub open spec fn target_valid(t: TargetModel) -> bool {
    t.name.len() >= 1
}

impl Dup for Target {
    fn dup(&self) -> (r: Self)
        ensures
            r@ == self@,
    {
        Target {
            id: self.id.clone(),
            name: self.name.clone(),
            kind: self.kind.clone(),
            config: self.config.clone(),
        }
    }
}

impl Target {
    /// Whether this target passes structural validation.
    pub fn is_valid(&self) -> (r: bool)
        ensures
            r == target_valid(self@),
    {
        !self.name.as_str().is_empty()
    }
}

} // verus!
