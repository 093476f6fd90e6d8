//! The guild tabard designer's engine surface: the designer's price, and the `TabardModel`
//! frame kind, which inherits the player-model and model panes.

use vstd::prelude::*;

use crate::script::UiScript;

verus! {

/// The designer's price, in copper: a hard-coded ten gold, with no server input.
pub const TABARD_CREATION_COST: u32 = 100_000;

/// The model frame kinds, each inheriting the next: a `TabardModel` is a `PlayerModel`, which is
/// a `Model`.
#[derive(Clone, Copy, Debug, PartialEq, Eq)]
pub enum ModelKind {
    Model,
    PlayerModel,
    TabardModel,
}

/// The kind's name, as `GetObjectType` answers it.
pub open spec fn model_kind_name(k: ModelKind) -> Seq<char> {
    match k {
        ModelKind::Model => "Model"@,
        ModelKind::PlayerModel => "PlayerModel"@,
        ModelKind::TabardModel => "TabardModel"@,
    }
}

/// Whether a frame of kind `k` is also of kind `of` — itself or one it inherits.
pub open spec fn model_kind_is(k: ModelKind, of: ModelKind) -> bool {
    match k {
        ModelKind::Model => of == ModelKind::Model,
        ModelKind::PlayerModel => of == ModelKind::Model || of == ModelKind::PlayerModel,
        ModelKind::TabardModel => true,
    }
}

impl ModelKind {
    /// `GetObjectType()`.
    pub fn object_type(self) -> (s: &'static str)
        ensures
            s@ == model_kind_name(self),
    {
        match self {
            ModelKind::Model => "Model",
            ModelKind::PlayerModel => "PlayerModel",
            ModelKind::TabardModel => "TabardModel",
        }
    }

    /// `IsObjectType(kind)`: itself or an inherited kind.
    pub fn is_object_type(self, of: ModelKind) -> (b: bool)
        ensures
            b == model_kind_is(self, of),
    {
        match self {
            ModelKind::Model => match of {
                ModelKind::Model => true,
                _ => false,
            },
            ModelKind::PlayerModel => match of {
                ModelKind::TabardModel => false,
                _ => true,
            },
            ModelKind::TabardModel => true,
        }
    }
}

/// Two of the pane verbs a model frame answers, each held by one kind's method table and found
/// by every kind that inherits it.
#[derive(Clone, Copy, Debug, PartialEq, Eq)]
pub enum PaneVerb {
    /// `SetUnit`, from the player-model table.
    SetUnit,
    /// `SetRotation`, from the model table.
    SetRotation,
}

/// The kind whose method table holds the verb.
pub open spec fn verb_owner(v: PaneVerb) -> ModelKind {
    match v {
        PaneVerb::SetUnit => ModelKind::PlayerModel,
        PaneVerb::SetRotation => ModelKind::Model,
    }
}

impl ModelKind {
    /// Whether a frame of this kind answers the verb: its own table or an inherited one holds
    /// it.
    pub fn has_verb(self, v: PaneVerb) -> (b: bool)
        ensures
            b == model_kind_is(self, verb_owner(v)),
    {
        let owner = match v {
            PaneVerb::SetUnit => ModelKind::PlayerModel,
            PaneVerb::SetRotation => ModelKind::Model,
        };
        self.is_object_type(owner)
    }
}

impl UiScript {
    /// `GetTabardCreationCost()` — the constant.
    pub fn get_tabard_creation_cost(&self) -> (c: u32)
        ensures
            c == TABARD_CREATION_COST,
    {
        TABARD_CREATION_COST
    }
}

} // verus!
