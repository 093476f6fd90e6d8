use benilla::script::UiScript;
use benilla::tabard::{ModelKind, PaneVerb, TABARD_CREATION_COST};

#[test]
fn the_creation_cost_is_ten_gold_and_a_tabard_model_is_its_own_kind() {
    let s = UiScript::new();
    assert_eq!(i64::from(s.get_tabard_creation_cost()), 100_000);
    assert_eq!(TABARD_CREATION_COST, 100_000);
    let t = ModelKind::TabardModel;
    assert_eq!(t.object_type(), "TabardModel");
    assert!(t.is_object_type(ModelKind::PlayerModel) && t.is_object_type(ModelKind::Model));
    assert!(
        t.has_verb(PaneVerb::SetUnit) && t.has_verb(PaneVerb::SetRotation),
        "the inherited pane verbs"
    );
}

#[test]
fn a_player_model_is_a_model_but_not_a_tabard_model() {
    assert!(ModelKind::PlayerModel.is_object_type(ModelKind::Model));
    assert!(!ModelKind::PlayerModel.is_object_type(ModelKind::TabardModel));
    assert!(!ModelKind::Model.is_object_type(ModelKind::PlayerModel));
    assert_eq!(ModelKind::Model.object_type(), "Model");
}

#[test]
fn a_plain_model_lacks_the_player_models_verb() {
    assert!(!ModelKind::Model.has_verb(PaneVerb::SetUnit));
    assert!(ModelKind::Model.has_verb(PaneVerb::SetRotation));
    assert!(ModelKind::PlayerModel.has_verb(PaneVerb::SetUnit));
}
