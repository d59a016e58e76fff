use data_bundles::{
    AssetPlugin, BundleError, BundleFile, BundleRegistry, Bundler, ComponentRegistry,
    EntityContext, Inserter, NameMap,
};
use serde_json::Value;

#[derive(Clone, Debug, PartialEq)]
enum Comp {
    Health { hp: u64 },
    Team { id: String },
    Marker(u32),
}

type Decoder = fn(&Value) -> Option<Comp>;

fn decode_health(v: &Value) -> Option<Comp> {
    let hp = v.as_object()?.get("hp")?.as_u64()?;
    Some(Comp::Health { hp })
}

fn decode_team(v: &Value) -> Option<Comp> {
    let id = v.as_object()?.get("id")?.as_str()?;
    Some(Comp::Team { id: id.to_string() })
}

fn decode_marker(v: &Value) -> Option<Comp> {
    Some(Comp::Marker(v.as_u64()? as u32))
}

fn json(text: &str) -> Value {
    serde_json::from_str(text).unwrap()
}

fn registry() -> ComponentRegistry<Decoder> {
    let mut reg: ComponentRegistry<Decoder> = ComponentRegistry::new();
    reg.insert("Health", decode_health as Decoder);
    reg.insert("Team", decode_team as Decoder);
    reg.insert("Marker", decode_marker as Decoder);
    reg
}

fn definition(fields: &[(&str, &str)]) -> BundleFile {
    let mut def = BundleFile::new();
    for (k, v) in fields {
        def.insert(k, json(v));
    }
    def
}

fn name_of(ins: &Inserter<Comp>) -> Option<String> {
    match ins {
        Inserter::Name(n) => Some(n.clone()),
        Inserter::Component(_) => None,
    }
}

fn comp_of(ins: &Inserter<Comp>) -> Option<Comp> {
    match ins {
        Inserter::Name(_) => None,
        Inserter::Component(c) => Some(c.clone()),
    }
}

#[test]
fn soldier_end_to_end() {
    let reg = registry();
    let mut bundles: BundleRegistry<Comp> = BundleRegistry::new();
    let def = definition(&[
        ("name", r#""Soldier""#),
        ("Health", r#"{"hp":100}"#),
        ("Team", r#"{"id":"red"}"#),
    ]);
    assert!(bundles.load(&reg, def).is_ok());
    let mut e = EntityContext::new();
    assert_eq!(bundles.spawn("Soldier", &mut e), Ok(()));
    assert_eq!(e.attached.len(), 3);
    assert_eq!(name_of(&e.attached[0]), Some("Soldier".to_string()));
    assert_eq!(comp_of(&e.attached[1]), Some(Comp::Health { hp: 100 }));
    assert_eq!(comp_of(&e.attached[2]), Some(Comp::Team { id: "red".to_string() }));
}

#[test]
fn decoded_component_is_attached() {
    let reg = registry();
    let mut bundles: BundleRegistry<Comp> = BundleRegistry::new();
    let def = definition(&[("name", r#""Tagged""#), ("Marker", "7")]);
    let built = bundles.load(&reg, def).unwrap();
    let mut e = EntityContext::new();
    built.spawn(&mut e);
    assert_eq!(e.attached.len(), 2);
    assert_eq!(comp_of(&e.attached[1]), Some(Comp::Marker(7)));
    let mut f = EntityContext::new();
    bundles.spawn("Tagged", &mut f).unwrap();
    assert_eq!(comp_of(&f.attached[1]), Some(Comp::Marker(7)));
}

#[test]
fn missing_name_is_schema_error() {
    let reg = registry();
    let mut bundles: BundleRegistry<Comp> = BundleRegistry::new();
    let def = definition(&[("Health", r#"{"hp":1}"#)]);
    assert_eq!(bundles.load(&reg, def).err(), Some(BundleError::SchemaError));
    assert!(bundles.get("Health").is_none());
    let mut e = EntityContext::new();
    assert_eq!(bundles.spawn("Health", &mut e), Err(BundleError::UnknownBundle));
}

#[test]
fn non_string_name_is_schema_error() {
    let reg = registry();
    let mut bundles: BundleRegistry<Comp> = BundleRegistry::new();
    let def = definition(&[("name", "42"), ("Marker", "1")]);
    assert_eq!(bundles.load(&reg, def).err(), Some(BundleError::SchemaError));
    assert!(bundles.get("42").is_none());
}

#[test]
fn unknown_component_registers_nothing() {
    let reg = registry();
    let mut bundles: BundleRegistry<Comp> = BundleRegistry::new();
    let def = definition(&[
        ("name", r#""Ghost""#),
        ("Health", r#"{"hp":5}"#),
        ("Mana", r#"{"mp":5}"#),
    ]);
    assert_eq!(bundles.load(&reg, def).err(), Some(BundleError::UnknownComponent));
    assert!(bundles.get("Ghost").is_none());
}

#[test]
fn unknown_component_wins_over_decode_error() {
    let reg = registry();
    let mut bundles: BundleRegistry<Comp> = BundleRegistry::new();
    let def = definition(&[("name", r#""Odd""#), ("Health", r#""bad""#), ("Mana", "1")]);
    assert_eq!(bundles.load(&reg, def).err(), Some(BundleError::UnknownComponent));
}

#[test]
fn decode_error_registers_nothing() {
    let reg = registry();
    let mut bundles: BundleRegistry<Comp> = BundleRegistry::new();
    let def = definition(&[("name", r#""Broken""#), ("Health", r#"{"hp":"lots"}"#)]);
    assert_eq!(bundles.load(&reg, def).err(), Some(BundleError::DecodeError));
    assert!(bundles.get("Broken").is_none());
}

#[test]
fn failed_reload_keeps_previous_bundle() {
    let reg = registry();
    let mut bundles: BundleRegistry<Comp> = BundleRegistry::new();
    bundles.load(&reg, definition(&[("name", r#""Unit""#), ("Marker", "1")])).unwrap();
    let bad = definition(&[("name", r#""Unit""#), ("Marker", r#""x""#)]);
    assert_eq!(bundles.load(&reg, bad).err(), Some(BundleError::DecodeError));
    let mut e = EntityContext::new();
    bundles.spawn("Unit", &mut e).unwrap();
    assert_eq!(comp_of(&e.attached[1]), Some(Comp::Marker(1)));
}

#[test]
fn spawn_unknown_bundle_leaves_context() {
    let bundles: BundleRegistry<Comp> = BundleRegistry::new();
    let mut e = EntityContext::new();
    e.attached.push(Inserter::Component(Comp::Marker(3)));
    assert_eq!(bundles.spawn("Nobody", &mut e), Err(BundleError::UnknownBundle));
    assert_eq!(e.attached.len(), 1);
    assert_eq!(comp_of(&e.attached[0]), Some(Comp::Marker(3)));
}

#[test]
fn second_load_replaces_first() {
    let reg = registry();
    let mut bundles: BundleRegistry<Comp> = BundleRegistry::new();
    bundles
        .load(&reg, definition(&[("name", r#""Unit""#), ("Health", r#"{"hp":1}"#)]))
        .unwrap();
    bundles
        .load(&reg, definition(&[("name", r#""Unit""#), ("Team", r#"{"id":"blue"}"#)]))
        .unwrap();
    let mut e = EntityContext::new();
    bundles.spawn("Unit", &mut e).unwrap();
    assert_eq!(e.attached.len(), 2);
    assert_eq!(name_of(&e.attached[0]), Some("Unit".to_string()));
    assert_eq!(comp_of(&e.attached[1]), Some(Comp::Team { id: "blue".to_string() }));
}

#[test]
fn declaration_order_is_spawn_order() {
    let reg = registry();
    let mut bundles: BundleRegistry<Comp> = BundleRegistry::new();
    let def = definition(&[
        ("Team", r#"{"id":"a"}"#),
        ("name", r#""Ordered""#),
        ("Marker", "2"),
        ("Health", r#"{"hp":9}"#),
    ]);
    bundles.load(&reg, def).unwrap();
    let mut e = EntityContext::new();
    bundles.spawn("Ordered", &mut e).unwrap();
    // Replay the attaches with a counter: each records the tick it ran at.
    let mut counter = 0u32;
    let mut ticks = Vec::new();
    for ins in &e.attached {
        counter += 1;
        if let Some(c) = comp_of(ins) {
            ticks.push((c, counter));
        }
    }
    assert_eq!(
        ticks,
        vec![
            (Comp::Team { id: "a".to_string() }, 2),
            (Comp::Marker(2), 3),
            (Comp::Health { hp: 9 }, 4),
        ]
    );
    assert_eq!(name_of(&e.attached[0]), Some("Ordered".to_string()));
}

#[test]
fn spawn_appends_after_existing_attaches() {
    let reg = registry();
    let mut bundles: BundleRegistry<Comp> = BundleRegistry::new();
    bundles.load(&reg, definition(&[("name", r#""A""#), ("Marker", "5")])).unwrap();
    let mut e = EntityContext::new();
    bundles.spawn("A", &mut e).unwrap();
    bundles.spawn("A", &mut e).unwrap();
    assert_eq!(e.attached.len(), 4);
    assert_eq!(name_of(&e.attached[2]), Some("A".to_string()));
    assert_eq!(comp_of(&e.attached[3]), Some(Comp::Marker(5)));
}

#[test]
fn name_only_bundle_attaches_tag() {
    let reg = registry();
    let mut bundles: BundleRegistry<Comp> = BundleRegistry::new();
    let b = bundles.load(&reg, definition(&[("name", r#""Bare""#)])).unwrap();
    let mut e = EntityContext::new();
    b.spawn(&mut e);
    assert_eq!(e.attached.len(), 1);
    assert_eq!(name_of(&e.attached[0]), Some("Bare".to_string()));
}

#[test]
fn empty_bundler_spawn_is_noop() {
    let b: Bundler<Comp> = Bundler::new();
    let mut e = EntityContext::new();
    b.spawn(&mut e);
    assert!(e.attached.is_empty());
    let d: Bundler<Comp> = Bundler::default();
    d.spawn(&mut e);
    assert!(e.attached.is_empty());
}

#[test]
fn bundler_applies_in_append_order() {
    let mut b: Bundler<Comp> = Bundler::new();
    b.insert(Inserter::Component(Comp::Marker(1)));
    b.insert(Inserter::Name("n".to_string()));
    b.insert(Inserter::Component(Comp::Marker(2)));
    let mut e = EntityContext::new();
    b.spawn(&mut e);
    assert_eq!(comp_of(&e.attached[0]), Some(Comp::Marker(1)));
    assert_eq!(name_of(&e.attached[1]), Some("n".to_string()));
    assert_eq!(comp_of(&e.attached[2]), Some(Comp::Marker(2)));
    let c = b.copy();
    let mut f = EntityContext::new();
    c.spawn(&mut f);
    assert_eq!(f.attached.len(), 3);
    assert_eq!(comp_of(&f.attached[2]), Some(Comp::Marker(2)));
}

#[test]
fn component_registry_lookup() {
    let mut reg = registry();
    assert!(reg.contains("Health"));
    assert!(!reg.contains("Mana"));
    assert_eq!(reg.get("Mana").err(), Some(BundleError::UnknownComponent));
    let f = reg.get("Marker").unwrap();
    assert_eq!(f(&json("4")), Some(Comp::Marker(4)));
    reg.insert("Marker", decode_health as Decoder);
    let g = reg.get("Marker").unwrap();
    assert_eq!(g(&json("4")), None);
}

#[test]
fn component_registry_decode() {
    let reg = registry();
    match reg.decode("Health", &json(r#"{"hp":3}"#)) {
        Ok(Inserter::Component(c)) => assert_eq!(c, Comp::Health { hp: 3 }),
        _ => panic!("expected a decoded component"),
    }
    assert_eq!(reg.decode("Health", &json("3")).err(), Some(BundleError::DecodeError));
    assert_eq!(reg.decode("Nope", &json("3")).err(), Some(BundleError::UnknownComponent));
}

#[test]
fn asset_plugin_collects_registrations() {
    let plugin: AssetPlugin<Decoder> = AssetPlugin::new()
        .add("Health", decode_health as Decoder)
        .add("Team", decode_team as Decoder);
    assert!(plugin.registry.contains("Health"));
    assert!(plugin.registry.contains("Team"));
    assert!(!plugin.registry.contains("Marker"));
}

#[test]
fn bundle_file_keeps_first_position() {
    let mut def: NameMap<Value> = BundleFile::new();
    def.insert("b", json("1"));
    def.insert("a", json("2"));
    def.insert("b", json("3"));
    assert_eq!(def.len(), 2);
    assert_eq!(def.name_at(0), "b");
    assert_eq!(def.value_at(0), &json("3"));
    assert_eq!(def.name_at(1), "a");
    assert_eq!(def.remove("b"), Some(json("3")));
    assert_eq!(def.remove("b"), None);
    assert_eq!(def.len(), 1);
    assert_eq!(def.name_at(0), "a");
    assert!(def.contains("a"));
    assert_eq!(def.get("a"), Some(&json("2")));
}
