use rift_ergo::error::ErrorKind;
use rift_ergo::geometry::{Coordinate, Extent, Rect};
use rift_ergo::model::DisplayData;
use rift_ergo::names::NameMap;
use rift_ergo::policy::{
    resolve_display_aliases, resolve_target_display, select_profile, DisplayAlias, Policy, Profile,
};

fn extent(start: f64, size: f64) -> Extent {
    Extent {
        start: Coordinate::from_bits(start.to_bits()),
        center: Coordinate::from_bits((start + size / 2.0).to_bits()),
        end: Coordinate::from_bits((start + size).to_bits()),
    }
}

fn display(uuid: &str, name: &str) -> DisplayData {
    DisplayData {
        uuid: uuid.into(),
        name: Some(name.into()),
        frame: Rect { horizontal: extent(0.0, 100.0), vertical: extent(0.0, 100.0) },
        space: Some(1),
        is_active_context: true,
        active_space_ids: vec![1],
        inactive_space_ids: vec![],
    }
}

fn alias(uuid: Option<&str>, name: Option<&str>) -> DisplayAlias {
    DisplayAlias { uuid: uuid.map(String::from), name: name.map(String::from) }
}

fn aliases(entries: Vec<(&str, DisplayAlias)>) -> NameMap<DisplayAlias> {
    let mut map = NameMap::new();
    for (name, alias) in entries {
        map.insert(name.into(), alias);
    }
    map
}

fn profile(name: &str, required: &[&str], fallback: Option<&str>) -> Profile {
    Profile {
        name: name.into(),
        required_display_aliases: required.iter().map(|alias| alias.to_string()).collect(),
        fallback_display: fallback.map(String::from),
        workspace_displays: NameMap::new(),
    }
}

#[test]
fn selects_first_profile_with_available_aliases() {
    let policy = Policy {
        display_aliases: aliases(vec![
            ("builtin", alias(Some("built"), None)),
            ("external", alias(Some("ext"), None)),
        ]),
        profiles: vec![
            profile("home", &["builtin", "external"], Some("builtin")),
            profile("single", &[], Some("only")),
        ],
    };
    let displays = vec![display("built", "Built-in"), display("ext", "External")];
    let aliases = resolve_display_aliases(&policy, &displays);

    assert_eq!(select_profile(&policy, &aliases).unwrap().name, "home");
}

#[test]
fn a_missing_display_leads_to_the_next_profile() {
    let policy = Policy {
        display_aliases: aliases(vec![
            ("builtin", alias(Some("built"), None)),
            ("external", alias(Some("ext"), None)),
        ]),
        profiles: vec![
            profile("home", &["builtin", "external"], Some("builtin")),
            profile("single", &[], Some("only")),
        ],
    };
    let displays = vec![display("built", "Built-in")];
    let resolved = resolve_display_aliases(&policy, &displays);
    assert_eq!(resolved.len(), 1);
    assert_eq!(resolved.get("builtin"), Some(&"built".to_string()));
    assert_eq!(resolved.get("external"), None);

    let chosen = select_profile(&policy, &resolved).unwrap();
    assert_eq!(chosen.name, "single");
    assert_eq!(resolve_target_display(chosen, "W", &resolved, &displays).unwrap(), "built");
}

#[test]
fn no_profile_is_a_failure() {
    let policy = Policy {
        display_aliases: aliases(vec![("external", alias(Some("ext"), None))]),
        profiles: vec![profile("desk", &["external"], None)],
    };
    let displays = vec![display("built", "Built-in")];
    let resolved = resolve_display_aliases(&policy, &displays);
    let error = select_profile(&policy, &resolved).unwrap_err();
    assert_eq!(error.kind, ErrorKind::Other);
    assert_eq!(error.message, "no monitor profile matches the connected displays");
}

#[test]
fn an_alias_recognises_a_display_by_name() {
    let policy = Policy {
        display_aliases: aliases(vec![
            ("desk", alias(None, Some("External"))),
            ("first", alias(Some("gone"), Some("Built-in"))),
        ]),
        profiles: vec![],
    };
    let displays =
        vec![display("built", "Built-in"), display("ext", "External"), display("b2", "Built-in")];
    let resolved = resolve_display_aliases(&policy, &displays);
    assert_eq!(resolved.get("desk"), Some(&"ext".to_string()));
    assert_eq!(resolved.get("first"), Some(&"built".to_string()));
}

#[test]
fn an_alias_without_a_name_takes_a_display_without_one() {
    let policy = Policy {
        display_aliases: aliases(vec![("odd", alias(Some("gone"), None))]),
        profiles: vec![],
    };
    let mut nameless = display("n", "");
    nameless.name = None;
    let displays = vec![display("built", "Built-in"), nameless];
    let resolved = resolve_display_aliases(&policy, &displays);
    assert_eq!(resolved.get("odd"), Some(&"n".to_string()));
}

#[test]
fn an_assignment_comes_before_the_fallback() {
    let policy = Policy {
        display_aliases: aliases(vec![
            ("builtin", alias(Some("built"), None)),
            ("external", alias(Some("ext"), None)),
        ]),
        profiles: vec![],
    };
    let displays = vec![display("built", "Built-in"), display("ext", "External")];
    let resolved = resolve_display_aliases(&policy, &displays);
    let mut chosen = profile("home", &[], Some("builtin"));
    chosen.workspace_displays.insert("W".into(), "external".into());
    chosen.workspace_displays.insert("X".into(), "television".into());

    assert_eq!(resolve_target_display(&chosen, "W", &resolved, &displays).unwrap(), "ext");
    assert_eq!(resolve_target_display(&chosen, "A", &resolved, &displays).unwrap(), "built");
    let error = resolve_target_display(&chosen, "X", &resolved, &displays).unwrap_err();
    assert_eq!(error.kind, ErrorKind::Other);
    assert_eq!(
        error.message,
        "profile home refers to unavailable display alias television"
    );
}

#[test]
fn a_profile_may_leave_a_workspace_without_a_display() {
    let resolved = NameMap::new();
    let displays = vec![display("built", "Built-in")];
    let error = resolve_target_display(&profile("bare", &[], None), "W", &resolved, &displays)
        .unwrap_err();
    assert_eq!(error.message, "profile bare has no display for workspace W");
}

#[test]
fn only_needs_exactly_one_display() {
    let resolved = NameMap::new();
    let displays = vec![display("built", "Built-in"), display("ext", "External")];
    let error =
        resolve_target_display(&profile("one", &[], Some("only")), "W", &resolved, &displays)
            .unwrap_err();
    assert_eq!(
        error.message,
        "profile requires exactly one display, but multiple are connected"
    );
}

#[test]
fn a_name_map_keeps_one_value_for_a_name() {
    let mut map = NameMap::new();
    map.insert("a".to_string(), 1);
    map.insert("b".to_string(), 2);
    map.insert("a".to_string(), 3);
    assert_eq!(map.len(), 2);
    assert_eq!(map.get("a"), Some(&3));
    assert_eq!(map.get("b"), Some(&2));
    assert!(map.contains("b"));
    assert!(!map.contains("c"));
}

#[test]
fn more_displays_do_not_choose_a_later_profile() {
    let policy = Policy {
        display_aliases: aliases(vec![
            ("builtin", alias(Some("built"), None)),
            ("external", alias(Some("ext"), None)),
            ("wall", alias(Some("wall"), None)),
        ]),
        profiles: vec![
            profile("studio", &["external", "wall"], None),
            profile("desk", &["external"], None),
            profile("single", &[], Some("only")),
        ],
    };
    let names = ["single", "desk", "studio"];
    let mut displays = vec![display("built", "Built-in")];
    for (at, next) in [None, Some("ext"), Some("wall")].into_iter().enumerate() {
        if let Some(uuid) = next {
            displays.push(display(uuid, uuid));
        }
        let resolved = resolve_display_aliases(&policy, &displays);
        assert_eq!(select_profile(&policy, &resolved).unwrap().name, names[at]);
    }
}
