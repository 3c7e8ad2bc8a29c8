use llamacpp_manager::params::{
    to_args, check_value, ParamDef, ParamKind, ParamState, ParamValue, ParamsCatalog, ValueCheck,
};

fn def(id: &str, flag: &str, category: &str, kind: ParamKind, default: Option<ParamValue>, on: bool) -> ParamDef {
    ParamDef {
        id: id.to_string(),
        flag: flag.to_string(),
        name: id.to_uppercase(),
        category: category.to_string(),
        kind,
        default,
        options: if kind == ParamKind::Enum {
            vec!["f16".to_string(), "q8_0".to_string(), "q4_0".to_string()]
        } else {
            Vec::new()
        },
        enabled_default: on,
    }
}

fn catalog() -> ParamsCatalog {
    ParamsCatalog {
        version: 1,
        updated_at: String::new(),
        source: String::new(),
        params: vec![
            def("ctx-size", "--ctx-size", "context", ParamKind::Int, Some(ParamValue::Json("4096".into())), true),
            def("n-gpu-layers", "--n-gpu-layers", "gpu", ParamKind::Int, Some(ParamValue::Json("99".into())), true),
            def("cache-type-k", "--cache-type-k", "kv", ParamKind::Enum, Some(ParamValue::Text("f16".into())), false),
            def("temp", "--temp", "sampling", ParamKind::Float, Some(ParamValue::Json("0.8".into())), false),
            def("alias", "--alias", "server", ParamKind::String, None, false),
            def("jinja", "--jinja", "server", ParamKind::Bool, None, true),
            def("mmproj", "--mmproj", "vision", ParamKind::Path, None, false),
            def("lora", "--lora", "vision", ParamKind::Path, None, false),
        ],
    }
}

#[test]
fn to_args_respects_enabled_and_order() {
    let catalog = catalog();
    let mut state = ParamState::from_catalog(&catalog);
    // Everything disabled → no args at all.
    for def in &catalog.params {
        state.set(&def.id, false);
    }
    assert!(to_args(&catalog, &state).is_empty());

    // Enable ctx-size with a value → ["--ctx-size", "65536"].
    state.set("ctx-size", true);
    state.set_value("ctx-size", ParamValue::Json("65536".to_string()));
    // Bool param: only the flag.
    state.set("jinja", true);
    let args = to_args(&catalog, &state);
    assert!(args.contains(&"--jinja".to_string()));
    let pos = args.iter().position(|a| a == "--ctx-size").unwrap();
    assert_eq!(args[pos + 1], "65536");
    // Catalog order: ctx-size comes before jinja.
    assert!(pos < args.iter().position(|a| a == "--jinja").unwrap());
}

#[test]
fn defaults_give_enabled_args_in_catalog_order() {
    let catalog = catalog();
    let state = ParamState::from_catalog(&catalog);
    assert_eq!(
        to_args(&catalog, &state),
        vec!["--ctx-size", "4096", "--n-gpu-layers", "99", "--jinja"]
    );
    assert!(state.is_enabled("ctx-size"));
    assert!(!state.is_enabled("temp"));
    assert!(!state.is_enabled("unknown"));
}

#[test]
fn enabled_string_without_value_is_left_out() {
    let catalog = catalog();
    let mut state = ParamState::new();
    state.set("alias", true);
    assert_eq!(to_args(&catalog, &state), Vec::<String>::new());
    state.set_value("alias", ParamValue::Text("my model".to_string()));
    assert_eq!(to_args(&catalog, &state), vec!["--alias", "my model"]);
    // Turning it off keeps the value for later.
    state.set("alias", false);
    assert!(to_args(&catalog, &state).is_empty());
    assert_eq!(state.get("alias").unwrap().value, Some(ParamValue::Text("my model".to_string())));
}

#[test]
fn merge_defaults_keeps_user_choices() {
    let catalog = catalog();
    let mut state = ParamState::new();
    state.set("ctx-size", false);
    state.set_value("temp", ParamValue::Json("1.5".to_string()));
    state.merge_defaults(&catalog);
    assert!(!state.is_enabled("ctx-size"));
    assert_eq!(state.get("ctx-size").unwrap().value, None);
    assert_eq!(state.get("temp").unwrap().value, Some(ParamValue::Json("1.5".to_string())));
    assert!(state.is_enabled("n-gpu-layers"));
    assert!(state.is_enabled("jinja"));
    for def in &catalog.params {
        assert!(state.get(&def.id).is_some());
    }
}

#[test]
fn categories_known_first_then_others_once() {
    let cats = catalog().categories();
    let ids: Vec<&str> = cats.iter().map(|(id, _)| id.as_str()).collect();
    assert_eq!(ids, vec!["context", "gpu", "kv", "spec", "sampling", "server", "vision"]);
    assert_eq!(cats[0].1, "Модель и контекст");
    assert_eq!(cats[6].1, "(другое)");
}

#[test]
fn checks_of_values() {
    let catalog = catalog();
    let mut state = ParamState::from_catalog(&catalog);
    for def in &catalog.params {
        state.set(&def.id, false);
    }
    state.set("ctx-size", true);
    state.set_value("ctx-size", ParamValue::Json("-5".to_string()));
    state.set("cache-type-k", true);
    state.set_value("cache-type-k", ParamValue::Text("bogus".to_string()));
    state.set("alias", true);
    let checks: Vec<ValueCheck> = catalog.params.iter().map(|d| check_value(d, &state)).collect();
    assert_eq!(checks[0], ValueCheck::CheckNumber(ParamValue::Json("-5".to_string())));
    assert_eq!(checks[1], ValueCheck::Fine);
    assert_eq!(
        checks[2],
        ValueCheck::Problem("«CACHE-TYPE-K»: «bogus» не из списка f16, q8_0, q4_0".to_string())
    );
    assert_eq!(checks[4], ValueCheck::Problem("«ALIAS»: не задано значение".to_string()));
    state.set_value("cache-type-k", ParamValue::Text("q8_0".to_string()));
    assert_eq!(check_value(&catalog.params[2], &state), ValueCheck::Fine);
}
