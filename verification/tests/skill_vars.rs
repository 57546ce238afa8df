use agentctl::skill::vars::{expand, resolve, VarError, VarMap};

fn base_vars() -> VarMap {
    let mut m = VarMap::new();
    m.insert("SKILL_PATH".into(), "/skills/my-skill".into());
    m.insert("HOME".into(), "/home/user".into());
    m
}

#[test]
fn expand_builtin() {
    let vars = base_vars();
    assert_eq!(
        expand("${SKILL_PATH}/.venv", &vars).unwrap(),
        "/skills/my-skill/.venv"
    );
}

#[test]
fn expand_multiple() {
    let vars = base_vars();
    assert_eq!(
        expand("${HOME}/${SKILL_PATH}", &vars).unwrap(),
        "/home/user//skills/my-skill"
    );
}

#[test]
fn expand_undefined_errors() {
    let vars = base_vars();
    assert!(expand("${UNDEFINED}", &vars).is_err());
}

#[test]
fn expand_undefined_names_the_variable() {
    let vars = base_vars();
    match expand("a ${HOME} ${NOPE} ${ALSO_NOPE}", &vars) {
        Err(VarError::Undefined(n)) => assert_eq!(n, "NOPE"),
        Ok(s) => panic!("expanded to {s}"),
    }
}

#[test]
fn expand_without_placeholders_is_identity() {
    let vars = VarMap::new();
    assert_eq!(expand("echo $HOME {x} $ {", &vars).unwrap(), "echo $HOME {x} $ {");
}

#[test]
fn expand_unclosed_placeholder_is_kept() {
    let vars = base_vars();
    assert_eq!(expand("${HOME}/${SKILL_PATH", &vars).unwrap(), "/home/user/${SKILL_PATH");
}

#[test]
fn expand_value_is_not_expanded_again() {
    let mut vars = VarMap::new();
    vars.insert("A".into(), "${B}".into());
    assert_eq!(expand("${A}", &vars).unwrap(), "${B}");
}

#[test]
fn resolve_builtins_present() {
    let vars = resolve("my-skill", "/skills/my-skill", "/home/u", "linux", &vec![]).unwrap();
    assert_eq!(vars.get("SKILL_NAME").unwrap(), "my-skill");
    assert_eq!(vars.get("SKILL_PATH").unwrap(), "/skills/my-skill");
    assert!(vars.contains_key("HOME"));
    assert!(vars.contains_key("PLATFORM"));
    assert_eq!(vars.get("PLATFORM").unwrap(), "linux");
}

#[test]
fn resolve_custom_expands_against_builtins() {
    let custom = vec![("VENV".to_string(), "${SKILL_PATH}/.venv".to_string())];
    let vars = resolve("s", "/p", "/home/u", "linux", &custom).unwrap();
    assert_eq!(vars.get("VENV").unwrap(), "/p/.venv");
}

#[test]
fn resolve_custom_undefined_ref_errors() {
    let custom = vec![("X".to_string(), "${UNDEFINED}".to_string())];
    assert!(resolve("s", "/p", "/home/u", "linux", &custom).is_err());
}

#[test]
fn resolve_custom_in_declaration_order() {
    let custom = vec![
        ("VENV".to_string(), "${SKILL_PATH}/.venv".to_string()),
        ("BIN".to_string(), "${VENV}/bin".to_string()),
    ];
    let vars = resolve("s", "/p", "/home/u", "linux", &custom).unwrap();
    assert_eq!(vars.get("BIN").unwrap(), "/p/.venv/bin");

    let reversed = vec![custom[1].clone(), custom[0].clone()];
    match resolve("s", "/p", "/home/u", "linux", &reversed) {
        Err(VarError::Undefined(n)) => assert_eq!(n, "VENV"),
        Ok(_) => panic!("a variable used before its declaration must be undefined"),
    }
}

#[test]
fn resolve_custom_may_override_builtin() {
    let custom = vec![("HOME".to_string(), "/elsewhere".to_string())];
    let vars = resolve("s", "/p", "/home/u", "linux", &custom).unwrap();
    assert_eq!(vars.get("HOME").unwrap(), "/elsewhere");
}
