use shell_core::registry::{Builtin, Builtins};

#[test]
fn new_registry_has_no_names() {
    let registry = Builtins::new();
    assert_eq!(registry.lookup("exit"), None);
    assert!(!registry.contains_key("echo"));
    assert!(!registry.contains_key(""));
}

#[test]
fn standard_registry_has_the_five_commands() {
    let registry = Builtins::standard();
    assert_eq!(registry.lookup("exit"), Some(Builtin::Exit));
    assert_eq!(registry.lookup("echo"), Some(Builtin::Echo));
    assert_eq!(registry.lookup("type"), Some(Builtin::Type));
    assert_eq!(registry.lookup("pwd"), Some(Builtin::Pwd));
    assert_eq!(registry.lookup("cd"), Some(Builtin::Cd));
}

#[test]
fn standard_registry_has_nothing_else() {
    let registry = Builtins::standard();
    for name in ["", "zzzz", "ls", "Exit", "EXIT", "exit ", " cd", "c", "cdd", "types", "ech"] {
        assert_eq!(registry.lookup(name), None, "{:?}", name);
        assert!(!registry.contains_key(name), "{:?}", name);
    }
}

#[test]
fn insert_adds_a_name() {
    let mut registry = Builtins::new();
    assert_eq!(registry.insert("say", Builtin::Echo), None);
    assert_eq!(registry.lookup("say"), Some(Builtin::Echo));
    assert!(registry.contains_key("say"));
    assert!(!registry.contains_key("echo"));
}

#[test]
fn insert_replaces_and_returns_what_was_there() {
    let mut registry = Builtins::standard();
    assert_eq!(registry.insert("pwd", Builtin::Echo), Some(Builtin::Pwd));
    assert_eq!(registry.lookup("pwd"), Some(Builtin::Echo));
    assert_eq!(registry.insert("pwd", Builtin::Pwd), Some(Builtin::Echo));
    assert_eq!(registry.lookup("pwd"), Some(Builtin::Pwd));
    assert_eq!(registry.lookup("exit"), Some(Builtin::Exit));
    assert_eq!(registry.lookup("cd"), Some(Builtin::Cd));
}
