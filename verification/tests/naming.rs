use slight::naming::{rewrite_bindings, capitalize_first_letter, func_name_to_abi_name, handler_names, pascal_case};

#[test]
fn test_capitalize_first_letter() {
    let func_name = "handle_hello";
    let struct_name = func_name
        .to_string()
        .split('_')
        .into_iter()
        .map(capitalize_first_letter)
        .collect::<String>();
    assert_eq!(struct_name, "HandleHello".to_string());

    let mod_name = format!("{func_name}_mod");
    let trait_name = mod_name
        .split('_')
        .into_iter()
        .map(capitalize_first_letter)
        .collect::<String>();
    assert_eq!(trait_name, "HandleHelloMod");

    let func_name = "handle";
    let struct_name = func_name
        .to_string()
        .split('_')
        .into_iter()
        .map(capitalize_first_letter)
        .collect::<String>();
    assert_eq!(struct_name, "Handle".to_string());

    let mod_name = format!("{func_name}_mod");
    let trait_name = mod_name
        .split('_')
        .into_iter()
        .map(capitalize_first_letter)
        .collect::<String>();
    assert_eq!(trait_name, "HandleMod");

    let func_name = "HandleFunc_a";
    let struct_name = func_name
        .to_string()
        .split('_')
        .into_iter()
        .map(capitalize_first_letter)
        .collect::<String>();
    assert_eq!(struct_name, "HandleFuncA".to_string());

    let mod_name = format!("{func_name}_mod");
    let trait_name = mod_name
        .split('_')
        .into_iter()
        .map(capitalize_first_letter)
        .collect::<String>();
    assert_eq!(trait_name, "HandleFuncAMod");
}

#[test]
fn capitalize_edge_cases() {
    assert_eq!(capitalize_first_letter(""), "");
    assert_eq!(capitalize_first_letter("a"), "A");
    assert_eq!(capitalize_first_letter("Zed"), "Zed");
    assert_eq!(capitalize_first_letter("1abc"), "1abc");
    // a character whose uppercase mapping is two characters
    assert_eq!(capitalize_first_letter("ßa"), "SSa");
    assert_eq!(capitalize_first_letter("élan"), "Élan");
}

#[test]
fn pascal_case_examples() {
    assert_eq!(pascal_case("handle_hello"), "HandleHello");
    assert_eq!(pascal_case("handle__x"), "HandleX");
    assert_eq!(pascal_case(""), "");
    assert_eq!(pascal_case("_a_"), "A");
}

#[test]
fn trait_name_extends_struct_name() {
    for f in ["handle_hello", "handle", "HandleFunc_a", "", "x_"] {
        let names = handler_names(f);
        assert_eq!(names.trait_name, format!("{}Mod", names.struct_name));
    }
}

#[test]
fn abi_name_uses_dashes() {
    assert_eq!(func_name_to_abi_name("handle_hello"), "handle-hello");
    assert_eq!(func_name_to_abi_name("plain"), "plain");
    assert_eq!(func_name_to_abi_name("__"), "--");
}

#[test]
fn ascii_handler_names() {
    for (f, s, t) in [
        ("handle_hello", "HandleHello", "HandleHelloMod"),
        ("handle", "Handle", "HandleMod"),
        ("HandleFunc_a", "HandleFuncA", "HandleFuncAMod"),
    ] {
        let names = handler_names(f);
        assert_eq!(names.struct_name, s);
        assert_eq!(names.trait_name, t);
        assert_eq!(names.mod_name, format!("{f}_mod"));
        assert_eq!(names.internal_mod, format!("{f}_mod_internal"));
    }
    for (w, c) in [("handle", "Handle"), ("hello", "Hello"), ("mod", "Mod"), ("a", "A"), ("HandleFunc", "HandleFunc")] {
        assert_eq!(capitalize_first_letter(w), c);
    }
}

#[test]
fn bindings_are_rewritten_for_the_handler() {
    let generated = "pub trait HandleHttp {} fn handle_http() {} #[export_name = \"handle-http\"] impl super::MyHandlerMod for X {} super::MyHandlerMod";
    let out = rewrite_bindings(generated, "my_handler");
    assert_eq!(
        out,
        "pub trait HandleHttp {} fn my_handler() {} #[export_name = \"my-handler\"] impl super::my_handler_mod_internal::MyHandler for X {} super::my_handler_mod_internal::MyHandler"
    );
}
