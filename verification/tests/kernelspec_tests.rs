use serde_json::Value;
use zed_cl::config::Platform;
use zed_cl::kernelspec::{
    binary_name, kernel_binary, kernel_json, kernels_dir, register, RegisterError,
};
use zed_cl::table::Table;

#[test]
fn kernel_json_uses_forward_slashes_and_connection_file() {
    let value = kernel_json(r"C:\tools\zed-cl-kernel.exe", Some(r"C:\work\cl"), &Table::new());
    let argv = value["argv"].as_array().unwrap();
    assert_eq!(argv[0], Value::from("C:/tools/zed-cl-kernel.exe"));
    assert_eq!(argv[1], Value::from("{connection_file}"));
    assert_eq!(value["env"]["ZED_CL_EXTENSION_DIR"], Value::from("C:/work/cl"));
    assert_eq!(value["interrupt_mode"], Value::from("message"));
}

#[test]
fn kernel_json_omits_extension_dir_when_absent() {
    let value = kernel_json("/usr/local/bin/zed-cl-kernel", None, &Table::new());
    assert!(value["env"].get("ZED_CL_EXTENSION_DIR").is_none());
    assert_eq!(value["env"]["RUST_LOG"], Value::from("info"));
}

#[test]
fn kernel_json_passes_variables_on() {
    let mut vars = Table::new();
    vars.insert("PATH".to_string(), "/bin".to_string());
    vars.insert("HOMEPATH".to_string(), "\\u".to_string());
    vars.insert("SECRET".to_string(), "x".to_string());
    let value = kernel_json("/k", None, &vars);
    assert_eq!(value["env"]["PATH"], Value::from("/bin"));
    assert_eq!(value["env"]["HOMEPATH"], Value::from("\\u"));
    assert!(value["env"].get("SECRET").is_none());
    assert_eq!(value["display_name"], Value::from("Common Lisp (Zed)"));
    assert_eq!(value["language"], Value::from("Common Lisp"));
    assert_eq!(value["metadata"]["debugger"], Value::from(false));
    assert_eq!(value.as_object().unwrap().len(), 6);
}

#[test]
fn kernels_lie_where_jupyter_looks() {
    assert_eq!(
        kernels_dir(Platform::MacOs, Some("/Users/u"), None, None).unwrap(),
        "/Users/u/Library/Jupyter/kernels/commonlisp-zed"
    );
    assert_eq!(
        kernels_dir(Platform::Windows, None, Some("C:\\A"), None).unwrap(),
        "C:\\A\\jupyter\\kernels\\commonlisp-zed"
    );
    assert_eq!(
        kernels_dir(Platform::Other, Some("/h"), None, None).unwrap(),
        "/h/.local/share/jupyter/kernels/commonlisp-zed"
    );
    assert_eq!(
        kernels_dir(Platform::Other, None, None, None).unwrap(),
        ".local/share/jupyter/kernels/commonlisp-zed"
    );
    assert_eq!(
        kernels_dir(Platform::Other, Some("/h"), None, Some("/x")).unwrap(),
        "/x/jupyter/kernels/commonlisp-zed"
    );
    assert_eq!(kernels_dir(Platform::MacOs, None, None, None), None);
    assert_eq!(kernels_dir(Platform::Windows, Some("/h"), None, None), None);
}

#[test]
fn the_kernel_beside_the_program_comes_first() {
    let home = Some("/h");
    assert_eq!(
        kernel_binary(Platform::Other, Some("/opt"), true, home, true).unwrap(),
        "/opt/zed-cl-kernel"
    );
    assert_eq!(
        kernel_binary(Platform::Other, Some("/opt"), false, home, true).unwrap(),
        "/h/.zed-cl/bin/zed-cl-kernel"
    );
    assert_eq!(kernel_binary(Platform::Other, Some("/opt"), false, home, false), None);
    assert_eq!(binary_name(Platform::Windows, "x"), "x.exe");
    assert_eq!(binary_name(Platform::MacOs, "x"), "x");
}

#[test]
fn a_second_registration_changes_nothing() {
    let dir = Some("/d".to_string());
    let kernel = Some("/k".to_string());
    let vars = Table::new();
    let first = register(Platform::Other, dir.clone(), kernel.clone(), None, &vars).unwrap();
    assert_eq!(first.path, "/d/kernel.json");
    assert!(first.needs_write(None));
    assert!(first.needs_write(Some("{}")));
    let second = register(Platform::Other, dir.clone(), kernel.clone(), None, &vars).unwrap();
    assert!(!second.needs_write(Some(&first.body)));
    let other = register(Platform::Other, dir, kernel, Some("/e"), &vars).unwrap();
    assert!(other.needs_write(Some(&first.body)));
}

#[test]
fn the_description_is_printed_with_sorted_keys() {
    let file = register(
        Platform::Other,
        Some("/d".to_string()),
        Some("/k".to_string()),
        None,
        &Table::new(),
    )
    .unwrap();
    let expected = "{\n  \"argv\": [\n    \"/k\",\n    \"{connection_file}\"\n  ],\n  \"display_name\": \"Common Lisp (Zed)\",\n  \"env\": {\n    \"RUST_LOG\": \"info\"\n  },\n  \"interrupt_mode\": \"message\",\n  \"language\": \"Common Lisp\",\n  \"metadata\": {\n    \"debugger\": false\n  }\n}";
    assert_eq!(file.body, expected);
}

#[test]
fn registrations_fail_with_a_message() {
    let vars = Table::new();
    let no_dir = register(Platform::Other, None, Some("/k".to_string()), None, &vars).unwrap_err();
    assert_eq!(no_dir, RegisterError::NoDataDirectory);
    assert_eq!(no_dir.message(), "no Jupyter data directory");
    let no_kernel = register(Platform::Other, Some("/d".to_string()), None, None, &vars).unwrap_err();
    assert_eq!(no_kernel, RegisterError::NoKernel);
    assert_eq!(no_kernel.message(), "zed-cl-kernel not found next to zed-cl-lsp");
}
