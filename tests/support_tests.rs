use gaiascript::ast::{ActivationFunction, SymbolTable};
use gaiascript::llvm_compiler::LLVMCompiler;
use gaiascript::network_model::{LayerConfig, NetworkModel};
use gaiascript::parser::parse;
use gaiascript::platform_detector::{
    determine_best_target, get_target_platform_from_args, is_desktop, is_mobile, is_web,
    platform_file_extension, platform_language, platform_name, Platform,
};
use gaiascript::react_compiler::ReactCompiler;
use gaiascript::universal_compiler::{parse_web_framework, UniversalCompiler, WebFramework};

#[test]
fn platform_tables() {
    assert_eq!(platform_name(Platform::MacOS), "macos");
    assert_eq!(platform_name(Platform::Unknown), "unknown");
    assert_eq!(platform_language(Platform::Windows), "csharp");
    assert_eq!(platform_language(Platform::Unknown), "javascript");
    assert_eq!(platform_file_extension(Platform::Android), "kt");
    assert_eq!(platform_file_extension(Platform::Linux), "c");
    assert!(is_mobile(Platform::IOS) && is_mobile(Platform::Android) && !is_mobile(Platform::Web));
    assert!(is_desktop(Platform::Linux) && !is_desktop(Platform::IOS));
    assert!(is_web(Platform::Web) && !is_web(Platform::Unknown));
}

#[test]
fn platform_from_arguments() {
    let args = vec!["gaia".to_string(), "--verbose".to_string(), "--target=android".to_string(), "--web".to_string()];
    assert_eq!(get_target_platform_from_args(&args, Platform::Linux), Platform::Android);
    let args = vec!["gaia".to_string(), "--ios".to_string()];
    assert_eq!(get_target_platform_from_args(&args, Platform::Linux), Platform::IOS);
    let args = vec!["gaia".to_string(), "--target=plan9".to_string()];
    assert_eq!(get_target_platform_from_args(&args, Platform::Linux), Platform::Linux);
}

#[test]
fn best_target() {
    assert_eq!(determine_best_target(Platform::Android, Platform::Linux), Platform::Android);
    assert_eq!(determine_best_target(Platform::Unknown, Platform::Linux), Platform::Linux);
    assert_eq!(determine_best_target(Platform::Unknown, Platform::Unknown), Platform::Web);
}

#[test]
fn universal_settings() {
    let mut c = UniversalCompiler::new(Platform::Linux);
    assert_eq!(c.get_target_platform(), Platform::Linux);
    assert_eq!(c.output_directory(), ".");
    assert_eq!(c.web_framework(), WebFramework::PureJs);
    c.set_platform(Platform::Web);
    c.set_output_directory("out/site");
    c.set_web_framework(WebFramework::Vue);
    assert_eq!(c.get_target_platform(), Platform::Web);
    assert_eq!(c.output_directory(), "out/site");
    assert_eq!(c.web_framework(), WebFramework::Vue);
}

#[test]
fn web_framework_names() {
    assert_eq!(parse_web_framework("React"), WebFramework::React);
    assert_eq!(parse_web_framework("ANGULAR"), WebFramework::Angular);
    assert_eq!(parse_web_framework("vue"), WebFramework::Vue);
    assert_eq!(parse_web_framework("Svelte"), WebFramework::Svelte);
    assert_eq!(parse_web_framework("jquery"), WebFramework::PureJs);
    assert_eq!(parse_web_framework(""), WebFramework::PureJs);
}

#[test]
fn network_model_structure() {
    let mut m = NetworkModel::new();
    assert_eq!(m.get_structure(), "");
    m.add_layer("conv".to_string(), LayerConfig::Conv { filters: 32, kernel_size: 3, activation: ActivationFunction::ReLU });
    m.add_layer("pool".to_string(), LayerConfig::Pooling { size: 2 });
    m.add_layer("out".to_string(), LayerConfig::Dense { units: 10, activation: ActivationFunction::Softmax });
    assert_eq!(m.get_structure(), "conv → pool → out");
}

#[test]
fn react_shell() {
    let mut r = ReactCompiler::new();
    assert_eq!(r.imports.len(), 2);
    let ast = parse("N").unwrap();
    let text = r.compile(&ast).unwrap();
    assert!(text.starts_with("import React, { useState, useEffect } from 'react';\nimport './App.css';\n"));
    assert!(text.ends_with("export default App;\n"));
    assert!(r.generate_project("app", "out").is_ok());
}

#[test]
fn llvm_backend_is_unavailable() {
    let mut c = LLVMCompiler::new("m");
    let ast = parse("N").unwrap();
    let mut table = SymbolTable::new();
    let e = c.compile(&ast, &mut table).unwrap_err();
    assert_eq!(e, "LLVM compiler temporarily disabled. Re-enable inkwell dependency in Cargo.toml and uncomment implementation.");
    assert!(c.create_main_function().is_err());
    assert!(c.write_to_file("x.ll").is_err());
    assert_eq!(c.print_ir(), e);
}
