use updates::builder::{generate_script, BuildError, BuildType, AUTOTOOLS_SCRIPT, MESON_SCRIPT};
use updates::package::{package_dir_name, MetaInfo, Repository};

fn meta(id: &str) -> MetaInfo {
    MetaInfo {
        id: id.to_string(),
        version: "1".to_string(),
        about: String::new(),
        depends: vec![],
        integration: String::new(),
        cache: String::new(),
    }
}

#[test]
fn repository_lookup() {
    let mut r = Repository::new();
    assert!(r.get("gcc").is_none());
    r.replace(vec![meta("components/gcc"), meta("bash")]);
    assert_eq!(r.iter().len(), 2);
    assert_eq!(r.get("gcc").unwrap().id, "components/gcc");
    assert_eq!(r.get("bash").unwrap().id, "bash");
    assert_eq!(r.get("bash.yml").unwrap().id, "bash");
    assert!(r.get("zsh").is_none());
}

#[test]
fn package_directory_names() {
    assert_eq!(package_dir_name("components/gcc"), "components-gcc");
    assert_eq!(package_dir_name("bash"), "bash");
}

fn kv(k: &str, v: &str) -> (String, String) {
    (k.to_string(), v.to_string())
}

#[test]
fn script_from_config() {
    let config = vec![kv("script", "make"), kv("build-type", "meson")];
    assert_eq!(generate_script(&config, &vec![]).unwrap(), "make");
}

#[test]
fn script_from_build_type() {
    let config = vec![kv("build-type", "meson")];
    assert_eq!(generate_script(&config, &vec![]).unwrap(), MESON_SCRIPT);
    assert_eq!(BuildType::from_str("pip"), Some(BuildType::Python));
    assert_eq!(BuildType::from_str("scons"), None);
    assert_eq!(BuildType::Python.script(), "");
}

#[test]
fn script_from_detected_files() {
    let files = vec!["Makefile".to_string(), "configure".to_string()];
    assert_eq!(BuildType::detect(&files), Some(BuildType::AutoTools));
    assert_eq!(generate_script(&vec![], &files).unwrap(), AUTOTOOLS_SCRIPT);
    assert!(AUTOTOOLS_SCRIPT.contains("$CONFIGURE --prefix=%{prefix}"));
    assert_eq!(BuildType::detect(&vec!["setup.py".to_string()]), Some(BuildType::Python));
}

#[test]
fn no_build_type() {
    assert_eq!(generate_script(&vec![], &vec!["README".to_string()]), Err(BuildError::CompilationFailed));
    assert_eq!(
        generate_script(&vec![kv("build-type", "scons")], &vec!["configure".to_string()]),
        Err(BuildError::CompilationFailed)
    );
}
