use ns3_parallel::executor::ConfigFormat;
use ns3_parallel::paths::{check_config_file, check_ns3_dir, extension_of, parent_of, waf_path};
use ns3_parallel::Error;

fn ext(path: &str) -> Option<String> {
    extension_of(path)
}

#[test]
fn extension_follows_the_last_dot_of_the_file_name() {
    assert_eq!(ext("/work/config.toml"), Some("toml".to_string()));
    assert_eq!(ext("/work/config.tar.gz"), Some("gz".to_string()));
    assert_eq!(ext("config.ron"), Some("ron".to_string()));
    assert_eq!(ext("/a.b/c.json"), Some("json".to_string()));
    assert_eq!(ext("/work/config."), Some("".to_string()));
    assert_eq!(ext("/work/\u{e9}t\u{e9}.y\u{e4}ml"), Some("y\u{e4}ml".to_string()));
    assert_eq!(ext("/work/..toml"), Some("toml".to_string()));
}

#[test]
fn extension_is_missing() {
    assert_eq!(ext(""), None);
    assert_eq!(ext("/"), None);
    assert_eq!(ext("/work/config"), None);
    assert_eq!(ext("/work.d/config"), None);
    assert_eq!(ext("/work/.hidden"), None);
    assert_eq!(ext(".toml"), None);
    assert_eq!(ext("/work/.."), None);
    assert_eq!(ext(".."), None);
    assert_eq!(ext("/work/config.toml/"), None);
}

#[test]
fn extension_agrees_with_the_standard_library_on_resolved_paths() {
    for path in [
        "/work/config.toml",
        "/work/config.tar.gz",
        "/a.b/c",
        "/a.b/c.json",
        "/work/.hidden",
        "/work/.hidden.yaml",
        "/work/config.",
        "/work/..toml",
        "/work/...",
        "/",
        "/x",
    ] {
        let std_ext = std::path::Path::new(path)
            .extension()
            .map(|e| e.to_str().unwrap().to_string());
        assert_eq!(ext(path), std_ext, "{}", path);
    }
}

#[test]
fn parent_is_the_directory_of_the_last_component() {
    assert_eq!(parent_of("/opt/ns-3.33/waf"), "/opt/ns-3.33");
    assert_eq!(parent_of("/waf"), "/");
    assert_eq!(parent_of("waf"), "");
    assert_eq!(parent_of("a/waf"), "a");
    assert_eq!(parent_of("/\u{e9}/waf"), "/\u{e9}");
    assert_eq!(parent_of(""), "");
}

#[test]
fn entry_point_is_joined_to_the_directory() {
    assert_eq!(waf_path("/opt/ns-3.33"), "/opt/ns-3.33/waf");
    assert_eq!(waf_path("/opt/ns-3.33/"), "/opt/ns-3.33/waf");
    assert_eq!(waf_path("/"), "/waf");
    assert_eq!(waf_path(""), "waf");
    assert_eq!(waf_path("ns-allinone-3.33/ns-3.33/"), "ns-allinone-3.33/ns-3.33/waf");
}

#[test]
fn config_file_with_the_right_extension_is_accepted() {
    for (path, format) in [
        ("/w/config.ron", ConfigFormat::Ron),
        ("/w/config.json", ConfigFormat::Json),
        ("/w/config.toml", ConfigFormat::Toml),
        ("/w/config.yaml", ConfigFormat::Yaml),
        ("/w/a.json.toml", ConfigFormat::Toml),
    ] {
        let checked = check_config_file(Ok(path.to_string()), &format);
        assert_eq!(checked.unwrap(), path);
    }
}

#[test]
fn config_file_with_the_wrong_extension_is_refused() {
    for (path, format, complaint) in [
        ("/w/config.json", ConfigFormat::Ron, "Config file must be a ron file."),
        ("/w/config.toml", ConfigFormat::Json, "Config file must be a json file."),
        ("/w/config.yaml", ConfigFormat::Toml, "Config file must be a toml file."),
        ("/w/config.yml", ConfigFormat::Yaml, "Config file must be a yaml file."),
        ("/w/config.TOML", ConfigFormat::Toml, "Config file must be a toml file."),
        ("/w/config.tomll", ConfigFormat::Toml, "Config file must be a toml file."),
        ("/w/config.", ConfigFormat::Toml, "Config file must be a toml file."),
    ] {
        match check_config_file(Ok(path.to_string()), &format) {
            Err(Error::InvalidConfig(msg)) => assert_eq!(msg, complaint),
            other => panic!("unexpected result {:?}", other),
        }
    }
}

#[test]
fn config_file_without_extension_is_refused() {
    for path in ["/w/config", "/w/.toml", "/w.toml/config"] {
        match check_config_file(Ok(path.to_string()), &ConfigFormat::Toml) {
            Err(Error::InvalidConfig(msg)) => {
                assert_eq!(msg, "Config file must have a valid file extension.")
            }
            other => panic!("unexpected result {:?}", other),
        }
    }
}

#[test]
fn config_file_that_is_missing_is_not_found() {
    let why = "Os { code: 2, kind: NotFound, message: \"No such file or directory\" }";
    match check_config_file(Err(why.to_string()), &ConfigFormat::Toml) {
        Err(Error::FileNotFound(msg)) => {
            assert_eq!(msg, format!("Can not locate config file: {}.", why))
        }
        other => panic!("unexpected result {:?}", other),
    }
}

#[test]
fn entry_point_gives_the_directory_of_the_tool() {
    assert_eq!(check_ns3_dir(Ok("/opt/ns-3.33/waf".to_string())).unwrap(), "/opt/ns-3.33");
    assert_eq!(check_ns3_dir(Ok("/waf".to_string())).unwrap(), "/");
}

#[test]
fn entry_point_that_is_missing_is_not_found() {
    match check_ns3_dir(Err("gone".to_string())) {
        Err(Error::FileNotFound(msg)) => assert_eq!(msg, "Can not locate ns3 dir: gone."),
        other => panic!("unexpected result {:?}", other),
    }
}
