use techclass::error::{IpcError, IpcErrorKind};
use techclass::path::AbsPath;
use techclass::plugin::PluginType;
use techclass::root::{category_path, get_config_path, get_path, request_root};

fn data_dir() -> AbsPath {
    AbsPath::parse("/data").unwrap()
}

#[test]
fn parses_both_categories() {
    assert_eq!(PluginType::from_str("official"), Ok(PluginType::Official));
    assert_eq!(PluginType::from_str("custom"), Ok(PluginType::Custom));
}

#[test]
fn misspelt_category_is_invalid() {
    assert_eq!(
        PluginType::from_str("offical"),
        Err(IpcError::InvalidPluginType("offical".to_string()))
    );
    assert_eq!(
        PluginType::from_str("Official"),
        Err(IpcError::InvalidPluginType("Official".to_string()))
    );
    assert_eq!(PluginType::from_str(""), Err(IpcError::InvalidPluginType(String::new())));
}

#[test]
fn misspelt_category_fails_before_the_id_is_read() {
    let r = request_root(&data_dir(), "../evil", "offical");
    assert_eq!(r.unwrap_err(), IpcError::InvalidPluginType("offical".to_string()));
    let r = request_root(&data_dir(), "pluginA", "offical");
    assert_eq!(r.unwrap_err(), IpcError::InvalidPluginType("offical".to_string()));
}

#[test]
fn request_root_of_each_category() {
    let r = request_root(&data_dir(), "pluginA", "official").unwrap();
    assert_eq!(r.to_text(), "/data/config/pluginA");
    let r = request_root(&data_dir(), "pluginB", "custom").unwrap();
    assert_eq!(r.to_text(), "/data/plugins/pluginB");
}

#[test]
fn category_directories() {
    assert_eq!(category_path(&data_dir(), PluginType::Official).to_text(), "/data/config");
    assert_eq!(category_path(&data_dir(), PluginType::Custom).to_text(), "/data/plugins");
}

#[test]
fn plugin_root_is_below_its_category() {
    let r = get_path(&data_dir(), "pluginA", PluginType::Official).unwrap();
    assert_eq!(r.to_text(), "/data/config/pluginA");
    assert_eq!(r.depth(), 3);
}

#[test]
fn id_that_is_not_one_name_is_refused() {
    for id in ["", ".", "..", "a/b", "../x", "a\\b"] {
        let r = get_path(&data_dir(), id, PluginType::Custom);
        assert_eq!(r.unwrap_err(), IpcError::PathPermissionDenied(id.to_string()));
    }
}

#[test]
fn id_with_dots_inside_is_one_name() {
    let r = get_path(&data_dir(), "a..b", PluginType::Custom).unwrap();
    assert_eq!(r.to_text(), "/data/plugins/a..b");
}

#[test]
fn config_file_is_named_after_the_id() {
    let r = get_config_path(&data_dir(), "pluginA", PluginType::Official).unwrap();
    assert_eq!(r.to_text(), "/data/config/pluginA/pluginA.config.json");
    let e = get_config_path(&data_dir(), "..", PluginType::Official).unwrap_err();
    assert_eq!(e, IpcError::PathPermissionDenied("..".to_string()));
}

#[test]
fn error_kinds_and_messages() {
    assert_eq!(IpcError::Io("disk full".to_string()).to_kind(), IpcErrorKind::Io("disk full".to_string()));
    assert_eq!(IpcError::Json("bad".to_string()).to_kind(), IpcErrorKind::Json("bad".to_string()));
    assert_eq!(
        IpcError::InvalidPluginType("x".to_string()).to_kind(),
        IpcErrorKind::InvalidPluginType("无效的插件类型: x".to_string())
    );
    assert_eq!(
        IpcError::PathPermissionDenied("../a".to_string()).to_kind(),
        IpcErrorKind::PathPermissionDenied("不允许的路径: ../a".to_string())
    );
    assert_eq!(IpcError::NotFile.to_kind(), IpcErrorKind::NotFile("目标不是文件".to_string()));
    assert_eq!(IpcError::NotDir.to_kind(), IpcErrorKind::NotDir("目标不是目录".to_string()));
    assert_eq!(IpcError::IsDir.to_kind(), IpcErrorKind::IsDir("目标是目录".to_string()));
    assert_eq!(IpcError::NotFile.message(), "目标不是文件");
    assert_eq!(
        IpcError::InvalidPluginType("offical".to_string()).to_kind(),
        IpcErrorKind::InvalidPluginType("无效的插件类型: offical".to_string())
    );
}
