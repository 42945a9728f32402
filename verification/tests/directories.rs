use filespider::directories::{
    get_cache_directory, get_cache_file, get_config_file, get_document_basename,
    get_document_directory, get_document_file, get_filespider_directory, Environment,
    HomeMissing, Platform,
};

fn id() -> u128 {
    uuid::Uuid::parse_str("a346b1e3-2c11-4c72-87b1-122bfcc43560").unwrap().as_u128()
}

fn env(data: Option<&str>, superuser: bool, xdg: Option<&str>, home: Option<&str>) -> Environment {
    Environment {
        data_path: data.map(|s| s.to_string()),
        superuser,
        xdg_data_home: xdg.map(|s| s.to_string()),
        home: home.map(|s| s.to_string()),
    }
}

#[test]
fn override_wins() {
    let e = env(Some("/srv/spider"), false, Some("/x"), Some("/home/u"));
    assert_eq!(get_filespider_directory(Platform::Linux, &e), Ok("/srv/spider".to_string()));
    assert_eq!(get_filespider_directory(Platform::Windows, &e), Ok("/srv/spider".to_string()));
}

#[test]
fn superuser_uses_the_state_directory() {
    let e = env(None, true, None, None);
    assert_eq!(
        get_filespider_directory(Platform::Linux, &e),
        Ok("/var/lib/filespider".to_string())
    );
}

#[test]
fn user_uses_the_data_home() {
    let e = env(None, false, Some("/home/u/.data"), Some("/home/u"));
    assert_eq!(
        get_filespider_directory(Platform::Linux, &e),
        Ok("/home/u/.data/filespider".to_string())
    );
}

#[test]
fn user_falls_back_to_the_home_directory() {
    let e = env(None, false, None, Some("/home/u"));
    assert_eq!(
        get_filespider_directory(Platform::Linux, &e),
        Ok("/home/u/.local/share/filespider".to_string())
    );
}

#[test]
fn user_without_home_fails() {
    assert_eq!(
        get_filespider_directory(Platform::Linux, &env(None, false, None, None)),
        Err(HomeMissing)
    );
    assert_eq!(
        get_filespider_directory(Platform::Linux, &env(None, false, Some("/x"), None)),
        Err(HomeMissing)
    );
    assert_eq!(
        get_filespider_directory(Platform::Linux, &env(Some("/srv"), false, None, None)),
        Err(HomeMissing)
    );
}

#[test]
fn windows_has_a_fixed_place() {
    assert_eq!(
        get_filespider_directory(Platform::Windows, &env(None, false, None, None)),
        Ok("%APPDATA%/filespider".to_string())
    );
}

#[test]
fn cache_directory_and_config_file() {
    assert_eq!(get_cache_directory("/data"), "/data/.cache");
    assert_eq!(get_config_file("/data"), "/data/config.json5");
}

#[test]
fn document_paths_carry_the_hyphenated_identity() {
    assert_eq!(
        get_document_directory("/data", id()),
        "/data/a346b1e3-2c11-4c72-87b1-122bfcc43560"
    );
    assert_eq!(
        get_cache_file("/data", id()),
        "/data/.cache/a346b1e3-2c11-4c72-87b1-122bfcc43560"
    );
    assert_eq!(get_cache_file("/data", 0), "/data/.cache/00000000-0000-0000-0000-000000000000");
    assert_eq!(
        get_cache_file("", u128::MAX),
        "/.cache/ffffffff-ffff-ffff-ffff-ffffffffffff"
    );
}

#[test]
fn basename_with_and_without_extension() {
    assert_eq!(
        get_document_basename(id(), &Some("md".to_string())),
        "a346b1e3-2c11-4c72-87b1-122bfcc43560.md"
    );
    assert_eq!(get_document_basename(id(), &None), "a346b1e3-2c11-4c72-87b1-122bfcc43560");
}

#[test]
fn document_file_lies_in_the_document_folder() {
    assert_eq!(
        get_document_file("/data", id(), &Some("tex".to_string())),
        "/data/a346b1e3-2c11-4c72-87b1-122bfcc43560/a346b1e3-2c11-4c72-87b1-122bfcc43560.tex"
    );
    assert_eq!(
        get_document_file("/data", id(), &None),
        "/data/a346b1e3-2c11-4c72-87b1-122bfcc43560/a346b1e3-2c11-4c72-87b1-122bfcc43560"
    );
}
