use zeron_harness::paths::{
    resolve_data_dir, variable_name, Environment, Platform, Setting, Variable,
};

fn setting(vars: &[(&str, &str)], name: &str) -> Setting {
    match vars.iter().find(|(key, _)| *key == name) {
        None => Setting::Unset,
        Some((_, value)) if value.is_empty() => Setting::Empty,
        Some(_) => Setting::Filled,
    }
}

fn resolve(platform: Platform, vars: &[(&str, &str)]) -> Result<String, &'static str> {
    let environment = Environment {
        zeron_data_dir: setting(vars, variable_name(Variable::ZeronDataDir)),
        local_app_data: setting(vars, variable_name(Variable::LocalAppData)),
        user_profile: setting(vars, variable_name(Variable::UserProfile)),
        home: setting(vars, variable_name(Variable::Home)),
    };
    let separator = if platform == Platform::Windows { "\\" } else { "/" };
    let dir = resolve_data_dir(platform, environment)?;
    let base = variable_name(dir.base);
    let mut path = vars.iter().find(|(key, _)| *key == base).unwrap().1.to_owned();
    for name in dir.within {
        if !path.is_empty() {
            path.push_str(separator);
        }
        path.push_str(name);
    }
    Ok(path)
}

#[test]
fn explicit_data_dir_needs_no_home() {
    for platform in [Platform::Unix, Platform::Windows] {
        assert_eq!(
            resolve(platform, &[("ZERON_DATA_DIR", "custom data")]),
            Ok("custom data".to_owned())
        );
    }
}

#[test]
fn unix_default_keeps_existing_zeron_data_separate() {
    let data = resolve(Platform::Unix, &[("HOME", "/home/user")]).unwrap();
    assert_eq!(data, "/home/user/.jjzeron");
    assert_ne!(data, "/home/user/.zeron");
    assert_ne!(data, "/home/user/.comet-native");
}

#[test]
fn explorer_launch_without_home_uses_local_app_data() {
    assert_eq!(
        resolve(Platform::Windows, &[("LOCALAPPDATA", r"C:\Users\Test User\AppData\Local")]),
        Ok(r"C:\Users\Test User\AppData\Local\JJzeron".to_owned()),
    );
}

#[test]
fn windows_profile_fallback_handles_unicode_and_apostrophes() {
    assert_eq!(
        resolve(Platform::Windows, &[("USERPROFILE", r"C:\Users\O'Brien 日本語")]),
        Ok(r"C:\Users\O'Brien 日本語\AppData\Local\JJzeron".to_owned()),
    );
}

#[test]
fn windows_default_does_not_depend_on_shell_home() {
    assert_eq!(
        resolve(Platform::Windows, &[("HOME", r"D:\msys-home"), ("LOCALAPPDATA", r"C:\Local")]),
        Ok(r"C:\Local\JJzeron".to_owned()),
    );
}

#[test]
fn an_empty_windows_variable_does_not_count() {
    assert_eq!(
        resolve(Platform::Windows, &[("LOCALAPPDATA", ""), ("USERPROFILE", r"C:\U")]),
        Ok(r"C:\U\AppData\Local\JJzeron".to_owned()),
    );
    assert_eq!(
        resolve(Platform::Windows, &[("LOCALAPPDATA", ""), ("USERPROFILE", ""), ("HOME", "h")]),
        Err("LOCALAPPDATA and USERPROFILE not set; set ZERON_DATA_DIR"),
    );
}

#[test]
fn unix_needs_a_home() {
    assert_eq!(resolve(Platform::Unix, &[("USERPROFILE", "p")]), Err("HOME not set"));
    assert_eq!(resolve(Platform::Unix, &[("HOME", "")]), Ok(".jjzeron".to_owned()));
    assert_eq!(resolve(Platform::Unix, &[("ZERON_DATA_DIR", "")]), Ok(String::new()));
}
