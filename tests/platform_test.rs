use phpvm::platform::{
    executable_path_for, get_current_path, get_path_env_var, get_php_executable_path,
    is_library_file, launcher_path_for, launcher_script, rc_has_dir, rc_with_dir, rc_without_dir,
    registry_path_has, registry_path_with_dir, registry_path_without_dir, Platform,
};

#[test]
fn test_get_php_executable_path_public_api() {
    let exe_path = get_php_executable_path("test/php-8.2.0");
    assert!(exe_path.ends_with("bin/php"));
}

#[test]
fn test_get_path_env_var_public_api() {
    let env_var = get_path_env_var();
    assert_eq!(env_var, "PATH");
}

#[test]
fn test_get_current_path_public_api() {
    let current_path = get_current_path();
    assert!(current_path.contains("current"));
    assert!(current_path.contains("php"));
}

#[test]
fn executable_and_launcher_per_platform() {
    assert_eq!(executable_path_for(Platform::Windows, "C:/v/php-8.2.0-ts"), "C:/v/php-8.2.0-ts/php.exe");
    assert_eq!(executable_path_for(Platform::Posix, "/v/php-8.2.0-ts"), "/v/php-8.2.0-ts/bin/php");
    assert_eq!(launcher_path_for(Platform::Windows, "/b"), "/b/current/php.bat");
    assert_eq!(launcher_path_for(Platform::Posix, "/b/"), "/b/current/php");
}

#[test]
fn registry_path_registration_puts_dir_first_and_drops_stale_entries() {
    let value = "C:\\Windows; C:\\Users\\a\\phpvm\\current-old ;C:\\Tools";
    let r = registry_path_with_dir(value, "C:\\Users\\a\\phpvm\\current").unwrap();
    assert_eq!(r, "C:\\Users\\a\\phpvm\\current;C:\\Windows;C:\\Tools");
    assert_eq!(registry_path_with_dir(&r, "C:\\Users\\a\\phpvm\\current"), None);
}

#[test]
fn registry_path_registration_is_case_insensitive() {
    let value = "C:\\Windows; c:\\users\\a\\PHPVM\\Current ";
    assert_eq!(registry_path_with_dir(value, "C:\\Users\\a\\phpvm\\current"), None);
    assert!(registry_path_has(value, "PHPVM"));
}

#[test]
fn registry_path_of_blank_entries_is_the_dir_alone() {
    assert_eq!(registry_path_with_dir(" ; ", "D:\\phpvm\\current").unwrap(), "D:\\phpvm\\current");
    assert_eq!(registry_path_with_dir("", "D:\\x").unwrap(), "D:\\x");
}

#[test]
fn registry_path_unregistration() {
    let value = "D:\\phpvm\\current;C:\\Windows;D:\\phpvm\\current\\bin";
    assert_eq!(registry_path_without_dir(value, "D:\\phpvm\\current").unwrap(), "C:\\Windows");
    assert_eq!(registry_path_without_dir("C:\\Windows", "D:\\phpvm\\current"), None);
}

#[test]
fn rc_file_registration_is_idempotent() {
    let added = rc_with_dir("alias ll='ls -l'", "/home/a/phpvm/current").unwrap();
    assert_eq!(added, "alias ll='ls -l'\nexport PATH=\"/home/a/phpvm/current:$PATH\"");
    assert_eq!(rc_with_dir(&added, "/home/a/phpvm/current"), None);
    assert!(rc_has_dir(Some(&added), "/home/a/phpvm/current"));
    assert!(!rc_has_dir(None, "/home/a/phpvm/current"));
}

#[test]
fn rc_file_unregistration_removes_every_copy() {
    let line = "export PATH=\"/p/current:$PATH\"\n";
    let content = format!("a\n{}b\n{}", line, line);
    assert_eq!(rc_without_dir(&content, "/p/current").unwrap(), "a\nb\n");
    assert_eq!(rc_without_dir("a\n", "/p/current"), None);
}

#[test]
fn libraries_and_launcher_script() {
    assert!(is_library_file("php8ts.dll"));
    assert!(is_library_file("LIBSSL.DLL"));
    assert!(!is_library_file(".dll"));
    assert!(!is_library_file("php.exe"));
    assert_eq!(launcher_script("C:\\php\\php.exe"), "@echo off\n\"C:\\\\php\\\\php.exe\" %*");
}
