use lotus_extract::utils::filetime_to_unix_timestamp;
use lotus_extract::utils::path::normalize_path;
use std::path::PathBuf;

const HOME_DIR: &str = "/home/user";
const CACHE_WINDOWS_DIRECTORY: &str = ".steam/steam/steamapps/common/Warframe/Cache.Windows";

// Whether the directory is on disk depends on the machine that runs the
// test, and so does the home directory. What is checked is the path that is
// looked for below a given home directory.
#[test]
fn test_cache_windows_directory() {
    let cache_windows_directory = PathBuf::from(HOME_DIR).join(CACHE_WINDOWS_DIRECTORY);
    assert!(cache_windows_directory.is_absolute());
    assert_eq!(
        normalize_path(CACHE_WINDOWS_DIRECTORY, HOME_DIR),
        cache_windows_directory.to_str().unwrap()
    );
}

#[test]
fn absolute_paths_are_kept_as_they_are() {
    assert_eq!(normalize_path("/a/../b", "/c"), "/a/../b");
    assert_eq!(normalize_path("/", "/c"), "/");
}

#[test]
fn relative_paths_start_at_the_base() {
    assert_eq!(normalize_path("b", "/a"), "/a/b");
    assert_eq!(normalize_path(".", "/a"), "/a");
    assert_eq!(normalize_path("..", "/a/b"), "/a");
    assert_eq!(normalize_path("../c/./d", "/a/b"), "/a/c/d");
    assert_eq!(normalize_path("x", "/"), "/x");
    assert_eq!(normalize_path("", "/"), "/");
    assert_eq!(normalize_path("..", "/"), "/..");
}

#[test]
fn filetime_epoch_maps_to_zero() {
    assert_eq!(filetime_to_unix_timestamp(116444736000000000), 0);
    assert_eq!(filetime_to_unix_timestamp(116444736000000025), 2);
    assert_eq!(filetime_to_unix_timestamp(133000000000000000), 1655526400000000);
}
