use breakout::filesystem::get_path;
use std::path::PathBuf;

const FILE: &str = "resources/textures/awesomeface.png";
const DIR: &str = "resources/textures";

fn pushed_part_by_part(current_dir: &str, path: &str) -> String {
    let mut cur = PathBuf::from(current_dir);
    for part in path.split('/') {
        cur.push(part);
    }
    cur.into_os_string().into_string().unwrap()
}

#[test]
fn get_path_test_file() {
    let file_name = get_path("/srv/game", FILE);
    assert!(file_name.len() > 0, "{} failed to be converted into a path.", FILE);
    assert_eq!(file_name, "/srv/game/resources/textures/awesomeface.png");
    assert!(file_name.ends_with(FILE));
}

#[test]
fn get_path_test_dir() {
    let file_name = get_path("/srv/game", DIR);
    assert!(file_name.len() > 0, "{} failed to be converted into a path.", FILE);
    assert_eq!(file_name, "/srv/game/resources/textures");
    assert!(file_name.ends_with(DIR));
}

#[test]
fn get_path_sets_one_separator_between_parts() {
    assert_eq!(get_path("/work", "a/b"), "/work/a/b");
    assert_eq!(get_path("/work/", "a/b"), "/work/a/b");
    assert_eq!(get_path("/", "a"), "/a");
}

#[test]
fn get_path_with_empty_parts() {
    assert_eq!(get_path("/work", ""), "/work/");
    assert_eq!(get_path("/work", "a//b"), "/work/a/b");
    assert_eq!(get_path("/work", "/a"), "/work/a");
    assert_eq!(get_path("/work", "a/"), "/work/a/");
    assert_eq!(get_path("/work", "///"), "/work/");
}

#[test]
fn get_path_on_an_empty_directory() {
    assert_eq!(get_path("", "a/b"), "a/b");
    assert_eq!(get_path("", ""), "");
    assert_eq!(get_path("", "/a"), "a");
}

#[test]
fn get_path_keeps_characters_beyond_ascii() {
    assert_eq!(get_path("/André", "schön/漢字.png"), "/André/schön/漢字.png");
}

#[test]
fn get_path_agrees_with_pushing_onto_a_path_buffer() {
    if std::path::MAIN_SEPARATOR != '/' {
        return;
    }
    let dirs = ["/work", "/work/", "", "/", "rel/dir"];
    let paths = ["a/b", "", "a//b", "/a", "a/", "///", "resources/shaders/text_2d.vs", "x"];
    for dir in dirs {
        for path in paths {
            assert_eq!(get_path(dir, path), pushed_part_by_part(dir, path), "{:?} {:?}", dir, path);
        }
    }
}
