use tim_cli::Config;

fn args(v: &[&str]) -> Vec<String> {
    v.iter().map(|s| s.to_string()).collect()
}

#[test]
fn default_sets_nothing() {
    let c = Config::default();
    assert_eq!(c.file_path, "");
    assert!(!c.file_explorer && !c.create_file && !c.delete_file && !c.rename_file);
    assert!(!c.dark && !c.light && !c.help && !c.keybinds);
    assert_eq!(c.new_file_name, "");
}

#[test]
fn too_few_arguments() {
    assert_eq!(Config::build(&args(&["tim"])).err(), Some("Not enough arguments"));
    assert_eq!(Config::build(&args(&[])).err(), Some("Not enough arguments"));
}

#[test]
fn single_flags() {
    assert!(Config::build(&args(&["tim", "-f"])).unwrap().file_explorer);
    assert!(Config::build(&args(&["tim", "--files"])).unwrap().file_explorer);
    assert!(Config::build(&args(&["tim", "-h"])).unwrap().help);
    assert!(Config::build(&args(&["tim", "--keybinds"])).unwrap().keybinds);
}

#[test]
fn path_alone_opens_for_editing() {
    let c = Config::build(&args(&["tim", "notes.txt"])).unwrap();
    assert_eq!(c.file_path, "notes.txt");
    assert!(!c.create_file && !c.help && !c.file_explorer);
}

#[test]
fn path_with_modifier() {
    let c = Config::build(&args(&["tim", "a.txt", "--create"])).unwrap();
    assert!(c.create_file);
    assert_eq!(c.file_path, "a.txt");
    assert!(Config::build(&args(&["tim", "a.txt", "-d"])).unwrap().delete_file);
    assert!(Config::build(&args(&["tim", "a.txt", "-r"])).unwrap().rename_file);
    assert!(Config::build(&args(&["tim", "a.txt", "-b"])).unwrap().dark);
    let l = Config::build(&args(&["tim", "a.txt", "--light"])).unwrap();
    assert!(l.light && !l.dark);
}

#[test]
fn invalid_modifier() {
    assert_eq!(Config::build(&args(&["tim", "a.txt", "-x"])).err(), Some("Invalid modifier"));
}

#[test]
fn rename_with_name() {
    let c = Config::build(&args(&["tim", "a.txt", "-r", "b.txt"])).unwrap();
    assert!(c.rename_file);
    assert_eq!(c.file_path, "a.txt");
    assert_eq!(c.new_file_name, "b.txt");
}

#[test]
fn too_many_arguments() {
    assert_eq!(
        Config::build(&args(&["tim", "a.txt", "-c", "b.txt"])).err(),
        Some("Too many arguments")
    );
    assert_eq!(
        Config::build(&args(&["tim", "a", "-r", "b", "c"])).err(),
        Some("Too many arguments")
    );
}
