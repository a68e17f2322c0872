use slush::change_dir::{normalize_path, ChangeDir};

#[test]
fn test_normalize_paths() {
    let path = normalize_path(&String::from("/patha/../pathb"));
    println!("Got path: {}", path);
    assert!(path == "/pathb");

    let path = normalize_path(&String::from("/patha//../pathb"));
    println!("Got path: {}", path);
    assert!(path == "/pathb");

    let path = normalize_path(&String::from("/patha/poop//../pathb"));
    println!("Got path: {}", path);
    assert!(path == "/patha/pathb");

    let path = normalize_path(&String::from("/patha/space path//../pathb"));
    println!("Got path: {}", path);
    assert!(path == "/patha/pathb");

    let path = normalize_path(&String::from("/patha/space\\/path//../pathb"));
    println!("Got path: {}", path);
    assert!(path == "/patha/pathb");
}

#[test]
fn change_dir_keeps_the_given_path() {
    let cd = ChangeDir::new("/tmp/somewhere");
    assert_eq!(cd.path, "/tmp/somewhere");
}
