use syscore::fs::{MockFileSystem, NodeType};

#[test]
fn starting_tree() {
    let fs = MockFileSystem::new();
    assert_eq!(fs.root.name, "root");
    let root = fs.root.children.as_ref().unwrap();
    assert_eq!(root.iter().map(|c| c.name.as_str()).collect::<Vec<_>>(), vec!["home", "bin"]);
    let bin = root[1].children.as_ref().unwrap();
    assert_eq!(bin.iter().map(|c| c.name.as_str()).collect::<Vec<_>>(), vec!["ls", "sh"]);
    assert_eq!(fs.list_files(), vec!["README.txt".to_string(), "secret.c".to_string()]);
}

#[test]
fn create_adds_an_empty_file() {
    let mut fs = MockFileSystem::new();
    fs.create_file("notes.md".to_string());
    assert_eq!(fs.list_files(), vec!["README.txt", "secret.c", "notes.md"]);
    let user = &fs.root.children.as_ref().unwrap()[0].children.as_ref().unwrap()[0];
    let node = &user.children.as_ref().unwrap()[2];
    assert_eq!(node.node_type, NodeType::File);
    assert_eq!(node.content.as_deref(), Some(""));
}

#[test]
fn create_replaces_a_file_of_that_name() {
    let mut fs = MockFileSystem::new();
    fs.create_file("README.txt".to_string());
    assert_eq!(fs.list_files(), vec!["README.txt", "secret.c"]);
    let user = &fs.root.children.as_ref().unwrap()[0].children.as_ref().unwrap()[0];
    assert_eq!(user.children.as_ref().unwrap()[0].content.as_deref(), Some(""));
}

#[test]
fn no_user_directory_means_nothing_to_list() {
    let mut fs = MockFileSystem::new();
    fs.root.children.as_mut().unwrap().remove(0);
    assert!(fs.list_files().is_empty());
    fs.create_file("x".to_string());
    assert!(fs.list_files().is_empty());
}

#[test]
fn starting_tree_shape() {
    let fs = MockFileSystem::new();
    let root = fs.root.children.as_ref().unwrap();
    let home = root[0].children.as_ref().unwrap();
    assert_eq!(home.len(), 1);
    assert_eq!(home[0].name, "user");
    assert_eq!(home[0].node_type, NodeType::Dir);
    let bin = root[1].children.as_ref().unwrap();
    assert!(bin.iter().all(|n| n.node_type == NodeType::File && n.content.is_none()));
}
