use gitsum::content::{File, Folder, GitTree, RepositoryContent};

fn folder_with(name: &str, files: Vec<File>) -> Folder {
    let mut folder = Folder::new(name);
    for f in files {
        folder.insert_file(f);
    }
    folder
}

#[test]
fn file_new_keeps_fields() {
    let f = File::new("a.rs", "fn main() {}", "https://example.test/a.rs");
    assert_eq!(f.name, "a.rs");
    assert_eq!(f.content, "fn main() {}");
    assert_eq!(f.download_url, "https://example.test/a.rs");
}

#[test]
fn folder_new_is_empty() {
    let f = Folder::new("src");
    assert_eq!(f.name, "src");
    assert_eq!(f.files.len(), 0);
}

#[test]
fn insert_file_appends_in_order() {
    let folder = folder_with(
        "src",
        vec![File::new("a.rs", "1", ""), File::new("b.rs", "2", "")],
    );
    assert_eq!(folder.files.len(), 2);
    assert_eq!(folder.files[0].name, "a.rs");
    assert_eq!(folder.files[1].name, "b.rs");
}

#[test]
fn insert_file_with_equal_name_replaces_in_place() {
    let folder = folder_with(
        "src",
        vec![
            File::new("a.rs", "old", ""),
            File::new("b.rs", "2", ""),
            File::new("a.rs", "new", ""),
        ],
    );
    assert_eq!(folder.files.len(), 2);
    assert_eq!(folder.files[0].name, "a.rs");
    assert_eq!(folder.files[0].content, "new");
    assert_eq!(folder.files[1].name, "b.rs");
}

#[test]
fn find_file_present_and_absent() {
    let folder = folder_with("src", vec![File::new("a.rs", "1", "")]);
    assert!(folder.find_file("a.rs").is_some());
    assert_eq!(folder.find_file("a.rs").unwrap().content, "1");
    assert!(folder.find_file("z.rs").is_none());
}

#[test]
fn insert_folder_with_equal_name_replaces_in_place() {
    let mut content = RepositoryContent::default();
    content.insert_folder(folder_with("src", vec![File::new("a.rs", "1", "")]));
    content.insert_folder(Folder::new("docs"));
    content.insert_folder(Folder::new("src"));
    assert_eq!(content.folders.len(), 2);
    assert_eq!(content.folders[0].name, "src");
    assert_eq!(content.folders[0].files.len(), 0);
    assert_eq!(content.folders[1].name, "docs");
}

#[test]
fn find_folder_present_and_absent() {
    let mut content = RepositoryContent::default();
    content.insert_folder(Folder::new("src"));
    assert!(content.find_folder("src").is_some());
    assert!(content.find_folder("docs").is_none());
}

#[test]
fn from_tree_takes_tree_entries_only_in_order() {
    let tree = vec![
        GitTree {
            path: String::from("src"),
            object_type: String::from("tree"),
            sha: String::from("1111"),
        },
        GitTree {
            path: String::from("README.md"),
            object_type: String::from("blob"),
            sha: String::from("2222"),
        },
        GitTree {
            path: String::from("docs"),
            object_type: String::from("tree"),
            sha: String::from("3333"),
        },
    ];
    let content = RepositoryContent::from_tree(&tree);
    assert_eq!(content.folders.len(), 2);
    assert_eq!(content.folders[0].name, "src");
    assert_eq!(content.folders[1].name, "docs");
    assert_eq!(content.readme, "");
}

#[test]
fn from_tree_repeated_path_keeps_one_folder() {
    let tree = vec![
        GitTree {
            path: String::from("src"),
            object_type: String::from("tree"),
            sha: String::from("1111"),
        },
        GitTree {
            path: String::from("src"),
            object_type: String::from("tree"),
            sha: String::from("4444"),
        },
    ];
    let content = RepositoryContent::from_tree(&tree);
    assert_eq!(content.folders.len(), 1);
    assert_eq!(content.folders[0].name, "src");
}

#[test]
fn to_string_of_empty_model_is_empty() {
    let content = RepositoryContent::default();
    assert_eq!(content.to_string(), "");
}

#[test]
fn to_string_renders_folders_and_files() {
    let mut content = RepositoryContent::default();
    content.insert_folder(folder_with("src", vec![File::new("a.rs", "body", "")]));
    content.insert_folder(Folder::new("docs"));
    let rendered = content.to_string();
    assert_eq!(rendered, "## name: src, files: a.rs: body\n\n## name: docs, files: \n");
}
