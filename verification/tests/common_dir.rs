use sic::common_dir::{unroot, CommonDir};
use sic::path::FsPath;

fn p(s: &str) -> FsPath {
    FsPath::new(s)
}

fn paths(ps: &[&str]) -> Vec<FsPath> {
    ps.iter().map(|s| FsPath::new(s)).collect()
}

#[test]
fn unroot_test_file_only() {
    let root = p("/my/common");
    let full = p("/my/common/a.png");
    assert!(unroot(&root, &full).same_path(&p("a.png")));
}

#[test]
fn unroot_with_similar_dir_test() {
    let root = p("/my");
    let full = p("/my/common/a.png");
    assert!(unroot(&root, &full).same_path(&p("common/a.png")));
}

#[test]
fn uncommon_dir_test() {
    let common = CommonDir::try_new(&paths(&[
        "/my/common/path/a.png",
        "/my/common/path/b.png",
        "/my/uncommon/path/c.png",
    ]))
    .unwrap();

    assert!(common.common_root().same_path(&p("/my")));

    let stem = common.path_branches();
    assert!(stem[0].same_path(&p("common/path/a.png")));
    assert!(stem[1].same_path(&p("common/path/b.png")));
    assert!(stem[2].same_path(&p("uncommon/path/c.png")));
}

#[test]
fn common_dir_test() {
    let common = CommonDir::try_new(&paths(&[
        "/my/common/path/a.png",
        "/my/common/path/b.png",
        "/my/common/path/c.png",
    ]))
    .unwrap();

    assert!(common.common_root().same_path(&p("/my/common/path/")));

    let stem = common.path_branches();
    assert!(stem[0].same_path(&p("a.png")));
    assert!(stem[1].same_path(&p("b.png")));
    assert!(stem[2].same_path(&p("c.png")));
}

#[test]
fn no_path_before_file() {
    let common = CommonDir::try_new(&paths(&["a.png", "b.png", "c.png"])).unwrap();

    assert!(common.common_root().same_path(&p("")));

    let stem = common.path_branches();
    assert!(stem[0].same_path(&p("a.png")));
    assert!(stem[1].same_path(&p("b.png")));
    assert!(stem[2].same_path(&p("c.png")));
}

#[test]
fn empty_common_dir() {
    let common = CommonDir::try_new(&Vec::new());
    assert!(common.is_err());
}

#[test]
fn common_dir_error_messages() {
    assert_eq!(CommonDir::try_new(&Vec::new()).err().unwrap(), "No paths found (glob mode)");
    assert_eq!(
        CommonDir::try_new(&paths(&["/"])).err().unwrap(),
        "No root directory found (glob mode)"
    );
}

#[test]
fn common_dir_falls_back_to_file_names() {
    let common = CommonDir::try_new(&paths(&["/x/a.png", "b/c.png"])).unwrap();
    assert!(common.common_root().same_path(&p("/x")));
    let stem = common.path_branches();
    assert!(stem[0].same_path(&p("a.png")));
    assert!(stem[1].same_path(&p("c.png")));
    assert_eq!(
        CommonDir::try_new(&paths(&["/x/a.png", ".."])).err().unwrap(),
        "Unable to mirror input directory to output: found an invalid file path"
    );
}

#[test]
fn common_dir_branches_join_back_to_inputs() {
    let inputs = paths(&["/my/common/path/a.png", "/my/other/b.png"]);
    let common = CommonDir::try_new(&inputs).unwrap();
    let combos = common.path_combinations();
    for (i, (input, branch)) in combos.iter().enumerate() {
        assert!(input.same_path(&inputs[i]));
        assert!(common.common_root().join(branch).same_path(&inputs[i]));
    }
    let input_paths = common.input_paths();
    assert!(input_paths[1].same_path(&inputs[1]));
}

#[test]
fn path_parsing_and_rendering() {
    assert_eq!(p("/my//common/./path/").to_path_string(), "/my/common/path");
    assert_eq!(p("./a/b").to_path_string(), "./a/b");
    assert_eq!(p("a.tar.gz").extension().map(|e| e.into_iter().collect::<String>()), Some("gz".to_string()));
    assert_eq!(p(".hidden").extension(), None);
    assert!(p("/a/b").parent().unwrap().same_path(&p("/a")));
    assert!(p("/").parent().is_none());
    assert!(p("/a/b").starts_with(&p("/a")));
    assert!(!p("/a/b").starts_with(&p("/b")));
}
