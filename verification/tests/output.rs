use fixer::output::{PlacementKind, PlacementMode, ancestors_to_inspect, placement_operation, relative_path};
use fixer::paths::{components, render};

#[test]
fn placements_link_or_copy_the_canonical_source() {
    let source = components("/media/in/Movie");
    assert!(matches!(placement_operation(PlacementMode::InPlace, &source, None), Ok(None)));
    let (kind, from) = placement_operation(PlacementMode::Copy, &source, None).unwrap().unwrap();
    assert_eq!(kind, PlacementKind::Copy);
    assert_eq!(render(&from), "/media/in/Movie");
    let directory = components("/media/out/Movies");
    let (kind, from) =
        placement_operation(PlacementMode::RelativeSymlink, &source, Some(&directory)).unwrap().unwrap();
    assert_eq!(kind, PlacementKind::Symlink);
    assert_eq!(render(&from), "../../in/Movie");
    assert!(matches!(placement_operation(PlacementMode::RelativeSymlink, &source, None), Err(true)));
    assert!(matches!(
        placement_operation(PlacementMode::RelativeSymlink, &source, Some(&components("relative/dir"))),
        Err(false)
    ));
    assert!(relative_path(&components("/a/b"), &components("/a/c")).is_some());
}

#[test]
fn ancestors_are_inspected_from_the_root_down() {
    let paths = ancestors_to_inspect(&components("/out"), &components("Movies/./Alien (1979)"));
    let rendered: Vec<String> = paths.iter().map(render).collect();
    assert_eq!(rendered, vec!["/out", "/out/Movies", "/out/Movies/Alien (1979)"]);
    assert_eq!(ancestors_to_inspect(&components("/out"), &vec![]).len(), 1);
}
