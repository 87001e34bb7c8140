use media_sorter::classify::Category;
use media_sorter::plan::{destination_path, plan_moves, should_move_file, SourceEntry};

fn file(name: &str) -> SourceEntry {
    SourceEntry { name: name.to_string(), is_file: true }
}

fn directory(name: &str) -> SourceEntry {
    SourceEntry { name: name.to_string(), is_file: false }
}

fn strings(names: &[&str]) -> Vec<String> {
    names.iter().map(|n| n.to_string()).collect()
}

#[test]
fn fan_out_covers_every_eligible_file() {
    let entries = vec![
        file("a.jpg"),
        file("b.MOV"),
        file("c.png"),
        file("d.mp4"),
        directory("subdir"),
        file("readme.txt"),
        file("noext"),
    ];
    let plan = plan_moves(&entries, &Vec::new(), &Vec::new());
    assert_eq!(plan.tasks.len(), 4);
    assert_eq!(plan.tasks[0].name, "a.jpg");
    assert_eq!(plan.tasks[0].category, Category::Photos);
    assert_eq!(plan.tasks[1].name, "b.MOV");
    assert_eq!(plan.tasks[1].category, Category::Videos);
    assert_eq!(plan.tasks[2].name, "c.png");
    assert_eq!(plan.tasks[2].category, Category::Photos);
    assert_eq!(plan.tasks[3].name, "d.mp4");
    assert_eq!(plan.tasks[3].category, Category::Videos);
}

#[test]
fn unrecognized_file_is_reported_and_left_alone() {
    let entries = vec![file("readme.txt"), file("a.jpg")];
    let plan = plan_moves(&entries, &Vec::new(), &Vec::new());
    assert_eq!(plan.unrecognized, vec!["readme.txt".to_string()]);
    assert!(plan.tasks.iter().all(|t| t.name != "readme.txt"));
}

#[test]
fn file_without_extension_is_skipped_silently() {
    let entries = vec![file("noext"), file(".hidden")];
    let plan = plan_moves(&entries, &Vec::new(), &Vec::new());
    assert!(plan.tasks.is_empty());
    assert!(plan.unrecognized.is_empty());
}

#[test]
fn directories_are_skipped() {
    let entries = vec![directory("photos.jpg")];
    let plan = plan_moves(&entries, &Vec::new(), &Vec::new());
    assert!(plan.tasks.is_empty());
    assert!(plan.unrecognized.is_empty());
}

#[test]
fn existing_destination_name_blocks_the_move() {
    let entries = vec![file("foo.jpg"), file("bar.jpg"), file("baz.mov")];
    let photos = strings(&["foo.jpg"]);
    let videos = strings(&["baz.mov"]);
    let plan = plan_moves(&entries, &photos, &videos);
    assert_eq!(plan.tasks.len(), 1);
    assert_eq!(plan.tasks[0].name, "bar.jpg");
    assert_eq!(plan.tasks[0].category, Category::Photos);
    assert!(plan.unrecognized.is_empty());
}

#[test]
fn second_run_plans_nothing() {
    let entries = vec![
        file("a.jpg"),
        file("b.mov"),
        file("readme.txt"),
        file("foo.jpg"),
    ];
    let photos = strings(&["foo.jpg"]);
    let videos = Vec::new();
    let plan = plan_moves(&entries, &photos, &videos);

    // Apply the plan: moved files leave the source, their names join
    // the destination listings.
    let mut photos_after = photos.clone();
    let mut videos_after = videos.clone();
    for t in &plan.tasks {
        match t.category {
            Category::Photos => photos_after.push(t.name.clone()),
            Category::Videos => videos_after.push(t.name.clone()),
        }
    }
    let remaining: Vec<SourceEntry> = entries
        .iter()
        .filter(|e| plan.tasks.iter().all(|t| t.name != e.name))
        .map(|e| SourceEntry { name: e.name.clone(), is_file: e.is_file })
        .collect();

    let second = plan_moves(&remaining, &photos_after, &videos_after);
    assert!(second.tasks.is_empty());
    assert_eq!(second.unrecognized, plan.unrecognized);
}

#[test]
fn should_move_file_checks_the_destination() {
    let contents = strings(&["foo.jpg", "bar.png"]);
    assert!(should_move_file(&Some("new.jpg".to_string()), &contents));
    assert!(!should_move_file(&Some("foo.jpg".to_string()), &contents));
    assert!(!should_move_file(&None, &contents));
    assert!(should_move_file(&Some("anything".to_string()), &Vec::new()));
}

#[test]
fn destination_path_joins_with_a_separator() {
    assert_eq!(destination_path("/dest/photos", "a.jpg"), "/dest/photos/a.jpg");
    assert_eq!(destination_path("rel", "b.mov"), "rel/b.mov");
}
