use mastiff_backend::errors::RecipeError;
use mastiff_backend::image::Image;
use mastiff_backend::image::ImageSource;
use mastiff_backend::lifecycle::RecipeManager;
use mastiff_backend::paths::entry_path_is_safe;
use mastiff_backend::paths::join_path;
use mastiff_backend::paths::recipe_name_is_valid;

#[test]
fn relative_entry_paths_are_safe() {
    assert!(entry_path_is_safe("recipe.toml"));
    assert!(entry_path_is_safe("data/world/level.dat"));
    assert!(entry_path_is_safe("..hidden"));
    assert!(entry_path_is_safe("a/..b"));
    assert!(entry_path_is_safe("a../b"));
    assert!(entry_path_is_safe("..."));
}

#[test]
fn escaping_entry_paths_are_rejected() {
    assert!(!entry_path_is_safe(".."));
    assert!(!entry_path_is_safe("../outside"));
    assert!(!entry_path_is_safe("a/../b"));
    assert!(!entry_path_is_safe("a/b/.."));
    assert!(!entry_path_is_safe("/etc/passwd"));
    assert!(!entry_path_is_safe(""));
}

#[test]
fn recipe_names_are_single_components() {
    assert!(recipe_name_is_valid("mc"));
    assert!(recipe_name_is_valid("..."));
    assert!(!recipe_name_is_valid(""));
    assert!(!recipe_name_is_valid("."));
    assert!(!recipe_name_is_valid(".."));
    assert!(!recipe_name_is_valid("a/b"));
}

#[test]
fn join_path_appends_one_component() {
    assert_eq!(join_path("/srv/recipes", "mc"), "/srv/recipes/mc");
}

#[test]
fn local_image_is_named_after_its_directory() {
    let image = Image::new_local("/srv/recipes/mc");
    assert_eq!(image.name, "mc");
    match &image.source {
        ImageSource::Local { path } => assert_eq!(path, "/srv/recipes/mc"),
        ImageSource::Registry => panic!("expected a local image"),
    }
}

#[test]
fn registry_image_keeps_its_reference() {
    let image = Image::new_registry("itzg/minecraft-server");
    assert_eq!(image.name, "itzg/minecraft-server");
    assert!(matches!(image.source, ImageSource::Registry));
}

#[test]
fn upload_screening_partitions_member_paths() {
    let manager = RecipeManager::new("/srv/recipes");
    let entries = vec![
        "recipe.toml".to_string(),
        "../escape.sh".to_string(),
        "data/config.yml".to_string(),
        "data/../../escape2".to_string(),
        "/abs".to_string(),
    ];
    let plan = manager.decompress_files("mc", &entries).unwrap();
    assert_eq!(plan.recipe_path, "/srv/recipes/mc");
    assert_eq!(plan.accepted, vec!["recipe.toml".to_string(), "data/config.yml".to_string()]);
    assert_eq!(
        plan.rejected,
        vec!["../escape.sh".to_string(), "data/../../escape2".to_string(), "/abs".to_string()]
    );
}

#[test]
fn upload_with_unsafe_recipe_name_is_refused() {
    let manager = RecipeManager::new("/srv/recipes");
    let entries = vec!["recipe.toml".to_string()];
    let e = manager.decompress_files("../mc", &entries).unwrap_err();
    assert!(matches!(e, RecipeError::PathTraversal(_)));
}
