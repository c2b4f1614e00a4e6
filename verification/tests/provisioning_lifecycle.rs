use mastiff_backend::auth::AuthError;
use mastiff_backend::auth::AuthManager;
use mastiff_backend::errors::RecipeError;
use mastiff_backend::image::ImageSource;
use mastiff_backend::lifecycle::DirEntry;
use mastiff_backend::lifecycle::RecipeManager;
use mastiff_backend::provision::resolve_decision;
use mastiff_backend::provision::chunk_failure;
use mastiff_backend::provision::consume_chunks;
use mastiff_backend::provision::BuildChunk;
use mastiff_backend::provision::ResolveAction;
use mastiff_backend::store::apply_provision;
use mastiff_backend::store::association_label_key;
use mastiff_backend::store::delete_image;
use mastiff_backend::store::deleted_count;
use mastiff_backend::store::list_images;
use mastiff_backend::store::EngineImage;

fn labeled(name: &str) -> EngineImage {
    EngineImage { recipe_label: Some(name.to_string()) }
}

fn unlabeled() -> EngineImage {
    EngineImage { recipe_label: None }
}

#[test]
fn existing_image_is_never_rebuilt() {
    assert!(matches!(resolve_decision(true, true), ResolveAction::UseExisting));
    assert!(matches!(resolve_decision(true, false), ResolveAction::UseExisting));
}

#[test]
fn absent_image_without_create_reports_absent() {
    assert!(matches!(resolve_decision(false, false), ResolveAction::ReportAbsent));
    assert!(matches!(resolve_decision(false, true), ResolveAction::Provision));
}

#[test]
fn progress_chunks_carry_no_failure() {
    assert!(chunk_failure(&BuildChunk::Progress).is_none());
    let failure = chunk_failure(&BuildChunk::ErrorChunk { message: "no space".to_string() });
    assert_eq!(failure.as_deref(), Some("no space"));
}

#[test]
fn clean_stream_provisions_successfully() {
    let chunks = vec![BuildChunk::Progress, BuildChunk::Progress];
    assert!(consume_chunks(&chunks, &ImageSource::Registry).is_ok());
    assert!(consume_chunks(&Vec::new(), &ImageSource::Registry).is_ok());
}

#[test]
fn first_failure_chunk_aborts_a_local_build() {
    let chunks = vec![
        BuildChunk::Progress,
        BuildChunk::ErrorChunk { message: "step 3 failed".to_string() },
        BuildChunk::ErrorChunk { message: "later".to_string() },
    ];
    let source = ImageSource::Local { path: "/srv/recipes/mc".to_string() };
    match consume_chunks(&chunks, &source).unwrap_err() {
        RecipeError::ImageBuild(message) => assert_eq!(message, "step 3 failed"),
        _ => panic!("expected a build failure"),
    }
}

#[test]
fn transport_failure_aborts_a_pull() {
    let chunks = vec![BuildChunk::TransportError { message: "socket closed".to_string() }];
    match consume_chunks(&chunks, &ImageSource::Registry).unwrap_err() {
        RecipeError::ImagePull(message) => assert_eq!(message, "socket closed"),
        _ => panic!("expected a pull failure"),
    }
}

#[test]
fn listing_filters_and_deduplicates_labels() {
    let store = vec![labeled("mc"), unlabeled(), labeled("factorio"), labeled("mc"), unlabeled()];
    let names = list_images(&store);
    assert_eq!(names, vec!["mc".to_string(), "factorio".to_string()]);
}

#[test]
fn listing_ignores_an_engine_store_of_strangers() {
    assert!(list_images(&vec![unlabeled(), unlabeled()]).is_empty());
    assert!(list_images(&Vec::new()).is_empty());
}

#[test]
fn pruning_deletes_only_the_named_label() {
    let store = vec![labeled("mc"), unlabeled(), labeled("factorio"), labeled("mc")];
    let (remaining, count) = delete_image(&store, "mc");
    assert_eq!(count, 2);
    let names = list_images(&remaining);
    assert_eq!(names, vec!["factorio".to_string()]);
}

#[test]
fn pruning_an_absent_name_deletes_nothing() {
    let store = vec![labeled("mc"), unlabeled()];
    let (remaining, count) = delete_image(&store, "ghost");
    assert_eq!(count, 0);
    assert_eq!(remaining.len(), 2);
}

#[test]
fn deleted_count_reads_the_engines_report() {
    assert_eq!(deleted_count(&None), 0);
    assert_eq!(deleted_count(&Some(vec!["sha".to_string(), "sha2".to_string()])), 2);
}

#[test]
fn label_key_is_the_fixed_association_key() {
    assert_eq!(association_label_key(), "mastiff.recipe-name");
}

#[test]
fn listing_recipes_reports_directories_without_manifests() {
    let manager = RecipeManager::new("/srv/recipes");
    let entries = vec![
        DirEntry { name: "mc".to_string(), is_dir: true },
        DirEntry { name: "stray-file".to_string(), is_dir: false },
        DirEntry { name: "empty-dir".to_string(), is_dir: true },
    ];
    let names = manager.list_recipes(&entries);
    assert_eq!(names, vec!["mc".to_string(), "empty-dir".to_string()]);
    let e = manager.build_recipe("/srv/recipes/empty-dir", None).unwrap_err();
    assert!(matches!(e, RecipeError::ManifestParse(_)));
}

#[test]
fn building_with_a_malformed_manifest_fails_before_the_engine() {
    let manager = RecipeManager::new("/srv/recipes");
    let e = manager.build_recipe("/srv/recipes/mc", Some("not a manifest")).unwrap_err();
    assert!(matches!(e, RecipeError::ManifestParse(_)));
}

#[test]
fn registry_recipe_pulls_labels_and_lists() {
    let manager = RecipeManager::new("/srv/recipes");
    let upload = vec!["recipe.toml".to_string()];
    let plan = manager.decompress_files("mc", &upload).unwrap();
    assert_eq!(plan.recipe_path, "/srv/recipes/mc");
    assert_eq!(plan.accepted, vec!["recipe.toml".to_string()]);
    assert!(plan.rejected.is_empty());
    let manifest =
        "name=mc\nversion=1\nimage=registry:itzg/minecraft-server\nprocess_started_indicator=Done\nmin_ports=1";
    let (recipe, image) = manager.build_recipe(&plan.recipe_path, Some(manifest)).unwrap();
    assert_eq!(recipe.name, "mc");
    assert_eq!(recipe.version, "1");
    assert_eq!(recipe.min_ports, 1);
    assert_eq!(image.name, "itzg/minecraft-server");
    assert!(matches!(image.source, ImageSource::Registry));
    assert!(matches!(resolve_decision(false, true), ResolveAction::Provision));
    assert!(consume_chunks(&vec![BuildChunk::Progress], &image.source).is_ok());
    let store = apply_provision(&Vec::new(), &recipe.name);
    assert_eq!(list_images(&store), vec!["mc".to_string()]);
}

#[test]
fn local_recipe_builds_from_its_own_directory() {
    let manager = RecipeManager::new("/srv/recipes");
    let manifest = "name=forge\nversion=7\nimage=local\nprocess_started_indicator=up\nmin_ports=2";
    let (_, image) = manager.build_recipe("/srv/recipes/forge", Some(manifest)).unwrap();
    assert_eq!(image.name, "forge");
    match &image.source {
        ImageSource::Local { path } => assert_eq!(path, "/srv/recipes/forge"),
        ImageSource::Registry => panic!("expected a local build"),
    }
}

#[test]
fn deleting_a_recipe_unlists_its_image() {
    let manager = RecipeManager::new("/srv/recipes");
    let store = apply_provision(&Vec::new(), "mc");
    let plan = manager.delete_recipe(&vec!["mc".to_string()], "mc");
    assert!(plan.remove_dir);
    assert_eq!(plan.prune_name, "mc");
    let (remaining, count) = delete_image(&store, &plan.prune_name);
    assert_eq!(count, 1);
    assert!(list_images(&remaining).is_empty());
}

#[test]
fn deleting_an_absent_recipe_still_prunes_images() {
    let manager = RecipeManager::new("/srv/recipes");
    let plan = manager.delete_recipe(&vec!["factorio".to_string()], "mc");
    assert!(!plan.remove_dir);
    assert_eq!(plan.prune_name, "mc");
    let (remaining, count) = delete_image(&Vec::new(), &plan.prune_name);
    assert_eq!(count, 0);
    assert!(remaining.is_empty());
}

#[test]
fn password_logins_reach_the_development_user() {
    let manager = AuthManager::new("/srv/containers");
    let user = manager.authenticate("anyone", &Some("hunter2".to_string())).unwrap();
    assert_eq!(user.username, "meower");
    assert_eq!(user.root_path, "/srv/containers/anvesh");
    assert_eq!(user.home(), "/srv/containers/anvesh");
    assert!(user.account_enabled());
}

#[test]
fn passwordless_logins_are_unsupported() {
    let manager = AuthManager::new("/srv/containers");
    let e = manager.authenticate("anyone", &None).unwrap_err();
    assert!(matches!(e, AuthError::UnsupportedMethod));
}
