use mastiff_backend::errors::RecipeError;
use mastiff_backend::manifest::ImageType;
use mastiff_backend::manifest::Recipe;

fn full_manifest() -> String {
    [
        "name=mc",
        "version=1",
        "image=registry:itzg/minecraft-server",
        "process_started_indicator=Done",
        "process_ended_indicator=Stopped",
        "process_stop_cmd=stop",
        "min_ports=1",
        "config_path=server.properties",
    ]
    .join("\n")
}

#[test]
fn parses_every_field() {
    let recipe = Recipe::parse(&full_manifest()).unwrap();
    assert_eq!(recipe.name, "mc");
    assert_eq!(recipe.version, "1");
    match &recipe.image {
        ImageType::Registry(reference) => assert_eq!(reference, "itzg/minecraft-server"),
        ImageType::Local => panic!("expected a registry image"),
    }
    assert_eq!(recipe.process_started_indicator, "Done");
    assert_eq!(recipe.process_ended_indicator.as_deref(), Some("Stopped"));
    assert_eq!(recipe.process_stop_cmd.as_deref(), Some("stop"));
    assert_eq!(recipe.min_ports, 1);
    assert_eq!(recipe.config_path.as_deref(), Some("server.properties"));
}

#[test]
fn parses_minimal_manifest_with_local_image() {
    let recipe =
        Recipe::parse("name=forge\nversion=2\nimage=local\nprocess_started_indicator=up\nmin_ports=3")
            .unwrap();
    assert_eq!(recipe.name, "forge");
    assert!(matches!(recipe.image, ImageType::Local));
    assert_eq!(recipe.min_ports, 3);
    assert_eq!(recipe.process_started_indicator, "up");
    assert_eq!(recipe.process_ended_indicator, None);
    assert_eq!(recipe.process_stop_cmd, None);
    assert_eq!(recipe.config_path, None);
}

#[test]
fn skips_blank_lines() {
    let recipe = Recipe::parse("\nname=mc\n\nversion=1\nimage=local\nprocess_started_indicator=up\nmin_ports=0\n").unwrap();
    assert_eq!(recipe.name, "mc");
    assert_eq!(recipe.min_ports, 0);
}

#[test]
fn later_binding_overwrites_earlier() {
    let recipe = Recipe::parse("name=a\nname=b\nversion=1\nimage=local\nprocess_started_indicator=up\nmin_ports=2").unwrap();
    assert_eq!(recipe.name, "b");
}

#[test]
fn value_may_contain_equals_sign() {
    let recipe =
        Recipe::parse("name=mc\nversion=1\nimage=local\nprocess_started_indicator=up\nmin_ports=1\nprocess_stop_cmd=say a=b")
            .unwrap();
    assert_eq!(recipe.process_stop_cmd.as_deref(), Some("say a=b"));
}

#[test]
fn empty_text_is_a_parse_error() {
    assert!(matches!(Recipe::parse(""), Err(RecipeError::ManifestParse(_))));
}

#[test]
fn missing_name_is_a_parse_error() {
    let e = Recipe::parse("version=1\nimage=local\nprocess_started_indicator=up\nmin_ports=1").unwrap_err();
    assert!(matches!(e, RecipeError::ManifestParse(_)));
}

#[test]
fn missing_version_is_a_parse_error() {
    assert!(Recipe::parse("name=mc\nimage=local\nprocess_started_indicator=up\nmin_ports=1").is_err());
}

#[test]
fn missing_image_is_a_parse_error() {
    assert!(Recipe::parse("name=mc\nversion=1\nprocess_started_indicator=up\nmin_ports=1").is_err());
}

#[test]
fn missing_process_started_indicator_is_a_parse_error() {
    let e = Recipe::parse("name=mc\nversion=1\nimage=local\nmin_ports=1").unwrap_err();
    assert!(matches!(e, RecipeError::ManifestParse(_)));
}

#[test]
fn missing_min_ports_is_a_parse_error() {
    assert!(Recipe::parse("name=mc\nversion=1\nimage=local\nprocess_started_indicator=up").is_err());
}

#[test]
fn empty_name_is_a_parse_error() {
    assert!(Recipe::parse("name=\nversion=1\nimage=local\nprocess_started_indicator=up\nmin_ports=1").is_err());
}

#[test]
fn unknown_key_is_a_parse_error() {
    assert!(Recipe::parse("name=mc\nversion=1\nimage=local\nprocess_started_indicator=up\nmin_ports=1\ncolour=red").is_err());
}

#[test]
fn line_without_equals_is_a_parse_error() {
    assert!(Recipe::parse("name=mc\nversion=1\nimage=local\nprocess_started_indicator=up\nmin_ports=1\nnonsense").is_err());
}

#[test]
fn registry_image_needs_a_reference() {
    assert!(Recipe::parse("name=mc\nversion=1\nimage=registry:\nprocess_started_indicator=up\nmin_ports=1").is_err());
}

#[test]
fn unrecognised_image_value_is_a_parse_error() {
    assert!(Recipe::parse("name=mc\nversion=1\nimage=cloud\nprocess_started_indicator=up\nmin_ports=1").is_err());
}

#[test]
fn min_ports_must_be_digits() {
    assert!(Recipe::parse("name=mc\nversion=1\nimage=local\nprocess_started_indicator=up\nmin_ports=two").is_err());
    assert!(Recipe::parse("name=mc\nversion=1\nimage=local\nprocess_started_indicator=up\nmin_ports=-1").is_err());
    assert!(Recipe::parse("name=mc\nversion=1\nimage=local\nprocess_started_indicator=up\nmin_ports=").is_err());
}

#[test]
fn min_ports_larger_than_the_machine_word_is_rejected() {
    let text =
        "name=mc\nversion=1\nimage=local\nprocess_started_indicator=up\nmin_ports=99999999999999999999999999999999";
    assert!(Recipe::parse(text).is_err());
}

#[test]
fn min_ports_parses_multi_digit_values() {
    let recipe = Recipe::parse("name=mc\nversion=1\nimage=local\nprocess_started_indicator=up\nmin_ports=1024").unwrap();
    assert_eq!(recipe.min_ports, 1024);
}
