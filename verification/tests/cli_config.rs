use pagina::cli::{parse_args_from_with_config, ColorMode, Config, Subcommand};

fn argv(parts: &[&str]) -> Vec<String> {
    parts.iter().map(|s| s.to_string()).collect()
}

#[test]
fn unknown_config_keys_are_ignored() {
    let cfg = Config::load_from_str("gfm = true\nweird_key = 123\n[other]\nfoo = 1\n");
    assert!(cfg.gfm);
    assert_eq!(cfg.color, ColorMode::Auto);
}

#[test]
fn bad_config_values_fall_back_to_defaults() {
    let cfg = Config::load_from_str("gfm = maybe\ncolor = rainbow\n");
    assert!(!cfg.gfm);
    assert_eq!(cfg.color, ColorMode::Auto);
}

#[test]
fn config_parses_quoted_color_and_comments() {
    let cfg = Config::load_from_str("# comment\ngfm = true # trailing\ncolor = \"always\"\n");
    assert!(cfg.gfm);
    assert_eq!(cfg.color, ColorMode::Always);
}

#[test]
fn local_config_overrides_home_config() {
    // Merge order: home first, local second (local wins).
    let mut cfg = Config::load_from_str("gfm = false\ncolor = \"never\"\n");
    cfg.apply_str("gfm = true\n");
    assert!(cfg.gfm);
    assert_eq!(cfg.color, ColorMode::Never);
}

#[test]
fn cli_color_overrides_config_color() {
    let config = Config::load_from_str("color = \"never\"\n");
    let args = parse_args_from_with_config(
        &argv(&["pagina", "--color=always", "to-html", "a", "b"]),
        &config,
    )
    .expect("parse failed");
    assert_eq!(args.color, ColorMode::Always);
}

#[test]
fn cli_gfm_overrides_config_gfm() {
    let config = Config::default();
    let args =
        parse_args_from_with_config(&argv(&["pagina", "to-html", "--gfm", "a", "b"]), &config)
            .expect("parse failed");
    match args.subcommand {
        Subcommand::ToHtml { gfm, .. } => assert!(gfm),
        _ => panic!("expected to-html"),
    }
}

#[test]
fn config_gfm_applies_without_flag() {
    let config = Config::load_from_str("gfm = true\n");
    let args = parse_args_from_with_config(&argv(&["pagina", "to-md", "a", "b"]), &config)
        .expect("parse failed");
    match args.subcommand {
        Subcommand::ToMd { gfm, .. } => assert!(gfm),
        _ => panic!("expected to-md"),
    }
}
