use pagina::cli::{
    parse_args_from_with_config, render_error, render_help, ColorMode, Config, Subcommand,
};
use pagina::error::Error;

fn argv(parts: &[&str]) -> Vec<String> {
    parts.iter().map(|s| s.to_string()).collect()
}

fn default_cfg() -> Config {
    Config::default()
}

#[test]
fn no_args_yields_help() {
    let args = parse_args_from_with_config(&argv(&["pagina"]), &default_cfg()).unwrap();
    assert!(matches!(args.subcommand, Subcommand::Help));
    assert_eq!(args.color, ColorMode::Auto);
}

#[test]
fn to_html_positionals() {
    let args = parse_args_from_with_config(
        &argv(&["pagina", "to-html", "in.md", "out.html"]),
        &default_cfg(),
    )
    .unwrap();
    match args.subcommand {
        Subcommand::ToHtml { input, output, gfm } => {
            assert_eq!(input, "in.md");
            assert_eq!(output, "out.html");
            assert!(!gfm);
        }
        _ => panic!("expected to-html"),
    }
}

#[test]
fn to_md_positionals() {
    let args = parse_args_from_with_config(
        &argv(&["pagina", "to-md", "in.html", "out.md"]),
        &default_cfg(),
    )
    .unwrap();
    match args.subcommand {
        Subcommand::ToMd { input, output, gfm } => {
            assert_eq!(input, "in.html");
            assert_eq!(output, "out.md");
            assert!(!gfm);
        }
        _ => panic!("expected to-md"),
    }
}

#[test]
fn gfm_accepted_before_and_after_positionals() {
    for extra in [
        vec!["pagina", "to-html", "--gfm", "a", "b"],
        vec!["pagina", "to-html", "a", "b", "--gfm"],
        vec!["pagina", "to-html", "a", "--gfm", "b"],
    ] {
        let args = parse_args_from_with_config(&argv(&extra), &default_cfg()).unwrap();
        match args.subcommand {
            Subcommand::ToHtml { gfm, .. } => assert!(gfm, "gfm missing for {:?}", extra),
            _ => panic!("expected to-html"),
        }
    }
}

#[test]
fn help_and_version_aliases() {
    for flag in ["--help", "-h", "help"] {
        let args = parse_args_from_with_config(&argv(&["pagina", flag]), &default_cfg()).unwrap();
        assert!(matches!(args.subcommand, Subcommand::Help), "flag {}", flag);
    }
    for flag in ["--version", "-v", "version"] {
        let args = parse_args_from_with_config(&argv(&["pagina", flag]), &default_cfg()).unwrap();
        assert!(
            matches!(args.subcommand, Subcommand::Version),
            "flag {}",
            flag
        );
    }
}

#[test]
fn invalid_subcommand_errors() {
    let err = parse_args_from_with_config(&argv(&["pagina", "frobnicate"]), &default_cfg())
        .expect_err("expected error");
    assert!(matches!(err, Error::InvalidSubcommand(_)));
}

#[test]
fn missing_positionals_error() {
    let err =
        parse_args_from_with_config(&argv(&["pagina", "to-html", "only-one"]), &default_cfg())
            .expect_err("expected error");
    assert!(matches!(err, Error::MissingArgument(_)));
}

// ---------------------------------------------------------------------------
// --color flag
// ---------------------------------------------------------------------------

#[test]
fn color_eq_forms_all_modes() {
    for (raw, expected) in [
        ("--color=auto", ColorMode::Auto),
        ("--color=always", ColorMode::Always),
        ("--color=never", ColorMode::Never),
    ] {
        // Global position (before subcommand).
        let args = parse_args_from_with_config(
            &argv(&["pagina", raw, "to-html", "a", "b"]),
            &default_cfg(),
        )
        .unwrap();
        assert_eq!(args.color, expected, "global {}", raw);
        // Per-subcommand position (after subcommand).
        let args = parse_args_from_with_config(
            &argv(&["pagina", "to-html", raw, "a", "b"]),
            &default_cfg(),
        )
        .unwrap();
        assert_eq!(args.color, expected, "local {}", raw);
    }
}

#[test]
fn color_space_form() {
    let args = parse_args_from_with_config(
        &argv(&["pagina", "--color", "never", "to-html", "a", "b"]),
        &default_cfg(),
    )
    .unwrap();
    assert_eq!(args.color, ColorMode::Never);

    let args = parse_args_from_with_config(
        &argv(&["pagina", "to-md", "--color", "always", "a", "b"]),
        &default_cfg(),
    )
    .unwrap();
    assert_eq!(args.color, ColorMode::Always);
}

#[test]
fn color_case_insensitive() {
    let args = parse_args_from_with_config(
        &argv(&["pagina", "--color=ALWAYS", "to-html", "a", "b"]),
        &default_cfg(),
    )
    .unwrap();
    assert_eq!(args.color, ColorMode::Always);
}

#[test]
fn invalid_color_value_errors() {
    for extra in [
        vec!["pagina", "--color=rainbow", "to-html", "a", "b"],
        vec!["pagina", "to-html", "--color", "rainbow", "a", "b"],
    ] {
        let err =
            parse_args_from_with_config(&argv(&extra), &default_cfg()).expect_err("expected error");
        assert!(matches!(err, Error::InvalidInput(_)), "args {:?}", extra);
    }
}

#[test]
fn missing_color_value_errors() {
    let err = parse_args_from_with_config(&argv(&["pagina", "to-html", "--color"]), &default_cfg())
        .expect_err("expected error");
    assert!(matches!(err, Error::MissingArgument(_)));
}

// ---------------------------------------------------------------------------
// Config: pure precedence and tolerance
// ---------------------------------------------------------------------------

#[test]
fn config_gfm_flows_into_parse() {
    let config = Config::load_from_str("gfm = true\n");
    let args =
        parse_args_from_with_config(&argv(&["pagina", "to-html", "a", "b"]), &config).unwrap();
    match args.subcommand {
        Subcommand::ToHtml { gfm, .. } => assert!(gfm),
        _ => panic!("expected to-html"),
    }
}

#[test]
fn cli_gfm_flag_wins_over_config_false() {
    let config = Config::load_from_str("gfm = false\n");
    let args = parse_args_from_with_config(&argv(&["pagina", "to-md", "--gfm", "a", "b"]), &config)
        .unwrap();
    match args.subcommand {
        Subcommand::ToMd { gfm, .. } => assert!(gfm),
        _ => panic!("expected to-md"),
    }
}

#[test]
fn cli_color_wins_over_config_color() {
    let config = Config::load_from_str("color = \"never\"\n");
    let args = parse_args_from_with_config(
        &argv(&["pagina", "--color=always", "to-html", "a", "b"]),
        &config,
    )
    .unwrap();
    assert_eq!(args.color, ColorMode::Always);
}

#[test]
fn config_color_used_when_flag_absent() {
    let config = Config::load_from_str("color = always\n");
    let args =
        parse_args_from_with_config(&argv(&["pagina", "to-html", "a", "b"]), &config).unwrap();
    assert_eq!(args.color, ColorMode::Always);
}

#[test]
fn config_unknown_keys_and_bad_values_ignored() {
    let cfg = Config::load_from_str(
        "gfm = true\nbogus_key = 123\ncolor = \"rainbow\"\n[table]\nfoo = 1\nno-equals-line\n",
    );
    assert!(cfg.gfm);
    // Bad color falls back to default instead of erroring.
    assert_eq!(cfg.color, ColorMode::Auto);
}

#[test]
fn help_never_has_no_escapes() {
    let text = render_help(ColorMode::Never, true);
    assert!(!text.contains('\x1b'), "never must be plain");
    assert!(text.contains("USAGE:"));
    assert!(text.contains("--color="));
    assert!(text.contains("pagina.toml"));
}

#[test]
fn help_always_has_escapes_even_when_piped() {
    let text = render_help(ColorMode::Always, false);
    assert!(text.contains('\x1b'), "always must colorize");
}

#[test]
fn help_auto_follows_tty() {
    assert!(!render_help(ColorMode::Auto, false).contains('\x1b'));
    assert!(render_help(ColorMode::Auto, true).contains('\x1b'));
}

#[test]
fn error_rendering_respects_color() {
    let err = Error::InvalidSubcommand("nope".to_string());
    assert!(!render_error(&err, ColorMode::Never, true).contains('\x1b'));
    assert!(render_error(&err, ColorMode::Always, false).contains('\x1b'));
    // Message body survives in both modes.
    assert!(render_error(&err, ColorMode::Never, false).contains("nope"));
}

