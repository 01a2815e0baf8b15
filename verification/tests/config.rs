use sunix::config::{config_file_path, expand_home_path, join_path, parse_config};

fn home() -> Option<String> {
    Some("/home/tester".to_string())
}

#[test]
fn parses_required_fields_from_bare_values() {
    let config = parse_config(
        "\
flake_dir=$HOME/workspace/nix-config
home_flake=niri-hdmi
nixos_flake=aorus
",
        "sunix.toml",
        &home(),
    )
    .unwrap();

    assert_eq!(
        config.flake_dir,
        expand_home_path("$HOME/workspace/nix-config", &home())
    );
    assert_eq!(config.flake_dir, "/home/tester/workspace/nix-config");
    assert_eq!(config.home_flake, "niri-hdmi");
    assert_eq!(config.nixos_flake, "aorus");
    assert_eq!(config.home_flake_dir, None);
    assert_eq!(config.nixos_flake_dir, None);
    assert_eq!(config.home_flake_dir(), config.flake_dir.as_str());
    assert_eq!(config.nixos_flake_dir(), config.flake_dir.as_str());
    assert_eq!(config.dix_binary, None);
    assert_eq!(config.style_css, None);
    assert!(!config.show_demo);
}

#[test]
fn parses_required_fields_from_quoted_values() {
    let config = parse_config(
        "\
flake_dir = \"~/workspace/nix-config\"
home_flake = \"niri-hdmi\"
nixos_flake = 'aorus'
",
        "sunix.toml",
        &home(),
    )
    .unwrap();

    assert_eq!(config.flake_dir, expand_home_path("~/workspace/nix-config", &home()));
    assert_eq!(config.home_flake, "niri-hdmi");
    assert_eq!(config.nixos_flake, "aorus");
    assert_eq!(config.home_flake_dir, None);
    assert_eq!(config.nixos_flake_dir, None);
    assert_eq!(config.home_flake_dir(), config.flake_dir.as_str());
    assert_eq!(config.nixos_flake_dir(), config.flake_dir.as_str());
    assert_eq!(config.dix_binary, None);
    assert_eq!(config.style_css, None);
    assert!(!config.show_demo);
}

#[test]
fn parses_optional_flake_dirs() {
    let config = parse_config(
        "\
flake_dir=$HOME/workspace/nix-config
home_flake_dir=$HOME/workspace/home-config
nixos_flake_dir=~/workspace/nixos-config
home_flake=niri-hdmi
nixos_flake=aorus
",
        "sunix.toml",
        &home(),
    )
    .unwrap();

    assert_eq!(
        config.home_flake_dir,
        Some(expand_home_path("$HOME/workspace/home-config", &home()))
    );
    assert_eq!(
        config.nixos_flake_dir,
        Some(expand_home_path("~/workspace/nixos-config", &home()))
    );
    assert_eq!(
        config.home_flake_dir(),
        expand_home_path("$HOME/workspace/home-config", &home()).as_str()
    );
    assert_eq!(
        config.nixos_flake_dir(),
        expand_home_path("~/workspace/nixos-config", &home()).as_str()
    );
}

#[test]
fn ignores_empty_optional_flake_dirs() {
    let config = parse_config(
        "\
flake_dir=$HOME/workspace/nix-config
home_flake_dir=
nixos_flake_dir=
home_flake=niri-hdmi
nixos_flake=aorus
",
        "sunix.toml",
        &home(),
    )
    .unwrap();

    assert_eq!(config.home_flake_dir, None);
    assert_eq!(config.nixos_flake_dir, None);
    assert_eq!(config.home_flake_dir(), config.flake_dir.as_str());
    assert_eq!(config.nixos_flake_dir(), config.flake_dir.as_str());
}

#[test]
fn parses_optional_dix_binary() {
    let config = parse_config(
        "\
flake_dir=$HOME/workspace/nix-config
home_flake=niri-hdmi
nixos_flake=aorus
dix_binary=/nix/store/6ziw66nh8a4b6nwrqmj0n80nsdxz5m61-dix-2.1.0/bin/dix
",
        "sunix.toml",
        &home(),
    )
    .unwrap();

    assert_eq!(
        config.dix_binary,
        Some("/nix/store/6ziw66nh8a4b6nwrqmj0n80nsdxz5m61-dix-2.1.0/bin/dix".to_string())
    );
    assert!(!config.show_demo);
}

#[test]
fn ignores_empty_optional_dix_binary() {
    let config = parse_config(
        "\
flake_dir=$HOME/workspace/nix-config
home_flake=niri-hdmi
nixos_flake=aorus
dix_binary=
",
        "sunix.toml",
        &home(),
    )
    .unwrap();

    assert_eq!(config.dix_binary, None);
    assert!(!config.show_demo);
}

#[test]
fn parses_optional_style_css() {
    let config = parse_config(
        "\
flake_dir=$HOME/workspace/nix-config
home_flake=niri-hdmi
nixos_flake=aorus
style_css=$HOME/.config/sunix/style.css
",
        "sunix.toml",
        &home(),
    )
    .unwrap();

    assert_eq!(
        config.style_css,
        Some(expand_home_path("$HOME/.config/sunix/style.css", &home()))
    );
}

#[test]
fn ignores_empty_optional_style_css() {
    let config = parse_config(
        "\
flake_dir=$HOME/workspace/nix-config
home_flake=niri-hdmi
nixos_flake=aorus
style_css=
",
        "sunix.toml",
        &home(),
    )
    .unwrap();

    assert_eq!(config.style_css, None);
}

#[test]
fn parses_optional_show_demo() {
    let config = parse_config(
        "\
flake_dir=$HOME/workspace/nix-config
home_flake=niri-hdmi
nixos_flake=aorus
show_demo=true
",
        "sunix.toml",
        &home(),
    )
    .unwrap();

    assert!(config.show_demo);
}

#[test]
fn ignores_empty_optional_show_demo() {
    let config = parse_config(
        "\
flake_dir=$HOME/workspace/nix-config
home_flake=niri-hdmi
nixos_flake=aorus
show_demo=
",
        "sunix.toml",
        &home(),
    )
    .unwrap();

    assert!(!config.show_demo);
}

#[test]
fn rejects_invalid_optional_show_demo() {
    let err = parse_config(
        "\
flake_dir=$HOME/workspace/nix-config
home_flake=niri-hdmi
nixos_flake=aorus
show_demo=yes
",
        "sunix.toml",
        &home(),
    )
    .unwrap_err();

    assert!(err.contains("invalid optional `show_demo` value `yes`"));
}

#[test]
fn rejects_missing_fields() {
    let err = parse_config(
        "\
flake_dir=$HOME/workspace/nix-config
home_flake=niri-hdmi
",
        "sunix.toml",
        &home(),
    )
    .unwrap_err();

    assert!(err.contains("missing mandatory `nixos_flake` field"));
}

#[test]
fn rejects_empty_fields() {
    let err = parse_config(
        "\
flake_dir=$HOME/workspace/nix-config
home_flake=
nixos_flake=aorus
",
        "sunix.toml",
        &home(),
    )
    .unwrap_err();

    assert!(err.contains("empty mandatory `home_flake` field"));
}

#[test]
fn strips_comments_outside_quotes() {
    let config = parse_config(
        "# sunix\r\nflake_dir = \"/srv/flake#main\" # the flake\r\nhome_flake=hm # trailing\nnixos_flake=box\nhome_flake=hm2",
        "sunix.toml",
        &None,
    )
    .unwrap();
    assert_eq!(config.flake_dir, "/srv/flake#main");
    assert_eq!(config.home_flake, "hm2");
    assert_eq!(config.nixos_flake, "box");
}

#[test]
fn reports_malformed_lines_with_their_number() {
    let err = parse_config("flake_dir=/x\n\nnot a pair\n", "cfg", &None).unwrap_err();
    assert_eq!(err, "failed to parse cfg:3: expected key=value");
    let err = parse_config("flake_dir=\"/x\n", "cfg", &None).unwrap_err();
    assert_eq!(err, "failed to parse cfg:1: unterminated quoted value");
    let err = parse_config("flake_dir='\n", "cfg", &None).unwrap_err();
    assert_eq!(err, "failed to parse cfg:1: unterminated quoted value");
}

#[test]
fn expands_home_references() {
    let h = home();
    assert_eq!(expand_home_path("~", &h), "/home/tester");
    assert_eq!(expand_home_path("${HOME}", &h), "/home/tester");
    assert_eq!(expand_home_path("${HOME}/a", &h), "/home/tester/a");
    assert_eq!(expand_home_path("~/", &h), "/home/tester/");
    assert_eq!(expand_home_path("~//etc", &h), "/etc");
    assert_eq!(expand_home_path("~user/x", &h), "~user/x");
    assert_eq!(expand_home_path("~/a", &None), "~/a");
    assert_eq!(expand_home_path("~/a", &Some(String::new())), "~/a");
    assert_eq!(expand_home_path("~/a", &Some("/root/".to_string())), "/root/a");
}

#[test]
fn expansion_agrees_with_path_join() {
    for (home, rest) in [("/home/u", "a/b"), ("/home/u/", "a"), ("/h", "/abs"), ("/h", "")] {
        let expected = std::path::PathBuf::from(home).join(rest);
        let got = expand_home_path(&format!("~/{rest}"), &Some(home.to_string()));
        assert_eq!(got, expected.to_string_lossy());
    }
}

#[test]
fn join_path_agrees_with_path_buf_join() {
    for (base, rest) in [
        ("/home/u", "a/b"),
        ("/home/u/", "a"),
        ("/h", "/abs"),
        ("/h", ""),
        ("", "rel"),
        ("", "/abs"),
        ("relative", "x"),
    ] {
        let expected = std::path::PathBuf::from(base).join(rest);
        assert_eq!(join_path(base, rest), expected.to_string_lossy(), "{base} + {rest}");
    }
}

#[test]
fn locates_the_config_file() {
    let some = |s: &str| Some(s.to_string());
    assert_eq!(
        config_file_path(&some("/xdg"), &some("/home/u")),
        Ok("/xdg/sunix/sunix.toml".to_string())
    );
    assert_eq!(
        config_file_path(&some(""), &some("/home/u")),
        Ok("/home/u/.config/sunix/sunix.toml".to_string())
    );
    assert_eq!(
        config_file_path(&None, &some("/home/u/")),
        Ok("/home/u/.config/sunix/sunix.toml".to_string())
    );
    assert_eq!(
        config_file_path(&None, &some("")),
        Err("XDG_CONFIG_HOME is unset and HOME is unset; cannot locate sunix config".to_string())
    );
    assert_eq!(
        config_file_path(&some("/xdg"), &None).map(std::path::PathBuf::from),
        Ok(std::path::PathBuf::from("/xdg").join("sunix").join("sunix.toml"))
    );
}
