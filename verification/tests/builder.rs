use river_rs::colors::Colors;
use river_rs::config::{
    keyboard_layout_call, Config, ConfigError, Keybind, KeyboardLayout, TAG_COUNT,
};
use river_rs::invocation::Invocation;
use river_rs::layout::Layout;

fn call(program: &str, args: &[&str]) -> Invocation {
    Invocation {
        program: program.to_string(),
        args: args.iter().map(|arg| arg.to_string()).collect(),
    }
}

fn control(args: &[&str]) -> Invocation {
    call("riverctl", args)
}

fn triples(keybinds: &[Keybind]) -> Vec<(String, String, String)> {
    keybinds
        .iter()
        .map(|keybind| {
            (
                keybind.modifier().to_string(),
                keybind.keymap().to_string(),
                keybind.command().to_string(),
            )
        })
        .collect()
}

fn triple(modifier: &str, keymap: &str, command: &str) -> (String, String, String) {
    (modifier.to_string(), keymap.to_string(), command.to_string())
}

#[test]
fn create_config() {
    let mut config: Config = Config::default();
    let autostart = vec!["waybar -c ~/.config/waybar/riverconfig"];
    let layout: KeyboardLayout<&str> = KeyboardLayout {
        rules: None,
        model: None,
        variant: Some("colemak_dh_wide_iso,"),
        options: Some("grp:toggle,ctrl:nocaps"),
        layout: Some("us,ru"),
    };
    let keybinds = vec![
        ["Q", "spawn ghostty"],
        ["C", "close"],
        ["J", "focus-view next"],
        ["K", "focus-view previous"],
        ["M", "spawn wlogout"],
        ["B", "spawn zen-browser"],
    ];
    let shift_keybinds = vec![["E", "exit"], ["J", "swap next"], ["K", "swap previous"]];
    config
        .set_keybinds(keybinds)
        .set_mouse_keybinds(Some("move-view"), Some("resize-view"), None)
        .change_super("Super+Shift")
        .set_keybinds(shift_keybinds)
        .set_tags("Super", "Super+Shift")
        .set_keyboard_layout(layout)
        .autostart(autostart);
    println!("{:?}", config.keybinds());

    let recorded = triples(config.keybinds());
    assert_eq!(recorded.len(), 6 + 3 + 18);
    assert_eq!(recorded[0], triple("Super", "Q", "spawn ghostty"));
    assert_eq!(recorded[5], triple("Super", "B", "spawn zen-browser"));
    assert_eq!(recorded[6], triple("Super+Shift", "E", "exit"));
    assert_eq!(recorded[8], triple("Super+Shift", "K", "swap previous"));
    assert_eq!(recorded[9], triple("Super", "1", "set-focused-tags 1"));
    assert_eq!(recorded[26], triple("Super+Shift", "9", "set-view-tags 256"));
    assert_eq!(
        config.issued(),
        &vec![
            control(&["map-pointer", "normal", "Super", "BTN_LEFT", "move-view"]),
            control(&["map-pointer", "normal", "Super", "BTN_RIGHT", "resize-view"]),
            control(&[
                "keyboard-layout",
                "-rules",
                "",
                "-model",
                "",
                "-variant",
                "colemak_dh_wide_iso,",
                "-options",
                "grp:toggle,ctrl:nocaps",
                "us,ru",
            ]),
            control(&["spawn", "waybar -c ~/.config/waybar/riverconfig"]),
        ]
    );
}

#[test]
fn default_config() {
    let config = Config::default();
    assert!(config.keybinds().is_empty());
    assert!(config.issued().is_empty());
    assert_eq!(config.modifier(), "Super");
    assert_eq!(config.colors(), &Colors::default());
    assert_eq!(config.layout(), &Layout::default());
}

#[test]
fn set_keybind_appends_one_record() {
    let mut config = Config::default();
    let key = String::from("Q");
    let command = String::from("spanw foo");
    config.set_keybind(&key, &command);
    assert_eq!(triples(config.keybinds()), vec![triple("Super", "Q", "spanw foo")]);
    assert!(config.issued().is_empty());
}

#[test]
fn set_keybind_accepts_a_blank_command() {
    let mut config = Config::default();
    config.set_keybind("Q", "   ");
    assert_eq!(triples(config.keybinds()), vec![triple("Super", "Q", "   ")]);
}

#[test]
fn set_keybinds_appends_each_pair_in_order() {
    let mut config = Config::default();
    config.set_keybind("A", "first");
    let keybinds = vec![["Q", "spawn foo"], ["E", "exit"], ["M", "spawn bruh"]];
    config.set_keybinds(keybinds);
    assert_eq!(
        triples(config.keybinds()),
        vec![
            triple("Super", "A", "first"),
            triple("Super", "Q", "spawn foo"),
            triple("Super", "E", "exit"),
            triple("Super", "M", "spawn bruh"),
        ]
    );
}

#[test]
fn set_keybinds_with_no_pairs_changes_nothing() {
    let mut config = Config::default();
    config.set_keybind("A", "first").set_keybinds(Vec::new());
    assert_eq!(triples(config.keybinds()), vec![triple("Super", "A", "first")]);
}

#[test]
fn set_keybinds_counts() {
    let mut n: usize = 0;
    while n < 20 {
        let mut config = Config::default();
        config.change_super("Alt");
        let pairs: Vec<[&str; 2]> = (0..n).map(|_| ["X", "close"]).collect();
        config.set_keybinds(pairs);
        assert_eq!(config.keybinds().len(), n);
        assert!(config.keybinds().iter().all(|keybind| keybind.modifier() == "Alt"));
        n += 1;
    }
}

#[test]
fn set_keybinds_is_repeated_set_keybind() {
    let pairs = vec![["C", "close"], ["J", "focus-view next"], ["K", "focus-view previous"]];
    let mut bulk = Config::default();
    bulk.set_keybinds(pairs.clone());
    let mut single = Config::default();
    for pair in &pairs {
        single.set_keybind(pair[0], pair[1]);
    }
    assert_eq!(triples(bulk.keybinds()), triples(single.keybinds()));
}

#[test]
fn change_super_leaves_earlier_keybinds() {
    let mut config = Config::default();
    let keybinds = vec![["C", "close"], ["J", "focus-view next"], ["K", "focus-view previous"]];
    let shift_keybinds = vec![["E", "exit"], ["J", "swap next"], ["K", "swap previous"]];
    config.set_keybinds(keybinds);
    let before = triples(config.keybinds());
    config.change_super("Super+Shift");
    assert_eq!(config.modifier(), "Super+Shift");
    assert_eq!(triples(config.keybinds()), before);
    config.set_keybinds(shift_keybinds);
    let after = triples(config.keybinds());
    assert_eq!(&after[..3], &before[..]);
    assert_eq!(
        &after[3..],
        &[
            triple("Super+Shift", "E", "exit"),
            triple("Super+Shift", "J", "swap next"),
            triple("Super+Shift", "K", "swap previous"),
        ]
    );
}

#[test]
fn set_tags_makes_two_keybinds_for_each_tag() {
    let mut config = Config::default();
    config.set_keybind("Q", "close").set_tags("Super", "Super+Shift");
    let recorded = triples(config.keybinds());
    assert_eq!(TAG_COUNT, 9);
    assert_eq!(recorded.len(), 1 + 2 * 9);
    assert_eq!(recorded[0], triple("Super", "Q", "close"));
    let mut index: u32 = 0;
    while index < 9 {
        let key = (index + 1).to_string();
        let mask = 2_u32.pow(index);
        let at = 1 + 2 * index as usize;
        assert_eq!(recorded[at], triple("Super", &key, &format!("set-focused-tags {}", mask)));
        assert_eq!(
            recorded[at + 1],
            triple("Super+Shift", &key, &format!("set-view-tags {}", mask))
        );
        index += 1;
    }
}

#[test]
fn set_tags_exact_values() {
    let mut config = Config::default();
    config.set_tags("Alt", "Alt+Control");
    let recorded = triples(config.keybinds());
    assert_eq!(recorded[0], triple("Alt", "1", "set-focused-tags 1"));
    assert_eq!(recorded[1], triple("Alt+Control", "1", "set-view-tags 1"));
    assert_eq!(recorded[2], triple("Alt", "2", "set-focused-tags 2"));
    assert_eq!(recorded[7], triple("Alt+Control", "4", "set-view-tags 8"));
    assert_eq!(recorded[16], triple("Alt", "9", "set-focused-tags 256"));
    assert_eq!(recorded[17], triple("Alt+Control", "9", "set-view-tags 256"));
}

#[test]
fn set_tags_ignores_the_current_modifier() {
    let mut config = Config::default();
    config.change_super("Mod3").set_tags("Super", "Super+Shift");
    assert_eq!(config.modifier(), "Mod3");
    assert!(config.keybinds().iter().all(|keybind| keybind.modifier() != "Mod3"));
}

#[test]
fn apply_keybind_builds_the_map_call() {
    let mut config = Config::default();
    config.set_keybind("J", "  focus-view \t next ");
    let keybind = &config.keybinds()[0];
    assert_eq!(
        config.apply_keybind(keybind),
        Ok(control(&["map", "normal", "Super", "J", "focus-view", "next"]))
    );
}

#[test]
fn apply_keybind_with_one_word() {
    let mut config = Config::default();
    config.change_super("Super+Shift").set_keybind("E", "exit");
    assert_eq!(
        config.apply_keybind(&config.keybinds()[0]),
        Ok(control(&["map", "normal", "Super+Shift", "E", "exit"]))
    );
}

#[test]
fn apply_keybind_rejects_a_command_without_words() {
    let mut config = Config::default();
    config.set_keybind("Q", "").set_keybind("W", " \t ");
    assert_eq!(config.apply_keybind(&config.keybinds()[0]), Err(ConfigError::EmptyCommand));
    assert_eq!(config.apply_keybind(&config.keybinds()[1]), Err(ConfigError::EmptyCommand));
}

#[test]
fn apply_issues_keybinds_before_the_layout() {
    let mut config = Config::default();
    config.set_keybind("Q", "spawn foo");
    assert_eq!(config.apply(), Ok(()));
    assert_eq!(
        config.issued(),
        &vec![
            control(&["map", "normal", "Super", "Q", "spawn", "foo"]),
            control(&["default-layout", "rivertile"]),
            call("rivertile", &["-view-padding", "6", "-outer-padding", "6"]),
        ]
    );
    let maps = config
        .issued()
        .iter()
        .filter(|issued| issued.args.first().map(String::as_str) == Some("map"))
        .count();
    assert_eq!(maps, 1);
    assert_eq!(triples(config.keybinds()), vec![triple("Super", "Q", "spawn foo")]);
}

#[test]
fn apply_without_keybinds_spawns_the_layout() {
    let mut config = Config::default();
    assert_eq!(config.apply(), Ok(()));
    assert_eq!(config.take_issued(), Layout::default().spawn());
}

#[test]
fn apply_keeps_insertion_order() {
    let mut config = Config::default();
    config
        .set_keybinds(vec![["J", "focus-view next"], ["K", "focus-view previous"]])
        .change_super("Super+Shift")
        .set_keybinds(vec![["J", "swap next"]])
        .set_keybind("J", "zoom");
    assert_eq!(config.apply(), Ok(()));
    assert_eq!(
        &config.issued()[..4],
        &[
            control(&["map", "normal", "Super", "J", "focus-view", "next"]),
            control(&["map", "normal", "Super", "K", "focus-view", "previous"]),
            control(&["map", "normal", "Super+Shift", "J", "swap", "next"]),
            control(&["map", "normal", "Super+Shift", "J", "zoom"]),
        ]
    );
    assert_eq!(config.issued().len(), 6);
}

#[test]
fn apply_stops_at_a_keybind_without_action() {
    let mut config = Config::default();
    config.set_keybinds(vec![["Q", "close"], ["W", "  "], ["E", "exit"]]);
    assert_eq!(config.apply(), Err(ConfigError::EmptyCommand));
    assert_eq!(config.issued(), &vec![control(&["map", "normal", "Super", "Q", "close"])]);
    assert_eq!(config.keybinds().len(), 3);
}

#[test]
fn apply_fails_at_once_where_the_first_keybind_is_empty() {
    let mut config = Config::default();
    config.set_keybind("Q", "");
    assert_eq!(config.apply(), Err(ConfigError::EmptyCommand));
    assert!(config.issued().is_empty());
}

#[test]
fn apply_twice_issues_twice() {
    let mut config = Config::default();
    config.set_keybind("Q", "close");
    assert_eq!(config.apply(), Ok(()));
    let once = config.issued().clone();
    assert_eq!(config.apply(), Ok(()));
    let mut twice = once.clone();
    twice.extend(once);
    assert_eq!(config.issued(), &twice);
}

#[test]
fn apply_sets_colors_where_asked() {
    let mut config = Config::default();
    config.set_keybind("Q", "close").set_apply_colors(true);
    assert_eq!(config.apply(), Ok(()));
    assert_eq!(
        config.issued(),
        &vec![
            control(&["map", "normal", "Super", "Q", "close"]),
            control(&["background-color", "0x002B36"]),
            control(&["border-color-focused", "0x93A1A1"]),
            control(&["border-color-unfocused", "0x586E75"]),
            control(&["default-layout", "rivertile"]),
            call("rivertile", &["-view-padding", "6", "-outer-padding", "6"]),
        ]
    );
}

#[test]
fn apply_leaves_colors_alone_by_default() {
    let mut config = Config::default();
    config.set_apply_colors(true).set_apply_colors(false);
    assert_eq!(config.apply(), Ok(()));
    assert_eq!(config.issued().len(), 2);
}

#[test]
fn apply_sets_no_colors_after_a_failure() {
    let mut config = Config::default();
    config.set_apply_colors(true).set_keybind("Q", " ");
    assert_eq!(config.apply(), Err(ConfigError::EmptyCommand));
    assert!(config.issued().is_empty());
}

#[test]
fn apply_colors_formats_the_palette() {
    let mut colors = Colors::default();
    colors
        .set_background_color(0xabcdef)
        .set_border_color_focused(0x1)
        .set_border_color_unfocused(0xff00_00ff);
    let mut config = Config::default();
    config.set_colors(colors).apply_colors();
    assert_eq!(config.colors(), &colors);
    assert_eq!(
        config.issued(),
        &vec![
            control(&["background-color", "0xABCDEF"]),
            control(&["border-color-focused", "0x000001"]),
            control(&["border-color-unfocused", "0x0000FF"]),
        ]
    );
}

#[test]
fn apply_uses_the_chosen_layout() {
    let mut layout = Layout::default();
    layout.set_generator("wideriver").set_args("--layout left --stack dwindle");
    let mut config = Config::default();
    config.set_layout_generator(layout.clone());
    assert_eq!(config.layout(), &layout);
    assert_eq!(config.apply(), Ok(()));
    assert_eq!(
        config.issued(),
        &vec![
            control(&["default-layout", "wideriver"]),
            call("wideriver", &["--layout", "left", "--stack", "dwindle"]),
        ]
    );
}

#[test]
fn mouse_keybinds_are_issued_in_order() {
    let mut config = Config::default();
    config.set_mouse_keybinds(Some("move-view"), Some("resize-view"), Some("toggle-float"));
    assert_eq!(
        config.issued(),
        &vec![
            control(&["map-pointer", "normal", "Super", "BTN_LEFT", "move-view"]),
            control(&["map-pointer", "normal", "Super", "BTN_RIGHT", "resize-view"]),
            control(&["map-pointer", "normal", "Super", "BTN_MIDDLE", "toggle-float"]),
        ]
    );
    assert!(config.keybinds().is_empty());
}

#[test]
fn mouse_keybinds_are_optional() {
    let mut config = Config::default();
    config.set_mouse_keybinds(None, None, None);
    assert!(config.issued().is_empty());
    config.change_super("Alt").set_mouse_keybinds(None, None, Some("toggle-float now"));
    assert_eq!(
        config.issued(),
        &vec![control(&["map-pointer", "normal", "Alt", "BTN_MIDDLE", "toggle-float now"])]
    );
    config.set_mouse_keybinds(None, Some("resize-view"), None);
    assert_eq!(
        config.issued()[1],
        control(&["map-pointer", "normal", "Alt", "BTN_RIGHT", "resize-view"])
    );
    assert_eq!(config.issued().len(), 2);
}

#[test]
fn set_repeat_writes_decimal_numbers() {
    let mut config = Config::default();
    config.set_repeat(50, 300).set_repeat(0, 4294967295);
    assert_eq!(
        config.issued(),
        &vec![control(&["set-repeat", "50", "300"]), control(&["set-repeat", "0", "4294967295"])]
    );
}

#[test]
fn keyboard_layout_with_every_setting() {
    let mut config = Config::default();
    config.set_keyboard_layout(KeyboardLayout {
        rules: Some("evdev"),
        model: Some("pc105"),
        variant: Some("dvorak"),
        options: Some("ctrl:nocaps"),
        layout: Some("us"),
    });
    assert_eq!(
        config.issued(),
        &vec![control(&[
            "keyboard-layout",
            "-rules",
            "evdev",
            "-model",
            "pc105",
            "-variant",
            "dvorak",
            "-options",
            "ctrl:nocaps",
            "us",
        ])]
    );
}

#[test]
fn keyboard_layout_with_the_layout_alone() {
    let mut config = Config::default();
    config.set_keyboard_layout(KeyboardLayout {
        rules: None,
        model: None,
        variant: None,
        options: None,
        layout: Some("de"),
    });
    assert_eq!(
        config.issued(),
        &vec![control(&[
            "keyboard-layout",
            "-rules",
            "",
            "-model",
            "",
            "-variant",
            "",
            "-options",
            "",
            "de",
        ])]
    );
}

#[test]
fn layout_keybinds_name_the_current_generator() {
    let mut layout = Layout::default();
    layout.set_generator("wideriver");
    let mut config = Config::default();
    config
        .set_layout_keybinds(vec![["H", "main-ratio -0.05"]])
        .set_layout_generator(layout)
        .change_super("Super+Alt")
        .set_layout_keybinds(vec![["L", "main-ratio +0.05"], ["K", "main-count +1"]]);
    assert_eq!(
        config.issued(),
        &vec![
            control(&[
                "map",
                "normal",
                "Super",
                "H",
                "send-layout-cmd",
                "rivertile",
                "main-ratio -0.05",
            ]),
            control(&[
                "map",
                "normal",
                "Super+Alt",
                "L",
                "send-layout-cmd",
                "wideriver",
                "main-ratio +0.05",
            ]),
            control(&[
                "map",
                "normal",
                "Super+Alt",
                "K",
                "send-layout-cmd",
                "wideriver",
                "main-count +1",
            ]),
        ]
    );
    assert!(config.keybinds().is_empty());
}

#[test]
fn autostart_spawns_each_program_in_order() {
    let autostart = vec!["firefox", "kitty"];
    let mut config = Config::default();
    config.autostart(autostart).autostart(Vec::new());
    assert_eq!(
        config.issued(),
        &vec![control(&["spawn", "firefox"]), control(&["spawn", "kitty"])]
    );
}

#[test]
fn take_issued_hands_out_and_forgets() {
    let mut config = Config::default();
    config.set_keybind("Q", "close").set_repeat(40, 250).autostart(vec!["foot"]);
    let taken = config.take_issued();
    assert_eq!(taken, vec![control(&["set-repeat", "40", "250"]), control(&["spawn", "foot"])]);
    assert!(config.issued().is_empty());
    assert!(config.take_issued().is_empty());
    assert_eq!(triples(config.keybinds()), vec![triple("Super", "Q", "close")]);
    config.set_repeat(1, 2);
    assert_eq!(config.take_issued(), vec![control(&["set-repeat", "1", "2"])]);
}

#[test]
fn chained_example() {
    let mut config = Config::default();
    let keybinds = vec![["C", "close"], ["J", "focus-view next"], ["K", "focus-view previous"]];
    let shift_keybinds = vec![["E", "exit"], ["J", "swap next"], ["K", "swap previous"]];
    config
        .set_keybinds(keybinds)
        .change_super("Super+Shift")
        .set_keybinds(shift_keybinds)
        .apply()
        .unwrap();
    assert_eq!(config.issued().len(), 8);
    assert_eq!(config.issued()[5], control(&["map", "normal", "Super+Shift", "K", "swap", "previous"]));
}

#[test]
fn keyboard_layout_call_needs_a_layout() {
    let settings: KeyboardLayout<&str> = KeyboardLayout {
        rules: Some("evdev"),
        model: Some("pc105"),
        variant: Some("dvorak"),
        options: Some("ctrl:nocaps"),
        layout: None,
    };
    assert_eq!(keyboard_layout_call(&settings), Err(ConfigError::MissingLayout));
}

#[test]
fn keyboard_layout_call_with_some_settings() {
    let settings: KeyboardLayout<&str> = KeyboardLayout {
        rules: None,
        model: Some("pc104"),
        variant: None,
        options: None,
        layout: Some("us,ru"),
    };
    assert_eq!(
        keyboard_layout_call(&settings),
        Ok(control(&[
            "keyboard-layout",
            "-rules",
            "",
            "-model",
            "pc104",
            "-variant",
            "",
            "-options",
            "",
            "us,ru",
        ]))
    );
}
