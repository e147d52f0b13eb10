use wallpaper::lxde;
use wallpaper::win;
use wallpaper::Mode;

const ALL_MODES: [Mode; 6] = [
    Mode::Center,
    Mode::Crop,
    Mode::Fit,
    Mode::Span,
    Mode::Stretch,
    Mode::Tile,
];

#[test]
fn tile_wallpaper_is_one_only_for_tile() {
    assert_eq!(win::tile_wallpaper_value(Mode::Tile), "1");
    for mode in [Mode::Center, Mode::Crop, Mode::Fit, Mode::Span, Mode::Stretch] {
        assert_eq!(win::tile_wallpaper_value(mode), "0");
    }
}

#[test]
fn wallpaper_style_follows_fixed_table() {
    assert_eq!(win::wallpaper_style_value(Mode::Center), "0");
    assert_eq!(win::wallpaper_style_value(Mode::Tile), "0");
    assert_eq!(win::wallpaper_style_value(Mode::Stretch), "2");
    assert_eq!(win::wallpaper_style_value(Mode::Fit), "6");
    assert_eq!(win::wallpaper_style_value(Mode::Crop), "10");
    assert_eq!(win::wallpaper_style_value(Mode::Span), "22");
}

#[test]
fn wallpaper_style_is_one_of_five_strings() {
    let allowed = ["0", "2", "6", "10", "22"];
    for mode in ALL_MODES {
        assert!(allowed.contains(&win::wallpaper_style_value(mode)));
    }
}

#[test]
fn cli_keywords_follow_fixed_table() {
    assert_eq!(lxde::mode_keyword(Mode::Center), "center");
    assert_eq!(lxde::mode_keyword(Mode::Crop), "crop");
    assert_eq!(lxde::mode_keyword(Mode::Fit), "fit");
    assert_eq!(lxde::mode_keyword(Mode::Span), "screen");
    assert_eq!(lxde::mode_keyword(Mode::Stretch), "stretch");
    assert_eq!(lxde::mode_keyword(Mode::Tile), "tile");
}

#[test]
fn cli_keyword_is_one_of_the_vocabulary() {
    let vocabulary = ["center", "crop", "fit", "screen", "stretch", "tile"];
    for mode in ALL_MODES {
        let invocation = lxde::set_mode(mode);
        assert_eq!(invocation.program, "pcmanfm");
        assert_eq!(invocation.args.len(), 2);
        assert_eq!(invocation.args[0], "--wallpaper-mode");
        assert!(vocabulary.contains(&invocation.args[1].as_str()));
    }
}

#[test]
fn span_maps_to_screen_not_span() {
    let invocation = lxde::set_mode(Mode::Span);
    assert_eq!(
        invocation.args,
        vec!["--wallpaper-mode".to_string(), "screen".to_string()]
    );
    for mode in ALL_MODES {
        assert_ne!(lxde::set_mode(mode).args[1], "span");
    }
}

#[test]
fn set_builds_pcmanfm_command() {
    let invocation = lxde::set("/tmp/x.png");
    assert_eq!(invocation.program, "pcmanfm");
    assert_eq!(
        invocation.args,
        vec!["-w".to_string(), "/tmp/x.png".to_string()]
    );
}
