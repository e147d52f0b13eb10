use wallpaper::from_url;
use wallpaper::lxde;
use wallpaper::win;

#[test]
fn fallback_session_is_lxde() {
    assert_eq!(
        lxde::config_relative_path(None),
        "pcmanfm/LXDE/desktop-items-0.conf"
    );
}

#[test]
fn session_name_is_inserted_into_config_path() {
    assert_eq!(
        lxde::config_relative_path(Some("LXDE-pi")),
        "pcmanfm/LXDE-pi/desktop-items-0.conf"
    );
}

#[test]
fn trailing_nuls_are_stripped() {
    assert_eq!(win::trim_trailing_nuls("C:\\img.png\0\0\0"), "C:\\img.png");
}

#[test]
fn interior_nul_is_kept() {
    assert_eq!(win::trim_trailing_nuls("a\0b\0"), "a\0b");
}

#[test]
fn no_padding_leaves_text_unchanged() {
    assert_eq!(win::trim_trailing_nuls("C:\\img.png"), "C:\\img.png");
}

#[test]
fn all_padding_leaves_empty_text() {
    assert_eq!(win::trim_trailing_nuls("\0\0\0"), "");
}

#[test]
fn wide_path_gets_a_terminating_nul() {
    assert_eq!(win::null_terminated(vec![97, 0, 98]), vec![97, 0, 98, 0]);
    assert_eq!(win::null_terminated(vec![]), vec![0]);
}

#[test]
fn cache_file_is_named_wallpaper() {
    assert_eq!(
        from_url::cache_file_path("/home/u/.cache"),
        "/home/u/.cache/wallpaper"
    );
}

#[test]
fn cache_dir_with_trailing_separator_gets_no_second_one() {
    assert_eq!(
        from_url::cache_file_path("/home/u/.cache/"),
        "/home/u/.cache/wallpaper"
    );
}
