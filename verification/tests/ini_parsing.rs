use wallpaper::ini;
use wallpaper::lxde;
use wallpaper::Error;
use wallpaper::ParseFailure;

#[test]
fn reads_wallpaper_from_wildcard_section() {
    let content = "[*]\nwallpaper=/tmp/x.png";
    assert_eq!(
        lxde::wallpaper_from_config(content),
        Ok("/tmp/x.png".to_string())
    );
}

#[test]
fn missing_wildcard_section_is_a_parse_error() {
    let content = "[desktop]\nwallpaper=/tmp/x.png";
    assert_eq!(
        lxde::wallpaper_from_config(content),
        Err(Error::ConfigParse(ParseFailure::MissingSection))
    );
}

#[test]
fn missing_key_is_a_parse_error() {
    let content = "[*]\nshow_trash=1";
    assert_eq!(
        lxde::wallpaper_from_config(content),
        Err(Error::ConfigParse(ParseFailure::MissingKey))
    );
}

#[test]
fn malformed_line_is_a_parse_error() {
    let content = "[*]\nwallpaper";
    assert_eq!(
        lxde::wallpaper_from_config(content),
        Err(Error::ConfigParse(ParseFailure::MalformedLine))
    );
}

#[test]
fn malformed_line_after_a_match_still_fails() {
    let content = "[*]\nwallpaper=/a.png\njunk";
    assert_eq!(
        lxde::wallpaper_from_config(content),
        Err(Error::ConfigParse(ParseFailure::MalformedLine))
    );
}

#[test]
fn comments_and_blank_lines_are_ignored() {
    let content = "; generated\n\n[*]\n# note\nwallpaper=/a.png\n";
    assert_eq!(lxde::wallpaper_from_config(content), Ok("/a.png".to_string()));
}

#[test]
fn whitespace_and_crlf_are_trimmed() {
    let content = "  [*]  \r\n  wallpaper  =  /a b.png  \r\n";
    assert_eq!(
        lxde::wallpaper_from_config(content),
        Ok("/a b.png".to_string())
    );
}

#[test]
fn first_occurrence_in_section_wins() {
    let content = "[*]\nwallpaper=/first.png\nwallpaper=/second.png";
    assert_eq!(
        lxde::wallpaper_from_config(content),
        Ok("/first.png".to_string())
    );
}

#[test]
fn key_before_any_section_is_not_found() {
    let content = "wallpaper=/a.png\n[*]\nshow_trash=1";
    assert_eq!(
        lxde::wallpaper_from_config(content),
        Err(Error::ConfigParse(ParseFailure::MissingKey))
    );
}

#[test]
fn empty_document_has_no_section() {
    assert_eq!(
        lxde::wallpaper_from_config(""),
        Err(Error::ConfigParse(ParseFailure::MissingSection))
    );
}

#[test]
fn lookup_follows_section_switches() {
    let content = "[a]\nk=1\n[*]\nk=2\n[b]\nk=3";
    assert_eq!(ini::lookup(content, "*", "k"), Ok("2".to_string()));
    assert_eq!(ini::lookup(content, "a", "k"), Ok("1".to_string()));
    assert_eq!(ini::lookup(content, "b", "k"), Ok("3".to_string()));
}

#[test]
fn section_brackets_are_trimmed_inside() {
    let content = "[ * ]\nwallpaper=/a.png";
    assert_eq!(lxde::wallpaper_from_config(content), Ok("/a.png".to_string()));
}

#[test]
fn reentered_section_is_searched_too() {
    let content = "[*]\nshow_trash=1\n[b]\nwallpaper=/no.png\n[*]\nwallpaper=/yes.png";
    assert_eq!(
        lxde::wallpaper_from_config(content),
        Ok("/yes.png".to_string())
    );
}

#[test]
fn lookup_splits_at_first_equals_sign() {
    let content = "[s]\nkey=a=b";
    assert_eq!(ini::lookup(content, "s", "key"), Ok("a=b".to_string()));
}

#[test]
fn lookup_reads_empty_value() {
    let content = "[s]\nkey=";
    assert_eq!(ini::lookup(content, "s", "key"), Ok("".to_string()));
}
