use typomorph::tray::{tray_header_label, tray_icon_argb, tray_toggle_label, ICON_SIZE};

#[test]
fn tray_icon_is_a_white_t_on_blue_or_grey() {
    let active = tray_icon_argb(false);
    assert_eq!(active.len(), ICON_SIZE * ICON_SIZE * 4);
    let pixel = |data: &Vec<u8>, x: usize, y: usize| data[(y * ICON_SIZE + x) * 4..(y * ICON_SIZE + x) * 4 + 4].to_vec();
    assert_eq!(pixel(&active, 0, 0), vec![255, 33, 150, 243]);
    assert_eq!(pixel(&active, 4, 4), vec![255, 255, 255, 255]);
    assert_eq!(pixel(&active, 10, 17), vec![255, 255, 255, 255]);
    assert_eq!(pixel(&active, 8, 10), vec![255, 33, 150, 243]);
    let paused = tray_icon_argb(true);
    assert_eq!(pixel(&paused, 0, 0), vec![255, 128, 128, 128]);
    assert_eq!(pixel(&paused, 17, 6), vec![255, 255, 255, 255]);
}

#[test]
fn tray_menu_labels_follow_tier_and_state() {
    assert_eq!(tray_header_label(true, false), "TypoMorph: Pro Tier (Status: Active)");
    assert_eq!(tray_header_label(false, true), "TypoMorph: Free Tier (Status: Paused)");
    assert_eq!(tray_toggle_label(true), "Resume");
    assert_eq!(tray_toggle_label(false), "Pause");
}
