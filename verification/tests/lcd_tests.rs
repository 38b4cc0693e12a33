use pipe_console::lcd::{
    lcd_clear, lcd_scan_dir, madctl_param, window, LcdDev, BLACK, BLUE, BUFFER_PIXELS, CYAN,
    D2U_L2R, D2U_R2L, GREEN, L2R_D2U, L2R_U2D, MADCTL, MAGENTA, R2L_D2U, R2L_U2D, RED, U2D_L2R,
    U2D_R2L, WHITE, YELLOW,
};

#[test]
fn new_st7789_sets_the_controller_commands() {
    let dev = LcdDev::new_st7789(240, 320, 0);
    assert_eq!(
        dev,
        LcdDev { width: 240, height: 320, dir: 0, setxcmd: 0x2A, setycmd: 0x2B, wramcmd: 0x2C }
    );
}

#[test]
fn colour_constants() {
    assert_eq!(
        [WHITE, BLACK, RED, GREEN, BLUE, MAGENTA, YELLOW, CYAN],
        [0xFFFF, 0x0000, 0xF800, 0x07E0, 0x001F, 0xF81F, 0xFFE0, 0x07FF]
    );
    assert_eq!(MAGENTA, RED | BLUE);
    assert_eq!(YELLOW, RED | GREEN);
    assert_eq!(CYAN, GREEN | BLUE);
    assert_eq!(MADCTL, 0x36);
    assert_eq!(BUFFER_PIXELS, 256);
}

#[test]
fn madctl_of_each_direction() {
    assert_eq!(madctl_param(L2R_U2D), 0x08);
    assert_eq!(madctl_param(L2R_D2U), 0x88);
    assert_eq!(madctl_param(R2L_U2D), 0x48);
    assert_eq!(madctl_param(R2L_D2U), 0xC8);
    assert_eq!(madctl_param(U2D_L2R), 0x28);
    assert_eq!(madctl_param(U2D_R2L), 0x68);
    assert_eq!(madctl_param(D2U_L2R), 0xA8);
    assert_eq!(madctl_param(D2U_R2L), 0xE8);
    assert_eq!(madctl_param(8), 0x08);
    assert_eq!(madctl_param(255), 0x08);
}

#[test]
fn window_is_big_endian_and_inclusive() {
    assert_eq!(window(240), [0, 0, 0x00, 0xEF]);
    assert_eq!(window(320), [0, 0, 0x01, 0x3F]);
    assert_eq!(window(0), [0, 0, 0, 0]);
    assert_eq!(window(1), [0, 0, 0, 0]);
    assert_eq!(window(65535), [0, 0, 0xFF, 0xFE]);
}

#[test]
fn portrait_default_scan_keeps_the_size() {
    let mut dev = LcdDev::new_st7789(240, 320, 0);
    let plan = lcd_scan_dir(&mut dev, L2R_U2D);
    assert_eq!(plan.madctl, 0x08);
    assert_eq!((dev.width, dev.height), (240, 320));
    assert_eq!(plan.x_window, [0, 0, 0x00, 0xEF]);
    assert_eq!(plan.y_window, [0, 0, 0x01, 0x3F]);
}

#[test]
fn exchanging_scan_swaps_width_and_height() {
    let mut dev = LcdDev::new_st7789(240, 320, 0);
    let plan = lcd_scan_dir(&mut dev, U2D_L2R);
    assert_eq!(plan.madctl, 0x28);
    assert_eq!((dev.width, dev.height), (320, 240));
    assert_eq!(plan.x_window, [0, 0, 0x01, 0x3F]);
    assert_eq!(plan.y_window, [0, 0, 0x00, 0xEF]);
    let plan = lcd_scan_dir(&mut dev, R2L_D2U);
    assert_eq!(plan.madctl, 0xC8);
    assert_eq!((dev.width, dev.height), (240, 320));
}

#[test]
fn landscape_remaps_the_direction() {
    let mut dev = LcdDev::new_st7789(240, 320, 1);
    let plan = lcd_scan_dir(&mut dev, L2R_U2D);
    assert_eq!(plan.madctl, 0xA8);
    assert_eq!((dev.width, dev.height), (320, 240));
    assert_eq!(dev.dir, 1);
    let mut dev = LcdDev::new_st7789(320, 240, 1);
    let plan = lcd_scan_dir(&mut dev, U2D_R2L);
    assert_eq!(plan.madctl, 0x08);
    assert_eq!((dev.width, dev.height), (240, 320));
    let mut dev = LcdDev::new_st7789(240, 320, 1);
    assert_eq!(lcd_scan_dir(&mut dev, 9).madctl, 0x08);
}

#[test]
fn clear_plan_for_the_full_panel() {
    let dev = LcdDev::new_st7789(240, 320, 0);
    let plan = lcd_clear(&dev, RED);
    assert_eq!(plan.x_window, [0, 0, 0x00, 0xEF]);
    assert_eq!(plan.y_window, [0, 0, 0x01, 0x3F]);
    assert_eq!(plan.pixel, [0xF8, 0x00]);
    assert_eq!(plan.full_chunks, 300);
    assert_eq!(plan.remaining_bytes, 0);
}

#[test]
fn clear_plan_with_a_rest() {
    let dev = LcdDev::new_st7789(10, 30, 0);
    let plan = lcd_clear(&dev, 0x1234);
    assert_eq!(plan.pixel, [0x12, 0x34]);
    assert_eq!(plan.full_chunks, 1);
    assert_eq!(plan.remaining_bytes, 88);
    let empty = LcdDev::new_st7789(0, 320, 0);
    let plan = lcd_clear(&empty, WHITE);
    assert_eq!(plan.full_chunks, 0);
    assert_eq!(plan.remaining_bytes, 0);
    let huge = LcdDev::new_st7789(65535, 65535, 0);
    let plan = lcd_clear(&huge, WHITE);
    assert_eq!(plan.full_chunks, 16776704);
    assert_eq!(plan.remaining_bytes, 2);
}
