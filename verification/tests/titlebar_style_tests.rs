use zenvi::titlebar::{derive_titlebar_style, TitlebarStyle};

fn luminance_is_dark(bg: u32) -> bool {
    let (r, g, b) = (((bg >> 16) & 0xff) as f32, ((bg >> 8) & 0xff) as f32, (bg & 0xff) as f32);
    0.299 * r + 0.587 * g + 0.114 * b < 128.0
}

fn pack_rgb(r: f32, g: f32, b: f32) -> u32 {
    ((r as u32) << 16) | ((g as u32) << 8) | (b as u32)
}

fn float_shade(bg: u32, dark: bool, up: f32, down: f32) -> u32 {
    let (r, g, b) = (((bg >> 16) & 0xff) as f32, ((bg >> 8) & 0xff) as f32, (bg & 0xff) as f32);
    if dark {
        pack_rgb((r + up).min(255.0), (g + up).min(255.0), (b + up).min(255.0))
    } else {
        pack_rgb((r - down).max(0.0), (g - down).max(0.0), (b - down).max(0.0))
    }
}

#[test]
fn dark_and_light_themes() {
    assert_eq!(
        derive_titlebar_style(0x1e1e1e, 0xcccccc, true),
        TitlebarStyle {
            title_color: 0xcccccc,
            border_color: 0x303030,
            menu_hover_bg: 0x323232,
            menu_active_bg: 0x414141,
            dropdown_bg: 0x2c2c2c,
        }
    );
    assert_eq!(
        derive_titlebar_style(0xffffff, 0x000000, false),
        TitlebarStyle {
            title_color: 0x000000,
            border_color: 0xe6e6e6,
            menu_hover_bg: 0xebebeb,
            menu_active_bg: 0xdcdcdc,
            dropdown_bg: 0xf3f3f3,
        }
    );
    assert_eq!(derive_titlebar_style(0xf0f005, 0, true).menu_active_bg, 0xffff28);
    assert_eq!(derive_titlebar_style(0x0a1400, 0, false).border_color, 0x000000);
}

#[test]
fn integer_shades_agree_with_float_channels() {
    let mut c: u32 = 0x010203;
    for _ in 0..5000 {
        c = c.wrapping_mul(1_103_515_245).wrapping_add(12345) & 0xffffff;
        let dark = luminance_is_dark(c);
        let s = derive_titlebar_style(c, 7, dark);
        assert_eq!(s.border_color, float_shade(c, dark, 18.0, 25.0));
        assert_eq!(s.menu_hover_bg, float_shade(c, dark, 20.0, 20.0));
        assert_eq!(s.menu_active_bg, float_shade(c, dark, 35.0, 35.0));
        assert_eq!(s.dropdown_bg, float_shade(c, dark, 14.0, 12.0));
    }
}
