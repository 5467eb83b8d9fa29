use colorseq::color::make_color_from_num;
use colorseq::color::ColorType;
use colorseq::colors_info::get_color_info;

#[test]
fn color_info_for_cyan_cube_entry() {
    let info = get_color_info(45);
    assert_eq!(info.color_id, 45);
    assert_eq!(info.rgb.r, 0);
    assert_eq!(info.rgb.g, 215);
    assert_eq!(info.rgb.b, 255);
}

#[test]
fn base_palette_entries() {
    let black = get_color_info(0);
    assert_eq!((black.rgb.r, black.rgb.g, black.rgb.b), (0, 0, 0));
    let maroon = get_color_info(1);
    assert_eq!((maroon.rgb.r, maroon.rgb.g, maroon.rgb.b), (128, 0, 0));
    let silver = get_color_info(7);
    assert_eq!((silver.rgb.r, silver.rgb.g, silver.rgb.b), (192, 192, 192));
    let white = get_color_info(15);
    assert_eq!((white.rgb.r, white.rgb.g, white.rgb.b), (255, 255, 255));
}

#[test]
fn cube_palette_entries() {
    let first = get_color_info(16);
    assert_eq!((first.rgb.r, first.rgb.g, first.rgb.b), (0, 0, 0));
    let last = get_color_info(231);
    assert_eq!((last.rgb.r, last.rgb.g, last.rgb.b), (255, 255, 255));
    let orange = get_color_info(208);
    assert_eq!((orange.rgb.r, orange.rgb.g, orange.rgb.b), (255, 135, 0));
}

#[test]
fn gray_ramp_palette_entries() {
    let darkest = get_color_info(232);
    assert_eq!((darkest.rgb.r, darkest.rgb.g, darkest.rgb.b), (8, 8, 8));
    let lightest = get_color_info(255);
    assert_eq!((lightest.rgb.r, lightest.rgb.g, lightest.rgb.b), (238, 238, 238));
}

#[test]
fn class_boundary_at_sixteen() {
    let fifteen = make_color_from_num(15);
    assert_eq!(fifteen.color_type, ColorType::Color16);
    let sixteen = make_color_from_num(16);
    assert_eq!(sixteen.color_type, ColorType::Color255);
}

#[test]
fn record_channels_match_palette_entry() {
    for num in [0u8, 3, 15, 16, 100, 231, 232, 255] {
        let info = get_color_info(num);
        let record = make_color_from_num(num);
        assert_eq!(record.r, info.rgb.r);
        assert_eq!(record.g, info.rgb.g);
        assert_eq!(record.b, info.rgb.b);
        if num <= 15 {
            assert_eq!(record.color_type, ColorType::Color16);
        } else {
            assert_eq!(record.color_type, ColorType::Color255);
        }
    }
}
