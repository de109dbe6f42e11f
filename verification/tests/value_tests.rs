use deltakit::floatval::{parse_float_text, play_secs, render_float, FloatVal};
use deltakit::gamedata::parse_filename;
use deltakit::gamedata::armors::try_get_armor_name;
use deltakit::gamedata::items::try_get_item_name;
use deltakit::gamedata::key_items::try_get_key_item_name;
use deltakit::gamedata::lightworld_items::try_get_lightworld_item_name;
use deltakit::gamedata::party_members::{get_party_member, try_get_party_member_name};
use deltakit::gamedata::phone_numbers::try_get_phone_number_name;
use deltakit::gamedata::spells::try_get_spell_name;
use deltakit::gamedata::weapons::try_get_weapon_name;
use deltakit::message;
use deltakit::numtext::{parse_i32_text, parse_u32_text, render_int, render_u64, trim_str};

#[test]
fn integers_parse_and_render() {
    assert_eq!(parse_i32_text("42"), Some(42));
    assert_eq!(parse_i32_text("-7"), Some(-7));
    assert_eq!(parse_i32_text("+9"), Some(9));
    assert_eq!(parse_i32_text("2147483647"), Some(i32::MAX));
    assert_eq!(parse_i32_text("-2147483648"), Some(i32::MIN));
    assert_eq!(parse_i32_text("2147483648"), None);
    assert_eq!(parse_i32_text(""), None);
    assert_eq!(parse_i32_text("12a"), None);
    assert_eq!(parse_u32_text("4294967295"), Some(u32::MAX));
    assert_eq!(parse_u32_text("-1"), None);
    assert_eq!(render_int(-2147483648), "-2147483648");
    assert_eq!(render_int(0), "0");
    assert_eq!(render_u64(18446744073709551615), "18446744073709551615");
    assert_eq!(trim_str("  97.5 \t"), "97.5");
}

#[test]
fn fractions_parse_compare_and_render() {
    let a = parse_float_text("97.5").unwrap();
    assert_eq!((a.mant_part(), a.scale_part()), (975, 1));
    let b = parse_float_text("97.50").unwrap();
    assert!(a == b);
    let c = parse_float_text("-0.25").unwrap();
    assert_eq!((c.mant_part(), c.scale_part()), (-25, 2));
    assert!(c < a);
    assert_eq!(render_float(&a), "97.5");
    assert_eq!(render_float(&c), "-0.25");
    assert_eq!(render_float(&FloatVal::zero()), "0");
    assert_eq!(parse_float_text("1."), Some(FloatVal::new(1, 0)));
    assert_eq!(parse_float_text(".5").map(|v| (v.mant_part(), v.scale_part())), Some((5, 1)));
    assert!(parse_float_text("abc").is_none());
    assert!(parse_float_text("1.2.3").is_none());
    assert!(parse_float_text("").is_none());
}

#[test]
fn play_time_converts_to_whole_seconds() {
    assert_eq!(play_secs(&parse_float_text("3600").unwrap()), Some(120));
    assert_eq!(play_secs(&parse_float_text("3601").unwrap()), Some(120));
    assert_eq!(play_secs(&parse_float_text("29.9").unwrap()), Some(0));
    assert_eq!(play_secs(&parse_float_text("-30").unwrap()), None);
}

#[test]
fn filenames_encode_chapter_and_slot() {
    assert_eq!(parse_filename("saves/filech2_1"), (2, 1));
    assert_eq!(parse_filename("filech4_0"), (4, 0));
    assert_eq!(parse_filename("a/b/filech1_2"), (1, 2));
    assert_eq!(parse_filename("filech12_1"), (0, 0));
    assert_eq!(parse_filename("somefile"), (0, 0));
    assert_eq!(parse_filename("dir/filechX_1"), (0, 0));
}

#[test]
fn lookup_tables_name_known_identifiers() {
    assert_eq!(message(), "Hello deltakit!");
    assert_eq!(try_get_item_name(1), Some("Dark Candy"));
    assert_eq!(try_get_item_name(999), None);
    assert_eq!(try_get_key_item_name(1), Some("Cell Phone"));
    assert_eq!(try_get_weapon_name(3), Some("Red Scarf"));
    assert_eq!(try_get_armor_name(1), Some("Amber Card"));
    assert_eq!(try_get_lightworld_item_name(2), Some("Pencil"));
    assert_eq!(try_get_phone_number_name(201), Some("Call Home"));
    assert_eq!(try_get_spell_name(4), Some("Rude Buster"));
    assert_eq!(try_get_party_member_name(3), Some("Ralsei"));
    assert_eq!(get_party_member(2), Some("Susie"));
    assert_eq!(get_party_member(99), None);
}
