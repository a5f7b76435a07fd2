use lib_kern::dom::color::Color;
use lib_kern::dom::css::{Selector, SimpleSelector};
use lib_kern::gfx::Color as PixelColor;
use lib_kern::pic::InterruptIndex;

#[test]
fn color_new_and_packing() {
    let c = Color::new(0x12, 0x34, 0x56, 0x78);
    assert_eq!(c, Color { r: 0x12, g: 0x34, b: 0x56, a: 0x78 });
    assert_eq!(c.to_argb(), 0x7812_3456);
}

#[test]
fn color_names_in_any_case() {
    assert_eq!(Color::try_from_name("RED"), Ok(Color::new(255, 0, 0, 255)));
    assert_eq!(Color::try_from_name("Blue"), Ok(Color::new(0, 0, 255, 255)));
    assert_eq!(Color::try_from_name("white"), Ok(Color::new(255, 255, 255, 255)));
    assert_eq!(Color::try_from_name("purple"), Err(()));
    assert_eq!(Color::from_lower_name("GREEN"), None);
    assert_eq!(Color::from_lower_name("black"), Some(Color::new(0, 0, 0, 255)));
}

fn simple(tag: Option<&str>, id: Option<&str>, classes: &[&str]) -> SimpleSelector {
    SimpleSelector {
        tag_name: tag.map(|t| t.to_string()),
        id: id.map(|t| t.to_string()),
        class: classes.iter().map(|c| c.to_string()).collect(),
    }
}

#[test]
fn specificity_of_simple_selector() {
    let s = Selector::Simple(simple(Some("div"), Some("main"), &["a", "b"]));
    assert_eq!(s.specificity(), (1, 2, 1));
    let empty = Selector::Simple(simple(None, None, &[]));
    assert_eq!(empty.specificity(), (0, 0, 0));
}

#[test]
fn specificity_of_descendant_selector() {
    let d = Selector::Descendant(vec![
        simple(Some("ul"), None, &["menu"]),
        simple(Some("li"), Some("first"), &["x", "y"]),
        simple(None, None, &["z"]),
    ]);
    assert_eq!(d.specificity(), (1, 4, 2));
    assert_eq!(Selector::Descendant(vec![]).specificity(), (0, 0, 0));
}

#[test]
fn pixel_colors() {
    let c = PixelColor::from_argb(0x80FF_2040);
    assert_eq!(c, PixelColor { r: 0xFF, g: 0x20, b: 0x40, a: 0x80 });
    let o = PixelColor::from_rgb(0x80FF_2040);
    assert_eq!(o.a, 255);
    assert_eq!(o.to_rgb(), 0x00FF_2040);
}

#[test]
fn interrupt_vectors() {
    assert_eq!(InterruptIndex::Timer.as_u8(), 32);
    assert_eq!(InterruptIndex::Keyboard.as_u8(), 33);
    assert_eq!(InterruptIndex::Mouse.as_u8(), 44);
    assert_eq!(InterruptIndex::Mouse.as_usize(), 44);
}
