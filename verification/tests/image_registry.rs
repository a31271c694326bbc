//! Images by name.

use std::sync::Arc;

use hephaestus::image_registry::{Image, ImageAlphaType, ImageFormat, ImageRegistry};

fn pixel(r: u8, g: u8, b: u8) -> Image {
    Image {
        data: Arc::new(vec![r, g, b, 255]),
        format: ImageFormat::Rgba8,
        alpha_type: ImageAlphaType::Alpha,
        width: 1,
        height: 1,
    }
}

#[test]
fn a_new_registry_is_empty() {
    let r = ImageRegistry::new();
    assert!(r.is_empty());
    assert_eq!(r.len(), 0);
    assert!(r.get("anything").is_none());
}

#[test]
fn insert_then_get_round_trips() {
    let mut r = ImageRegistry::new();
    assert!(r.insert("red".to_string(), pixel(255, 0, 0)).is_none());
    assert!(r.contains("red"));
    assert_eq!(r.len(), 1);
    assert_eq!(r.get("red").expect("registered").width, 1);
}

#[test]
fn insert_returns_the_displaced_image() {
    let mut r = ImageRegistry::new();
    r.insert("k".to_string(), pixel(255, 0, 0));
    let previous = r.insert("k".to_string(), pixel(0, 255, 0)).expect("displaced");
    assert_eq!(previous.data[0], 255);
    assert_eq!(r.len(), 1);
}

#[test]
fn remove_takes_the_entry_out() {
    let mut r = ImageRegistry::new();
    r.insert("k".to_string(), pixel(1, 2, 3));
    assert!(r.remove("k").is_some());
    assert!(r.remove("k").is_none());
    assert!(r.is_empty());
}

#[test]
fn names_lists_every_key() {
    let mut r = ImageRegistry::new();
    r.insert("a".to_string(), pixel(0, 0, 0));
    r.insert("b".to_string(), pixel(0, 0, 0));
    let mut got: Vec<String> = r.names();
    got.sort_unstable();
    assert_eq!(got, vec!["a", "b"]);
}

#[test]
fn the_shared_empty_registry_is_one_allocation() {
    let a = ImageRegistry::shared_empty();
    let b = ImageRegistry::shared_empty();
    assert!(std::ptr::eq(a, b));
    assert!(a.is_empty());
}

#[test]
fn cloning_an_entry_shares_the_pixels() {
    let mut r = ImageRegistry::new();
    r.insert("k".to_string(), pixel(9, 9, 9));
    let a = r.get("k").expect("registered").clone();
    let b = r.get("k").expect("registered").clone();
    assert!(Arc::ptr_eq(&a.data, &b.data));
}

#[test]
fn copies_of_a_registry_share_the_pixels() {
    let mut r = ImageRegistry::default();
    assert!(r.clone().is_empty());
    r.insert("a".to_string(), pixel(1, 2, 3));
    r.insert("b".to_string(), pixel(4, 5, 6));
    let copy = r.clone();
    assert_eq!(copy.len(), 2);
    for name in ["a", "b"] {
        let (x, y) = (r.get(name).expect("kept"), copy.get(name).expect("copied"));
        assert!(Arc::ptr_eq(&x.data, &y.data));
        assert_eq!((x.width, x.height), (y.width, y.height));
    }
    // What happens to the one does not happen to the other.
    r.remove("a");
    assert!(copy.contains("a") && !r.contains("a"));
    assert!(!format!("{:?}", copy).is_empty());
}

#[test]
fn a_removed_image_leaves_the_others() {
    let mut r = ImageRegistry::new();
    r.insert("a".to_string(), pixel(1, 0, 0));
    r.insert("b".to_string(), pixel(2, 0, 0));
    r.insert("c".to_string(), pixel(3, 0, 0));
    assert_eq!(r.remove("b").expect("registered").data[0], 2);
    assert_eq!(r.len(), 2);
    assert_eq!(r.get("a").expect("registered").data[0], 1);
    assert_eq!(r.get("c").expect("registered").data[0], 3);
    assert!(!r.contains("b"));
}
