use giga_test::loading::{html_preprocessor, preprocessed, IMG_PATTERN, IMG_REPLACEMENT};

#[test]
fn image_markup_is_rewritten() {
    assert_eq!(
        html_preprocessor("[img]foo.png[/img]"),
        "<img src='/static/img/foo.png'>"
    );
}

#[test]
fn every_image_is_rewritten() {
    assert_eq!(
        html_preprocessor("a [img]x/1.png[/img] b [img]2.png[/img] c"),
        "a <img src='/static/img/x/1.png'> b <img src='/static/img/2.png'> c"
    );
}

#[test]
fn other_text_stays_as_it_is() {
    for text in ["", "question = \"what?\"", "[img]foo.jpg[/img]", "[img]a b.png[/img]", "[img].png"] {
        assert_eq!(html_preprocessor(text), text);
    }
}

#[test]
fn text_that_was_not_rewritten_is_handed_on() {
    assert_eq!(preprocessed("as it was", None), "as it was");
    assert_eq!(preprocessed("as it was", Some("rewritten".to_string())), "rewritten");
    assert_eq!(preprocessed("", Some(String::new())), "");
}

#[test]
fn image_pattern_and_replacement() {
    assert_eq!(IMG_PATTERN, r"\[img\](\S+\.png)\[/img\]");
    assert_eq!(IMG_REPLACEMENT, "<img src='/static/img/$1'>");
}
