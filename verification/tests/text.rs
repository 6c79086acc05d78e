use fractaller::Text;

#[test]
fn text_keeps_its_string() {
    let t = Text::new(String::from("Fractaller"));
    assert_eq!(t.0, "Fractaller");
}
