use slintlauncher::news::{news_items, strip_html, PatchContent, PatchEntry};

#[test]
fn markup_is_removed_and_whitespace_collapsed() {
    assert_eq!(strip_html("<p>Hello <b>world</b></p>\n\n  again "), "Hello world again");
    assert_eq!(strip_html("a > b"), "a > b");
    assert_eq!(strip_html("unclosed <tag and more"), "unclosed");
}

#[test]
fn long_texts_are_cut() {
    let long = "x".repeat(300);
    let out = strip_html(&long);
    assert_eq!(out.chars().count(), 278);
    assert!(out.ends_with('…'));
    let exact = "y".repeat(280);
    assert_eq!(strip_html(&exact), exact);
    assert!(!strip_html("<<a>>b<c").contains('<'));
}

#[test]
fn entries_fall_back_to_their_content() {
    let entries = vec![
        PatchEntry { title: Some("<b>1.21</b>".into()), version: Some("1.21".into()), body: Some("<p>Tricky Trials</p>".into()), content: None },
        PatchEntry {
            title: None,
            version: None,
            body: None,
            content: Some(PatchContent { title: Some("Inner".into()), body: Some("Inner body".into()) }),
        },
        PatchEntry { title: None, version: None, body: None, content: None },
    ];
    let items = news_items(&entries);
    assert_eq!(items.len(), 3);
    assert_eq!(items[0].title, "1.21");
    assert_eq!(items[0].body, "Tricky Trials");
    assert_eq!(items[0].version, "1.21");
    assert_eq!(items[1].title, "Inner");
    assert_eq!(items[1].body, "Inner body");
    assert_eq!(items[2].title, "Minecraft");
    assert_eq!(items[2].body, "");
    let many: Vec<PatchEntry> = (0..25).map(|_| PatchEntry { title: None, version: None, body: None, content: None }).collect();
    assert_eq!(news_items(&many).len(), 20);
}
