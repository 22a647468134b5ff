use jambot::embeds::Reply;
use jambot::inspireme::inspireme;

#[test]
fn fetched_image_becomes_an_embed() {
    let r = inspireme(Some("https://example.net/image.jpg".to_string()));
    match r {
        Reply::EmbedMsg(e) => {
            assert_eq!(e.image.as_deref(), Some("https://example.net/image.jpg"));
            assert_eq!(e.color, 0xA877C8);
            assert!(e.title.is_none());
            assert!(e.description.is_none());
            assert!(e.fields.is_empty());
        },
        Reply::Text(_) => panic!("expected an embed"),
    }
}

#[test]
fn failed_fetch_becomes_a_notice() {
    let r = inspireme(None);
    match r {
        Reply::Text(m) => assert_eq!(m, "Something went wrong while contacting inspirobot"),
        Reply::EmbedMsg(_) => panic!("expected a text reply"),
    }
}
