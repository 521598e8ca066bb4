use sasta::ids::UuidVal;
use sasta::protocol::{DisplayPayload, ResponsePayload, WebsitePayload, casta_index, pending_message};

fn web(content: &str) -> WebsitePayload {
    WebsitePayload { content: content.to_string() }
}

#[test]
fn display_payload_json_matches_serde_encoding() {
    let ours = ResponsePayload::Display(DisplayPayload::Website(web("https://example.com/x")))
        .to_json();
    let parsed: serde_json::Value = serde_json::from_str(&ours).unwrap();
    assert_eq!(parsed["type"], "Display");
    assert_eq!(parsed["data"]["type"], "Website");
    assert_eq!(parsed["data"]["data"]["content"], "https://example.com/x");
    assert_eq!(
        ours,
        "{\"type\":\"Display\",\"data\":{\"type\":\"Website\",\"data\":{\"content\":\"https://example.com/x\"}}}"
    );
}

#[test]
fn json_escaping_matches_serde() {
    let tricky = "a\"b\\c\nd\te\u{1}f";
    let ours = ResponsePayload::Display(DisplayPayload::Text(web(tricky))).to_json();
    let parsed: serde_json::Value = serde_json::from_str(&ours).unwrap();
    assert_eq!(parsed["data"]["data"]["content"], tricky);
    // The inner object should be byte-identical to serde_json's encoding.
    let serde_inner = serde_json::to_string(tricky).unwrap();
    assert!(ours.contains(&serde_inner));
}

#[test]
fn welcome_json_with_and_without_hash() {
    let with = ResponsePayload::Welcome {
        name: "screen".to_string(),
        htmx_hash: Some("abc123".to_string()),
    }
    .to_json();
    assert_eq!(
        with,
        "{\"type\":\"Welcome\",\"data\":{\"name\":\"screen\",\"htmx_hash\":\"abc123\"}}"
    );
    let without =
        ResponsePayload::Welcome { name: "screen".to_string(), htmx_hash: None }.to_json();
    assert_eq!(without, "{\"type\":\"Welcome\",\"data\":{\"name\":\"screen\"}}");
}

#[test]
fn pending_json() {
    assert_eq!(
        ResponsePayload::Pending(true).to_json(),
        "{\"type\":\"Pending\",\"data\":true}"
    );
    assert_eq!(
        ResponsePayload::Pending(false).to_json(),
        "{\"type\":\"Pending\",\"data\":false}"
    );
}

#[test]
fn htmx_fragments() {
    assert_eq!(
        DisplayPayload::Website(web("https://e.com/?a=1&b=2")).into_htmx(),
        "<div hx-swap-oob=\"innerHTML:#content\"><iframe frameborder=\"0\" allow=\"autoplay; encrypted-media\" src=\"https://e.com/?a=1&amp;b=2\" allowfullscreen></div>"
    );
    assert_eq!(
        DisplayPayload::Text(web("<b>hello</b>")).into_htmx(),
        "<div hx-swap-oob=\"innerHTML:#content\"><div id=\"text\">&lt;b&gt;hello&lt;/b&gt;</div></div>"
    );
    assert_eq!(
        DisplayPayload::Image(web("/files/pic.png")).into_htmx(),
        "<div hx-swap-oob=\"innerHTML:#content\"><img src=\"/files/pic.png\"></div>"
    );
}

#[test]
fn uuid_text_matches_uuid_crate() {
    let parsed = uuid::Uuid::parse_str("8626f6e1-df7c-48d9-83c8-d7845b774ecd").unwrap();
    let ours = UuidVal::from_u128(parsed.as_u128());
    assert_eq!(ours.to_text(), parsed.to_string());
    assert_eq!(ours.to_text(), "8626f6e1-df7c-48d9-83c8-d7845b774ecd");

    let nil = UuidVal::from_u128(0);
    assert_eq!(nil.to_text(), "00000000-0000-0000-0000-000000000000");
}

#[test]
fn pending_message_names_the_uuid() {
    let parsed = uuid::Uuid::parse_str("25cd63df-1f10-4c3f-afdb-58156ca47ebd").unwrap();
    let ours = UuidVal::from_u128(parsed.as_u128());
    assert_eq!(
        pending_message(&ours),
        "Pending connection to Sasta with uuid 25cd63df-1f10-4c3f-afdb-58156ca47ebd"
    );
}

#[test]
fn casta_index_embeds_the_uuid() {
    let parsed = uuid::Uuid::parse_str("8626f6e1-df7c-48d9-83c8-d7845b774ecd").unwrap();
    let page = casta_index(&UuidVal::from_u128(parsed.as_u128()));
    assert!(page.starts_with("<!DOCTYPE html>"));
    assert!(page.contains("let uuid=\"8626f6e1-df7c-48d9-83c8-d7845b774ecd\""));
    assert!(page.contains("ws-connect=\"/ws\""));
    assert!(page.ends_with("</body></html>"));
}
