use azera_memory::extract::extract_image_gen_requests;

#[test]
fn extracts_single_image_request() {
    let text = r#"Here's an image for you! [IMAGE_GEN: prompt="A beautiful sunset over mountains"]"#;
    let requests = extract_image_gen_requests(text);
    assert_eq!(requests.len(), 1);
    assert_eq!(requests[0].prompt, "A beautiful sunset over mountains");
    assert_eq!(requests[0].name, None);
}

#[test]
fn extracts_image_request_with_name() {
    let text = r#"[IMAGE_GEN: prompt="A mystical forest", name="enchanted_woods"]"#;
    let requests = extract_image_gen_requests(text);
    assert_eq!(requests.len(), 1);
    assert_eq!(requests[0].prompt, "A mystical forest");
    assert_eq!(requests[0].name, Some("enchanted_woods".to_string()));
}

#[test]
fn extracts_multiple_image_requests() {
    let text = r#"Creating two images: [IMAGE_GEN: prompt="Ocean waves"] and [IMAGE_GEN: prompt="Mountain peak", name="summit"]"#;
    let requests = extract_image_gen_requests(text);
    assert_eq!(requests.len(), 2);
    assert_eq!(requests[0].prompt, "Ocean waves");
    assert_eq!(requests[1].prompt, "Mountain peak");
    assert_eq!(requests[1].name, Some("summit".to_string()));
}

#[test]
fn returns_empty_for_no_requests() {
    let text = "This is just regular text without any image generation requests.";
    let requests = extract_image_gen_requests(text);
    assert!(requests.is_empty());
}

#[test]
fn handles_empty_string() {
    let requests = extract_image_gen_requests("");
    assert!(requests.is_empty());
}

#[test]
fn ignores_malformed_tags() {
    let text = r#"This [IMAGE_GEN: is malformed] and this [IMAGE_GEN prompt="missing colon"] too"#;
    let requests = extract_image_gen_requests(text);
    assert!(requests.is_empty());
}
