use openpad::composer::{data_url_captures, process_pasted_content};
use openpad::utils::image_extension_for_mime;
use openpad::state::AppState;

#[test]
fn test_data_url_detection() {
    // Test simple PNG data URL
    let text1 = "data:image/png;base64,iVBORw0KGgoAAAANSUhEUgAAAAEAAAABCAYAAAAfFcSJAAAADUlEQVR42mNk+M9QDwADhgGAWjR9awAAAABJRU5ErkJggg==";
    assert!(!data_url_captures(text1).is_empty());

    // Test JPEG data URL
    let text2 = "data:image/jpeg;base64,/9j/4AAQSkZJRg==";
    assert!(!data_url_captures(text2).is_empty());

    // Test mixed content
    let text3 = "Here is an image: data:image/png;base64,ABC123== and some text after";
    let matches = data_url_captures(text3);
    assert_eq!(matches.len(), 1);

    // Test no match
    let text4 = "This is just plain text";
    assert!(data_url_captures(text4).is_empty());

    // Test extraction
    let text5 = "Before data:image/png;base64,ABC123== After";
    let captures = data_url_captures(text5);
    assert_eq!(captures[0].mime, "image/png");
    assert_eq!(captures[0].data, "ABC123==");
}

#[test]
fn test_text_extraction() {
    let text = "Start data:image/png;base64,ABC== Middle data:image/jpeg;base64,DEF== End";
    let (result, _) = process_pasted_content(text, 0);
    assert_eq!(result, "Start  Middle  End");
}

#[test]
fn pasted_images_become_named_attachments() {
    let text = "é data:image/jpeg;base64,QUJD and data:image/svg+xml;base64,PHN2Zz4= ✓";
    let (rest, files) = process_pasted_content(text, 42);
    assert_eq!(rest, "é  and  ✓");
    assert_eq!(files.len(), 2);
    assert_eq!(files[0].filename, "attachment_42_0.jpg");
    assert_eq!(files[0].mime_type, "image/jpeg");
    assert_eq!(files[0].data_url, "data:image/jpeg;base64,QUJD");
    assert!(files[0].raw_text.is_none());
    assert_eq!(files[1].filename, "attachment_42_1.svg");
    assert_eq!(files[1].data_url, "data:image/svg+xml;base64,PHN2Zz4=");
}

#[test]
fn text_without_images_is_kept_whole() {
    let (rest, files) = process_pasted_content("plain words", 7);
    assert_eq!(rest, "plain words");
    assert!(files.is_empty());
}

#[test]
fn image_extensions_follow_the_type() {
    assert_eq!(image_extension_for_mime("image/png"), "png");
    assert_eq!(image_extension_for_mime("image/jpg"), "jpg");
    assert_eq!(image_extension_for_mime("image/jpeg"), "jpg");
    assert_eq!(image_extension_for_mime("image/gif"), "gif");
    assert_eq!(image_extension_for_mime("image/webp"), "webp");
    assert_eq!(image_extension_for_mime("image/tiff"), "tiff");
    assert_eq!(image_extension_for_mime("image/svg+xml"), "svg");
    assert_eq!(image_extension_for_mime("text/plain"), "png");
}

#[test]
fn pasted_content_lands_in_the_state() {
    let mut st = AppState::default();
    let rest = st.attach_pasted_content("a data:image/png;base64,QQ== b", 9);
    assert_eq!(rest, "a  b");
    assert_eq!(st.attached_files.len(), 1);
    assert_eq!(st.attached_files[0].filename, "attachment_9_0.png");
    let rest = st.attach_pasted_content("data:image/gif;base64,R0l=", 10);
    assert_eq!(rest, "");
    assert_eq!(st.attached_files.len(), 2);
    assert_eq!(st.attached_files[1].filename, "attachment_10_0.gif");
}

#[test]
fn long_pasted_text_becomes_a_text_attachment() {
    let mut st = AppState::default();
    assert!(!st.attach_long_text("x".repeat(2000), 5));
    assert!(st.attached_files.is_empty());
    let long = "é".repeat(1001);
    assert!(st.attach_long_text(long.clone(), 123));
    assert_eq!(st.attached_files.len(), 1);
    let f = &st.attached_files[0];
    assert_eq!(f.filename, "pasted_text_123.txt");
    assert_eq!(f.mime_type, "text/plain");
    assert_eq!(f.data_url, "");
    assert_eq!(f.raw_text.as_deref(), Some(long.as_str()));
}

#[test]
fn dropdown_choices() {
    let mut st = AppState::default();
    st.select_agent(0);
    assert_eq!(st.selected_agent_idx, None);
    st.select_agent(3);
    assert_eq!(st.selected_agent_idx, Some(2));
    st.select_skill(1);
    assert_eq!(st.selected_skill_idx, Some(0));
    st.select_skill(0);
    assert_eq!(st.selected_skill_idx, None);
    st.select_model(4);
    assert_eq!(st.selected_model_idx, 4);
    st.select_provider(0);
    assert_eq!(st.selected_provider_idx, 0);
    assert_eq!(st.selected_model_idx, 0);
    assert!(st.model_labels.is_empty());
    assert_eq!(st.last_user_message_id_for("none"), None);
}
