use openpad::actions::AppAction;
use openpad::composer::attachment_parts;
use openpad::models::build_model_entries;
use openpad::reducer::reduce_app_state;
use openpad::secret::ExtraMaskedMap;
use openpad::sse::{classify_sse_event, feed_sse, SseEventKind, SseFeed};
use openpad::state::{AppState, AttachedFile};
use openpad::types::{
    JsonValue, Model, ModelApi, ModelCacheCost, ModelCapabilities, ModelCost, ModelLimit, ModelModalities, PartInput,
    Provider, ProvidersResponse,
};

fn modalities() -> ModelModalities {
    ModelModalities { text: true, audio: false, image: false, video: false, pdf: false }
}

fn model(provider: &str, id: &str, name: &str) -> Model {
    Model {
        id: id.to_string(),
        provider_id: provider.to_string(),
        api: ModelApi { id: String::new(), url: String::new(), npm: String::new() },
        name: name.to_string(),
        family: None,
        capabilities: ModelCapabilities {
            temperature: true,
            reasoning: false,
            attachment: false,
            toolcall: true,
            input: modalities(),
            output: modalities(),
            interleaved: JsonValue { json: "false".to_string(), str_value: None },
        },
        cost: ModelCost { input: 0, output: 0, cache: ModelCacheCost { read: 0, write: 0 }, experimental_over_200k: None },
        limit: ModelLimit { context: 0, input: None, output: 0 },
        status: String::new(),
        options: ExtraMaskedMap::new(),
        headers: ExtraMaskedMap::new(),
        release_date: String::new(),
        variants: None,
    }
}

fn provider(id: &str, name: &str, models: Vec<(&str, &str)>) -> Provider {
    let mut ms = ExtraMaskedMap::new();
    for (mid, mname) in models {
        ms.insert(mid.to_string(), model(id, mid, mname));
    }
    Provider {
        id: id.to_string(),
        name: name.to_string(),
        source: String::new(),
        env: vec![],
        key: None,
        options: ExtraMaskedMap::new(),
        models: ms,
    }
}

#[test]
fn model_picker_groups_models_by_provider() {
    let ps = vec![
        provider("b", "Beta", vec![("z", "Zeta"), ("a", "Alpha")]),
        provider("e", "Empty", vec![]),
        provider("c", "Gamma", vec![("m", "Mu")]),
    ];
    let entries = build_model_entries(&ps);
    let labels: Vec<&str> = entries.iter().map(|e| e.label.as_str()).collect();
    assert_eq!(labels, vec!["Default", "Beta", "  Alpha", "  Zeta", "Gamma", "  Mu"]);
    assert!(entries[0].selectable);
    assert!(!entries[1].selectable);
    assert_eq!(entries[2].provider_id.as_deref(), Some("b"));
    assert_eq!(entries[2].model_id.as_deref(), Some("a"));
}

#[test]
fn loaded_providers_fill_the_sorted_model_list() {
    let mut state = AppState::default();
    let ps = vec![provider("b", "Beta", vec![("z", "Zeta"), ("a", "Alpha")]), provider("c", "Gamma", vec![("m", "Mu")])];
    reduce_app_state(&mut state, AppAction::ProvidersLoaded(ProvidersResponse { providers: ps, default: ExtraMaskedMap::new() }));
    assert_eq!(state.provider_labels, vec!["Default".to_string(), "Beta".to_string(), "Gamma".to_string()]);
    assert_eq!(state.model_labels, vec!["Alpha".to_string(), "Mu".to_string(), "Zeta".to_string()]);
    assert_eq!(state.model_entries[1], ("c".to_string(), "m".to_string()));
    assert_eq!(state.selected_model_idx, 0);
}

#[test]
fn event_kinds() {
    assert!(classify_sse_event("session.created") == SseEventKind::SessionCreated);
    assert!(classify_sse_event("message.part.delta") == SseEventKind::PartDelta);
    assert!(classify_sse_event("installation.update-available") == SseEventKind::InstallationUpdateAvailable);
    assert!(classify_sse_event("nope") == SseEventKind::Unknown);
}

#[test]
fn chunks_give_the_same_frames() {
    let whole = "data: one\n\nda";
    let tail = "ta: two\n\nx";
    let all = match feed_sse("", &format!("{}{}", whole, tail)) {
        SseFeed::Frames { data, rest } => (data, rest),
        SseFeed::Overflow => panic!(),
    };
    let (d1, r1) = match feed_sse("", whole) {
        SseFeed::Frames { data, rest } => (data, rest),
        SseFeed::Overflow => panic!(),
    };
    let (d2, r2) = match feed_sse(&r1, tail) {
        SseFeed::Frames { data, rest } => (data, rest),
        SseFeed::Overflow => panic!(),
    };
    let mut joined = d1.clone();
    joined.extend(d2);
    assert_eq!(all.0, joined);
    assert_eq!(all.1, r2);
    assert_eq!(all.0, vec!["one".to_string(), "two".to_string()]);
}

#[test]
fn attachments_become_parts() {
    let files = vec![
        AttachedFile { filename: "a.png".to_string(), mime_type: "image/png".to_string(), data_url: "data:x".to_string(), raw_text: None },
        AttachedFile { filename: "t.txt".to_string(), mime_type: "text/plain".to_string(), data_url: String::new(), raw_text: Some("hello".to_string()) },
    ];
    let parts = attachment_parts(&files);
    assert_eq!(parts.len(), 2);
    match &parts[0] {
        PartInput::File { mime, filename, url, .. } => {
            assert_eq!(mime, "image/png");
            assert_eq!(filename.as_deref(), Some("a.png"));
            assert_eq!(url, "data:x");
        }
        _ => panic!("expected a file part"),
    }
    match &parts[1] {
        PartInput::Text { text, .. } => assert_eq!(text, "hello"),
        _ => panic!("expected a text part"),
    }
}
