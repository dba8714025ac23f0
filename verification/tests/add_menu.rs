use erigui_widgets::add_menu::{AddMenuPortSpec, AddMenuSchema, AddNodeMenuState, RegistryEntry};
use erigui_widgets::geometry::{Point, Size};

fn six_types() -> Vec<RegistryEntry> {
    [
        ("core/load_checkpoint", "Load Checkpoint", "Loaders"),
        ("core/load_lora", "Load LoRA", "Loaders"),
        ("core/encode_prompt", "Encode Prompt", "Conditioning"),
        ("core/k_sampler", "K Sampler", "Sampling"),
        ("core/vae_decode", "VAE Decode", "VAE"),
        ("core/save_image", "Save Image", "Image"),
    ]
    .iter()
    .map(|(tid, name, cat)| RegistryEntry {
        type_id: tid.to_string(),
        display_name: name.to_string(),
        category: cat.to_string(),
    })
    .collect()
}

#[test]
fn search_filters_list() {
    let mut state = AddNodeMenuState::new(Point::new(10, 10), six_types());
    assert_eq!(state.filtered.len(), 6, "fresh menu lists every registered type_id");

    state.update_search("k");
    let names: Vec<String> = state
        .filtered
        .iter()
        .map(|tid| state.all_entries.iter().find(|e| &e.type_id == tid).unwrap().display_name.clone())
        .collect();
    assert!(
        names.iter().all(|n| n.to_lowercase().contains('k')),
        "every filtered display_name must contain 'k', got {:?}",
        names
    );
    assert!(names.contains(&"Load Checkpoint".to_string()));
    assert!(names.contains(&"K Sampler".to_string()));
    assert!(!names.contains(&"Save Image".to_string()));
}

#[test]
fn blank_query_lists_everything_and_selection_resolves() {
    let mut state = AddNodeMenuState::new(Point::new(0, 0), six_types());
    state.update_search("  LOAD ");
    assert_eq!(state.filtered, vec!["core/load_checkpoint".to_string(), "core/load_lora".to_string()]);
    assert_eq!(state.resolve_selection(), Some("core/load_checkpoint".to_string()));
    state.selected_idx = Some(1);
    assert_eq!(state.resolve_selection(), Some("core/load_lora".to_string()));
    state.update_search("   ");
    assert_eq!(state.filtered.len(), 6);
    assert_eq!(state.selected_idx, None);
    state.update_search("nothing matches");
    assert_eq!(state.resolve_selection(), None);
}

fn sampler_schema() -> AddMenuSchema {
    AddMenuSchema {
        display_name: "K Sampler".to_string(),
        category: "Sampling".to_string(),
        inputs: vec![AddMenuPortSpec { name: "model".to_string() }, AddMenuPortSpec { name: "latent".to_string() }],
        outputs: vec![AddMenuPortSpec { name: "latent".to_string() }],
    }
}

#[test]
fn selecting_builds_the_node_from_the_schema() {
    let mut state = AddNodeMenuState::new(Point::new(300, 300), six_types());
    state.update_search("sampler");
    assert_eq!(state.resolve_selection(), Some("core/k_sampler".to_string()));
    let n = state.select(Some(sampler_schema())).unwrap();
    assert_eq!(n.id, 0);
    assert_eq!(n.title, "K Sampler");
    assert_eq!(n.position, Point::new(300, 300));
    assert_eq!(n.size, Size::new(220, 140));
    assert_eq!(n.component_type, Some("core/k_sampler".to_string()));
    let ins: Vec<(usize, &str, bool)> = n.inputs.iter().map(|p| (p.id, p.label.as_str(), p.is_input)).collect();
    assert_eq!(ins, vec![(0, "model", true), (1, "latent", true)]);
    let outs: Vec<(usize, &str, bool)> = n.outputs.iter().map(|p| (p.id, p.label.as_str(), p.is_input)).collect();
    assert_eq!(outs, vec![(0, "latent", false)]);
}

#[test]
fn selecting_needs_a_listed_type_and_a_schema() {
    let mut state = AddNodeMenuState::new(Point::new(0, 0), six_types());
    assert!(state.select(None).is_none());
    state.update_search("nothing like this");
    assert!(state.select(Some(sampler_schema())).is_none());
}
