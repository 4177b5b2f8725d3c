use input_player::analyzer::{update_input_state, InputState};
use input_player::model::{InferenceConfig, ModelMetadata};

fn metadata() -> ModelMetadata {
    let buttons: Vec<String> = ["A1", "A2", "B", "W", "Start", "B"].iter().map(|s| s.to_string()).collect();
    let mut all: Vec<String> =
        ["dir_1", "dir_2", "dir_3", "dir_4", "dir_6", "dir_7", "dir_8", "dir_9"]
            .iter()
            .map(|s| s.to_string())
            .collect();
    all.extend(buttons.iter().cloned());
    all.push("others".to_string());
    ModelMetadata {
        button_labels: buttons,
        all_class_labels: all,
        image_width: 48,
        image_height: 48,
        video_width: 1920,
        video_height: 1080,
        tile_x: 80,
        tile_y: 400,
        tile_width: 480,
        tile_height: 80,
        columns_per_row: 6,
        model_input_size: 48,
        num_epochs: 50,
        trained_at: "2024-01-01T00:00:00+09:00".to_string(),
    }
}

#[test]
fn inference_config_takes_over_the_metadata() {
    let config = InferenceConfig::from_metadata(&metadata());
    assert_eq!(config.button_labels, metadata().button_labels);
    assert_eq!(config.all_class_labels, metadata().all_class_labels);
    assert_eq!(config.image_width, 48);
    assert_eq!(config.image_height, 48);
    assert_eq!(config.tile_x, 80);
    assert_eq!(config.tile_y, 400);
    assert_eq!(config.tile_width, 480);
    assert_eq!(config.tile_height, 80);
    assert_eq!(config.columns_per_row, 6);
    assert_eq!(config.model_input_size, 48);
    assert_eq!(config.num_button_labels(), 6);
    assert_eq!(config.num_total_classes(), 15);
}

#[test]
fn class_indices_run_over_directions_buttons_and_others() {
    let config = InferenceConfig::from_metadata(&metadata());
    let directions = ["dir_1", "dir_2", "dir_3", "dir_4", "dir_6", "dir_7", "dir_8", "dir_9"];
    for (i, label) in directions.iter().enumerate() {
        assert_eq!(config.class_index_to_label(i), Some(label.to_string()));
    }
    assert_eq!(config.class_index_to_label(8), Some("A1".to_string()));
    assert_eq!(config.class_index_to_label(12), Some("Start".to_string()));
    assert_eq!(config.class_index_to_label(13), Some("B".to_string()));
    assert_eq!(config.class_index_to_label(14), Some("others".to_string()));
    assert_eq!(config.class_index_to_label(15), None);
    assert_eq!(config.class_index_to_label(usize::MAX), None);
}

#[test]
fn button_labels_are_numbered_from_eight() {
    let config = InferenceConfig::from_metadata(&metadata());
    assert_eq!(config.button_label_to_index("A1"), Some(8));
    assert_eq!(config.button_label_to_index("B"), Some(10));
    assert_eq!(config.button_label_to_index("Start"), Some(12));
    assert_eq!(config.button_label_to_index("others"), None);
    assert_eq!(config.button_label_to_index("dir_1"), None);
    assert_eq!(config.button_label_to_index(""), None);
}

#[test]
fn classes_feed_the_input_state() {
    let config = InferenceConfig::from_metadata(&metadata());
    let mut state = InputState::new();
    for index in [4usize, 10, 14] {
        update_input_state(&mut state, &config.class_index_to_label(index).unwrap());
    }
    assert_eq!(state.direction, 6);
    assert_eq!(state.buttons.len(), 1);
    assert_eq!(state.to_csv_line(2, &config.button_labels), "2,6,0,0,1,0,0,1");
}
