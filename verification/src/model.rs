//! The classes of the icon classifier and how they are numbered.
//!
//! Classes 0 to 7 are the eight directions, then come the buttons in the
//! order of the model's button labels, then the class `others`.

use crate::button_map::same_name;
use crate::types::texts;
use vstd::prelude::*;
use vstd::string::StringExecFns;

verus! {

/// The number of direction classes.
pub const DIRECTION_CLASSES: usize = 8;

/// What is recorded about a trained model.
#[derive(Debug)]
pub struct ModelMetadata {
    /// The button labels, without directions and without `others`.
    pub button_labels: Vec<String>,
    /// All class labels: directions, buttons, `others`.
    pub all_class_labels: Vec<String>,
    pub image_width: u32,
    pub image_height: u32,
    pub video_width: u32,
    pub video_height: u32,
    pub tile_x: u32,
    pub tile_y: u32,
    pub tile_width: u32,
    pub tile_height: u32,
    pub columns_per_row: u32,
    pub model_input_size: u32,
    pub num_epochs: u32,
    /// When the model was trained, as ISO 8601 text.
    pub trained_at: String,
}

/// What inference needs to know of a model.
#[derive(Debug)]
pub struct InferenceConfig {
    pub button_labels: Vec<String>,
    pub all_class_labels: Vec<String>,
    pub image_width: u32,
    pub image_height: u32,
    pub tile_x: u32,
    pub tile_y: u32,
    pub tile_width: u32,
    pub tile_height: u32,
    pub columns_per_row: u32,
    pub model_input_size: u32,
}

/// The label of a direction class.
pub open spec fn direction_label(index: int) -> Seq<char> {
    if index == 0 {
        "dir_1"@
    } else if index == 1 {
        "dir_2"@
    } else if index == 2 {
        "dir_3"@
    } else if index == 3 {
        "dir_4"@
    } else if index == 4 {
        "dir_6"@
    } else if index == 5 {
        "dir_7"@
    } else if index == 6 {
        "dir_8"@
    } else {
        "dir_9"@
    }
}

/// The label of the class with the given index, for a model with the given
/// button labels.
pub open spec fn class_label(buttons: Seq<Seq<char>>, index: int) -> Option<Seq<char>> {
    if 0 <= index < 8 {
        Some(direction_label(index))
    } else if 8 <= index < 8 + buttons.len() {
        Some(buttons[index - 8])
    } else if index == 8 + buttons.len() {
        Some("others"@)
    } else {
        None
    }
}

/// The index of the first occurrence of a label among the button labels.
pub open spec fn first_index(buttons: Seq<Seq<char>>, label: Seq<char>) -> Option<int> {
    if buttons.contains(label) {
        Some(buttons.index_of_first(label)->0)
    } else {
        None
    }
}

fn copy_labels(labels: &Vec<String>) -> (r: Vec<String>)
    ensures
        texts(r@) == texts(labels@),
{
    let n = labels.len();
    let mut copy: Vec<String> = Vec::new();
    let mut i: usize = 0;
    while i < n
        invariant
            i <= n,
            n == labels@.len(),
            copy@.len() == i,
            forall|j: int| 0 <= j < i ==> (#[trigger] copy@[j])@ == labels@[j]@,
        decreases n - i,
    {
        copy.push(labels[i].clone());
        i = i + 1;
    }
    assert(texts(copy@) =~= texts(labels@));
    copy
}

impl InferenceConfig {
    /// The part of a model's metadata that inference needs.
    pub fn from_metadata(metadata: &ModelMetadata) -> (r: InferenceConfig)
        ensures
            texts(r.button_labels@) == texts(metadata.button_labels@),
            texts(r.all_class_labels@) == texts(metadata.all_class_labels@),
            r.image_width == metadata.image_width,
            r.image_height == metadata.image_height,
            r.tile_x == metadata.tile_x,
            r.tile_y == metadata.tile_y,
            r.tile_width == metadata.tile_width,
            r.tile_height == metadata.tile_height,
            r.columns_per_row == metadata.columns_per_row,
            r.model_input_size == metadata.model_input_size,
    {
        InferenceConfig {
            button_labels: copy_labels(&metadata.button_labels),
            all_class_labels: copy_labels(&metadata.all_class_labels),
            image_width: metadata.image_width,
            image_height: metadata.image_height,
            tile_x: metadata.tile_x,
            tile_y: metadata.tile_y,
            tile_width: metadata.tile_width,
            tile_height: metadata.tile_height,
            columns_per_row: metadata.columns_per_row,
            model_input_size: metadata.model_input_size,
        }
    }

    /// The number of button labels.
    pub fn num_button_labels(&self) -> (r: usize)
        ensures
            r == self.button_labels@.len(),
    {
        self.button_labels.len()
    }

    /// The number of classes, directions included.
    pub fn num_total_classes(&self) -> (r: usize)
        ensures
            r == self.all_class_labels@.len(),
    {
        self.all_class_labels.len()
    }

    /// The label of the class with the given index: a direction for 0 to 7,
    /// then the button labels, then `others`; `None` beyond.
    pub fn class_index_to_label(&self, index: usize) -> (r: Option<String>)
        ensures
            match r {
                Some(label) => class_label(texts(self.button_labels@), index as int) == Some(
                    label@,
                ),
                None => class_label(texts(self.button_labels@), index as int) is None,
            },
    {
        if index < DIRECTION_CLASSES {
            let label = match index {
                0 => "dir_1",
                1 => "dir_2",
                2 => "dir_3",
                3 => "dir_4",
                4 => "dir_6",
                5 => "dir_7",
                6 => "dir_8",
                _ => "dir_9",
            };
            Some(String::from_str(label))
        } else if index - DIRECTION_CLASSES < self.button_labels.len() {
            Some(self.button_labels[index - DIRECTION_CLASSES].clone())
        } else if index - DIRECTION_CLASSES == self.button_labels.len() {
            Some(String::from_str("others"))
        } else {
            None
        }
    }

    /// The class index of a button label: 8 more than the place of its first
    /// occurrence among the button labels. `None` for a label that is not
    /// among them, and for an index beyond the machine's range.
    pub fn button_label_to_index(&self, label: &str) -> (r: Option<usize>)
        ensures
            r == match first_index(texts(self.button_labels@), label@) {
                Some(i) => if i + 8 <= usize::MAX {
                    Some((i + 8) as usize)
                } else {
                    None
                },
                None => None,
            },
    {
        let ghost labels = texts(self.button_labels@);
        let n = self.button_labels.len();
        let mut i: usize = 0;
        while i < n
            invariant
                i <= n,
                n == self.button_labels@.len(),
                labels == texts(self.button_labels@),
                forall|j: int| 0 <= j < i ==> labels[j] != label@,
            decreases n - i,
        {
            if same_name(self.button_labels[i].as_str(), label) {
                proof {
                    assert(labels[i as int] == label@);
                    labels.index_of_first_ensures(label@);
                }
                return i.checked_add(DIRECTION_CLASSES);
            }
            i = i + 1;
        }
        None
    }
}

} // verus!
