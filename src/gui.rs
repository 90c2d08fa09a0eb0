use vstd::prelude::*;
use vstd::utf8::encode_utf8;
use crate::units::{is_size_text, parse_micrometres};

verus! {

/// An event of the slicer's form.
#[derive(Clone, Debug)]
pub enum Message {
    InputPathChanged(String),
    OutputDirChanged(String),
    PixelSizeChanged(String),
    LayerHeightChanged(String),
    ZeroSliceToggled(bool),
    DeleteBelowZeroToggled(bool),
    DeleteOutputDirToggled(bool),
    OpenOutputDirToggled(bool),
    BrowseFile,
    BrowseOutputDir,
    Slice,
    Tick,
}

/// What the front end does after a message.
#[derive(Clone, Copy, Debug, PartialEq, Eq, Structural)]
pub enum FormAction {
    Nothing,
    PickInputFile,
    PickOutputDir,
    StartSlicing,
    PollProgress,
}

/// The editable state of the slicer's form.
pub struct SlicerForm {
    pub input_path: String,
    pub output_dir: String,
    pub pixel_size: String,
    pub layer_height: String,
    pub zero_slice_position: bool,
    pub delete_below_zero: bool,
    pub delete_output_dir: bool,
    pub open_output_dir: bool,
    pub is_processing: bool,
    pub status_message: String,
}

/// Whether only the fields that `m` edits differ between `a` and `b`, and
/// `b` holds what `m` carries.
pub open spec fn edited(a: SlicerForm, b: SlicerForm, m: Message) -> bool {
    &&& b.input_path@ == (if let Message::InputPathChanged(v) = m {
        v@
    } else {
        a.input_path@
    })
    &&& b.output_dir@ == (if let Message::OutputDirChanged(v) = m {
        v@
    } else {
        a.output_dir@
    })
    &&& b.pixel_size@ == (if let Message::PixelSizeChanged(v) = m {
        v@
    } else {
        a.pixel_size@
    })
    &&& b.layer_height@ == (if let Message::LayerHeightChanged(v) = m {
        v@
    } else {
        a.layer_height@
    })
    &&& b.zero_slice_position == (if let Message::ZeroSliceToggled(v) = m {
        v
    } else {
        a.zero_slice_position
    })
    &&& b.delete_below_zero == (if let Message::DeleteBelowZeroToggled(v) = m {
        v
    } else {
        a.delete_below_zero
    })
    &&& b.delete_output_dir == (if let Message::DeleteOutputDirToggled(v) = m {
        v
    } else {
        a.delete_output_dir
    })
    &&& b.open_output_dir == (if let Message::OpenOutputDirToggled(v) = m {
        v
    } else {
        a.open_output_dir
    })
}

/// What `Slice` finds wrong with the form, if anything: no input file, or
/// a pixel size or layer height that is not a valid length.
pub open spec fn slice_error(f: SlicerForm) -> Option<Seq<char>> {
    if f.input_path@.len() == 0 {
        Some("Please select an input file"@)
    } else if !is_size_text(encode_utf8(f.pixel_size@)) {
        Some("Please enter a valid pixel size"@)
    } else if !is_size_text(encode_utf8(f.layer_height@)) {
        Some("Please enter a valid layer height"@)
    } else {
        None
    }
}

impl SlicerForm {
    /// The form as it opens: output to `slices`, the default pixel size and
    /// layer height, layers below zero kept, the output directory replaced
    /// and opened when done.
    pub fn new() -> (r: SlicerForm)
        ensures
            r.input_path@.len() == 0,
            r.output_dir@ == "slices"@,
            r.pixel_size@ == "33.3333"@,
            r.layer_height@ == "20.0"@,
            !r.zero_slice_position,
            !r.delete_below_zero,
            r.delete_output_dir,
            r.open_output_dir,
            !r.is_processing,
            r.status_message@ == "Ready to slice"@,
    {
        SlicerForm {
            input_path: String::new(),
            output_dir: "slices".to_owned(),
            pixel_size: "33.3333".to_owned(),
            layer_height: "20.0".to_owned(),
            zero_slice_position: false,
            delete_below_zero: false,
            delete_output_dir: true,
            open_output_dir: true,
            is_processing: false,
            status_message: "Ready to slice".to_owned(),
        }
    }

    /// Applies a message: edits go into their field; `Slice` starts a run
    /// unless no input file is chosen or a size is not a valid length, in
    /// which case it reports the error; the other messages ask the front end
    /// to act.
    pub fn update(&mut self, message: Message) -> (r: FormAction)
        ensures
            edited(*old(self), *final(self), message),
            r == (match message {
                Message::BrowseFile => FormAction::PickInputFile,
                Message::BrowseOutputDir => FormAction::PickOutputDir,
                Message::Slice => if slice_error(*old(self)) is Some {
                    FormAction::Nothing
                } else {
                    FormAction::StartSlicing
                },
                Message::Tick => FormAction::PollProgress,
                _ => FormAction::Nothing,
            }),
            final(self).is_processing == (old(self).is_processing || r == FormAction::StartSlicing),
            final(self).status_message@ == (if message is Slice {
                match slice_error(*old(self)) {
                    Some(e) => e,
                    None => "Starting..."@,
                }
            } else {
                old(self).status_message@
            }),
    {
        match message {
            Message::InputPathChanged(v) => {
                self.input_path = v;
                FormAction::Nothing
            },
            Message::OutputDirChanged(v) => {
                self.output_dir = v;
                FormAction::Nothing
            },
            Message::PixelSizeChanged(v) => {
                self.pixel_size = v;
                FormAction::Nothing
            },
            Message::LayerHeightChanged(v) => {
                self.layer_height = v;
                FormAction::Nothing
            },
            Message::ZeroSliceToggled(v) => {
                self.zero_slice_position = v;
                FormAction::Nothing
            },
            Message::DeleteBelowZeroToggled(v) => {
                self.delete_below_zero = v;
                FormAction::Nothing
            },
            Message::DeleteOutputDirToggled(v) => {
                self.delete_output_dir = v;
                FormAction::Nothing
            },
            Message::OpenOutputDirToggled(v) => {
                self.open_output_dir = v;
                FormAction::Nothing
            },
            Message::BrowseFile => FormAction::PickInputFile,
            Message::BrowseOutputDir => FormAction::PickOutputDir,
            Message::Slice => {
                if self.input_path.as_str().is_empty() {
                    self.status_message = "Please select an input file".to_owned();
                    FormAction::Nothing
                } else if parse_micrometres(self.pixel_size.as_str().as_bytes()).is_none() {
                    self.status_message = "Please enter a valid pixel size".to_owned();
                    FormAction::Nothing
                } else if parse_micrometres(self.layer_height.as_str().as_bytes()).is_none() {
                    self.status_message = "Please enter a valid layer height".to_owned();
                    FormAction::Nothing
                } else {
                    self.is_processing = true;
                    self.status_message = "Starting...".to_owned();
                    FormAction::StartSlicing
                }
            },
            Message::Tick => FormAction::PollProgress,
        }
    }

    /// Marks the end of a run.
    pub fn finish(&mut self)
        ensures
            !final(self).is_processing,
            edited(*old(self), *final(self), Message::Tick),
            final(self).status_message@ == old(self).status_message@,
    {
        self.is_processing = false;
    }
}

} // verus!
