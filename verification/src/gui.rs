//! The state of the graphical front end and the decisions it takes: which
//! page is shown, what a click on "Run" asks for, and what is reported once
//! the work is done. Drawing, file dialogs and image files stay with the
//! program that owns the window.

use vstd::prelude::*;
use vstd::string::StringExecFns;

verus! {

/// The state behind the window.
pub struct ShadesGui {
    /// Whether the "Embed" box is ticked.
    pub embed_box: bool,
    /// Whether the "Extract" box is ticked.
    pub extract_box: bool,
    /// The text to embed.
    pub input: String,
    /// The text that was extracted.
    pub output: String,
    /// The password.
    pub password: String,
    /// The path of the chosen image, once one was chosen.
    pub selected_file: Option<String>,
    /// The line that reports how the last run went.
    pub status: String,
}

/// The page that the window shows.
#[derive(Clone, Copy, Debug, PartialEq, Eq, Structural)]
pub enum GuiMode {
    /// Neither box is ticked: the welcome page.
    Start,
    /// The page for embedding.
    Embed,
    /// The page for extracting.
    Extract,
}

/// The work that a click on "Run" asks the program to do.
#[derive(Debug)]
pub enum GuiRequest {
    /// Seal `data` under `password` and embed it in the image at `path`.
    Embed { path: String, data: String, password: String },
    /// Extract from the image at `path` and open under `password`.
    Extract { path: String, password: String },
}

impl Default for ShadesGui {
    /// The state at start: no box ticked, every text empty, no file chosen.
    fn default() -> (gui: Self)
        ensures
            !gui.embed_box,
            !gui.extract_box,
            gui.input@.len() == 0,
            gui.output@.len() == 0,
            gui.password@.len() == 0,
            gui.selected_file is None,
            gui.status@.len() == 0,
    {
        ShadesGui {
            embed_box: false,
            extract_box: false,
            input: String::new(),
            output: String::new(),
            password: String::new(),
            selected_file: None,
            status: String::new(),
        }
    }
}

impl ShadesGui {
    /// The page for this state: embedding wins where both boxes are ticked.
    pub open spec fn spec_mode(&self) -> GuiMode {
        if self.embed_box {
            GuiMode::Embed
        } else if self.extract_box {
            GuiMode::Extract
        } else {
            GuiMode::Start
        }
    }

    /// Whether a click on "Run" finds a page that needs an image and no
    /// image chosen.
    pub open spec fn asks_for_file(&self) -> bool {
        self.spec_mode() != GuiMode::Start && self.selected_file is None
    }

    /// The work that a click on "Run" asks for in this state.
    pub open spec fn spec_request(&self) -> Option<GuiRequest> {
        match (self.spec_mode(), self.selected_file) {
            (GuiMode::Embed, Some(path)) => Some(
                GuiRequest::Embed { path, data: self.input, password: self.password },
            ),
            (GuiMode::Extract, Some(path)) => Some(
                GuiRequest::Extract { path, password: self.password },
            ),
            _ => None,
        }
    }

    /// The page to show.
    pub fn mode(&self) -> (mode: GuiMode)
        ensures
            mode == self.spec_mode(),
    {
        if self.embed_box {
            GuiMode::Embed
        } else if self.extract_box {
            GuiMode::Extract
        } else {
            GuiMode::Start
        }
    }

    /// After a click on the "Embed" box: ticking it unticks "Extract".
    pub fn embed_clicked(&mut self)
        ensures
            final(self).extract_box == (old(self).extract_box && !old(self).embed_box),
            final(self).embed_box == old(self).embed_box,
            final(self).input == old(self).input,
            final(self).output == old(self).output,
            final(self).password == old(self).password,
            final(self).selected_file == old(self).selected_file,
            final(self).status == old(self).status,
    {
        if self.embed_box {
            self.extract_box = false;
        }
    }

    /// After a click on the "Extract" box: ticking it unticks "Embed".
    pub fn extract_clicked(&mut self)
        ensures
            final(self).embed_box == (old(self).embed_box && !old(self).extract_box),
            final(self).extract_box == old(self).extract_box,
            final(self).input == old(self).input,
            final(self).output == old(self).output,
            final(self).password == old(self).password,
            final(self).selected_file == old(self).selected_file,
            final(self).status == old(self).status,
    {
        if self.extract_box {
            self.embed_box = false;
        }
    }

    /// Remembers the image that the user chose.
    pub fn select_file(&mut self, path: String)
        ensures
            final(self).selected_file == Some(path),
            final(self).embed_box == old(self).embed_box,
            final(self).extract_box == old(self).extract_box,
            final(self).input == old(self).input,
            final(self).output == old(self).output,
            final(self).password == old(self).password,
            final(self).status == old(self).status,
    {
        self.selected_file = Some(path);
    }

    /// On the welcome page nothing of an earlier run is kept: texts, password,
    /// status and chosen file are cleared.
    pub fn show_start_page(&mut self)
        ensures
            final(self).embed_box == old(self).embed_box,
            final(self).extract_box == old(self).extract_box,
            final(self).input@.len() == 0,
            final(self).output@.len() == 0,
            final(self).password@.len() == 0,
            final(self).status@.len() == 0,
            final(self).selected_file is None,
    {
        self.input = String::new();
        self.output = String::new();
        self.status = String::new();
        self.password = String::new();
        self.selected_file = None;
    }

    /// After a click on "Run": the work to do, if an image was chosen on the
    /// page for embedding or extracting. Without an image the status asks for
    /// one; on the welcome page nothing happens.
    pub fn run_clicked(&mut self) -> (request: Option<GuiRequest>)
        ensures
            final(self).embed_box == old(self).embed_box,
            final(self).extract_box == old(self).extract_box,
            final(self).input == old(self).input,
            final(self).output == old(self).output,
            final(self).password == old(self).password,
            final(self).selected_file == old(self).selected_file,
            old(self).asks_for_file() ==> request is None,
            old(self).asks_for_file() ==> final(self).status@ == "Please select a file first."@,
            !old(self).asks_for_file() ==> final(self).status == old(self).status,
            request == old(self).spec_request(),
    {
        let mode = self.mode();
        if mode == GuiMode::Start {
            return None;
        }
        let path = match &self.selected_file {
            Some(path) => path.clone(),
            None => {
                self.status = String::from_str("Please select a file first.");
                return None;
            },
        };
        if mode == GuiMode::Embed {
            Some(GuiRequest::Embed { path, data: self.input.clone(), password: self.password.clone() })
        } else {
            Some(GuiRequest::Extract { path, password: self.password.clone() })
        }
    }

    /// Reports how embedding went; `outcome` holds the failure's message.
    pub fn embed_finished(&mut self, outcome: Result<(), String>)
        ensures
            final(self).embed_box == old(self).embed_box,
            final(self).extract_box == old(self).extract_box,
            final(self).input == old(self).input,
            final(self).output == old(self).output,
            final(self).password == old(self).password,
            final(self).selected_file == old(self).selected_file,
            outcome is Ok ==> final(self).status@ == "Data embedded in image successfully."@,
            outcome matches Err(why) ==> final(self).status@ == "Failed to embed data: "@ + why@,
    {
        match outcome {
            Ok(()) => {
                self.status = String::from_str("Data embedded in image successfully.");
            },
            Err(why) => {
                self.status = String::from_str("Failed to embed data: ").concat(why.as_str());
            },
        }
    }

    /// Reports how extracting went: the text moves to the output and the
    /// input is cleared, or the status holds the failure's message.
    pub fn extract_finished(&mut self, outcome: Result<String, String>)
        ensures
            final(self).embed_box == old(self).embed_box,
            final(self).extract_box == old(self).extract_box,
            final(self).password == old(self).password,
            final(self).selected_file == old(self).selected_file,
            outcome matches Ok(text) ==> final(self).output == text && final(self).input@.len()
                == 0 && final(self).status@ == "Data extracted successfully."@,
            outcome is Err ==> final(self).output == old(self).output,
            outcome is Err ==> final(self).input == old(self).input,
            outcome matches Err(why) ==> final(self).status@ == "Failed to extract data: "@ + why@,
    {
        match outcome {
            Ok(text) => {
                self.output = text;
                self.input = String::new();
                self.status = String::from_str("Data extracted successfully.");
            },
            Err(why) => {
                self.status = String::from_str("Failed to extract data: ").concat(why.as_str());
            },
        }
    }
}

} // verus!
