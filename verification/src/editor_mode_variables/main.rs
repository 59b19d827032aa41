//! State of the main editing screen.

use vstd::prelude::*;

verus! {

/// State of the main screen.
pub struct Main {
    pub file_explorer: FileExplorer,
}

impl Main {
    /// A main screen with a closed file explorer.
    pub fn init() -> (main: Self)
        ensures
            main.file_explorer.is_closed(),
    {
        Self { file_explorer: FileExplorer::init() }
    }
}

/// State of the file explorer: its menus and windows and the name typed
/// for a new folder.
pub struct FileExplorer {
    pub show_rightclick_menu: bool,
    pub show_newfolder_wind: bool,
    pub show_deleteitem_wind: bool,
    pub new_folder_name: String,
}

impl FileExplorer {
    /// Nothing shown and no folder name typed.
    pub open spec fn is_closed(&self) -> bool {
        &&& !self.show_rightclick_menu
        &&& !self.show_newfolder_wind
        &&& !self.show_deleteitem_wind
        &&& self.new_folder_name@ == Seq::<char>::empty()
    }

    /// Nothing shown and no folder name typed.
    pub fn init() -> (explorer: Self)
        ensures
            explorer.is_closed(),
    {
        Self {
            show_rightclick_menu: false,
            show_newfolder_wind: false,
            show_deleteitem_wind: false,
            new_folder_name: String::new(),
        }
    }
}

} // verus!
