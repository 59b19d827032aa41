//! Entries of the editor's "Menu", each of which may open a window.

use vstd::prelude::*;

verus! {

/// A menu entry and whether the window it opens is shown.
pub struct AlertWindow {
    pub label: String,
    pub state: bool,
}

/// Index of the first entry whose window is shown, if any.
pub open spec fn first_enabled(s: Seq<AlertWindow>) -> Option<int>
    decreases s.len(),
{
    if s.len() == 0 {
        None
    } else if s[0].state {
        Some(0)
    } else {
        match first_enabled(s.drop_first()) {
            Some(i) => Some(i + 1),
            None => None,
        }
    }
}

/// The first enabled entry is enabled and none before it is.
pub proof fn lemma_first_enabled(s: Seq<AlertWindow>)
    ensures
        first_enabled(s) matches Some(i) ==> 0 <= i < s.len() && s[i].state && forall|j: int| 0 <= j < i ==> !(#[trigger] s[j]).state,
        first_enabled(s) is None ==> forall|j: int| 0 <= j < s.len() ==> !(#[trigger] s[j]).state,
    decreases s.len(),
{
    if s.len() > 0 && !s[0].state {
        lemma_first_enabled(s.drop_first());
        assert forall|j: int| 1 <= j < s.len() implies s[j] == s.drop_first()[j - 1] by {}
    }
}

/// `symbol`, a space and `word`.
pub open spec fn titled(symbol: Seq<char>, word: Seq<char>) -> Seq<char> {
    symbol + " "@ + word
}

impl AlertWindow {
    fn closed(label: String) -> (w: Self)
        ensures
            w.label == label,
            !w.state,
    {
        AlertWindow { label, state: false }
    }

    fn titled(symbol: &str, word: &str) -> (s: String)
        ensures
            s@ == titled(symbol@, word@),
    {
        let mut s = String::from_str(symbol);
        s.append(" ");
        s.append(word);
        s
    }

    /// The six entries of the menu, all closed: "Open", "New", the save
    /// entry, "Export settings", "Import settings" and the settings entry;
    /// the save and settings entries start with the given symbols.
    pub fn init(save_symbol: &str, settings_symbol: &str) -> (menu: [Self; 6])
        ensures
            menu@[0].label@ == "Open"@,
            menu@[1].label@ == "New"@,
            menu@[2].label@ == titled(save_symbol@, "Save"@),
            menu@[3].label@ == "Export settings"@,
            menu@[4].label@ == "Import settings"@,
            menu@[5].label@ == titled(settings_symbol@, "Settings"@),
            forall|i: int| 0 <= i < 6 ==> !(#[trigger] menu@[i]).state,
    {
        let menu = [
            Self::closed(String::from_str("Open")),
            Self::closed(String::from_str("New")),
            Self::closed(Self::titled(save_symbol, "Save")),
            Self::closed(String::from_str("Export settings")),
            Self::closed(String::from_str("Import settings")),
            Self::closed(Self::titled(settings_symbol, "Settings")),
        ];
        menu
    }

    /// The label of the first entry whose window is shown, or the empty
    /// string when none is.
    pub fn whats_enabled(alert_window: &[Self]) -> (label: &str)
        ensures
            match first_enabled(alert_window@) {
                Some(i) => label@ == alert_window@[i].label@,
                None => label@ == Seq::<char>::empty(),
            },
    {
        proof {
            lemma_first_enabled(alert_window@);
        }
        let n = alert_window.len();
        let mut i: usize = 0;
        while i < n
            invariant
                n == alert_window@.len(),
                i <= n,
                forall|j: int| 0 <= j < i ==> !(#[trigger] alert_window@[j]).state,
                first_enabled(alert_window@) matches Some(k) ==> 0 <= k < n && alert_window@[k].state && forall|j: int| 0 <= j < k ==> !(#[trigger] alert_window@[j]).state,
                first_enabled(alert_window@) is None ==> forall|j: int| 0 <= j < n ==> !(#[trigger] alert_window@[j]).state,
            decreases n - i,
        {
            if alert_window[i].state {
                return alert_window[i].label.as_str();
            }
            i += 1;
        }
        proof {
            reveal_strlit("");
        }
        ""
    }

    /// A click on the entry at `idx`: the save entry (the one labelled
    /// `save_label`) asks for the scene to be saved and opens no window;
    /// any other entry opens its window.
    pub fn click(alert_window: &mut [Self], idx: usize, save_label: &str) -> (save_requested: bool)
        requires
            idx < old(alert_window)@.len(),
        ensures
            save_requested == (old(alert_window)@[idx as int].label@ == save_label@),
            save_requested ==> final(alert_window)@ == old(alert_window)@,
            !save_requested ==> final(alert_window)@ == old(alert_window)@.update(
                idx as int,
                AlertWindow { label: old(alert_window)@[idx as int].label, state: true },
            ),
    {
        if crate::text::str_equal(alert_window[idx].label.as_str(), save_label) {
            return true;
        }
        alert_window[idx].state = true;
        assert(alert_window@ =~= old(alert_window)@.update(
            idx as int,
            AlertWindow { label: old(alert_window)@[idx as int].label, state: true },
        ));
        false
    }
}

} // verus!
