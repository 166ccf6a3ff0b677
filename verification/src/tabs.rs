//! The tabs of the navigation pane and what a click on a navigation button does.

use vstd::prelude::*;

use crate::text::str_eq;

verus! {

/// A page of the application, as the navigation pane names it.
#[derive(Debug, Clone, Copy, PartialEq, Eq, Structural)]
pub enum Tabs {
    Dashboard,
    History,
    Suggestion,
    About,
}

/// The label under which a tab is shown.
pub open spec fn tab_label(tab: Tabs) -> Seq<char> {
    match tab {
        Tabs::Dashboard => "Dashboard"@,
        Tabs::History => "History"@,
        Tabs::Suggestion => "Suggestion"@,
        Tabs::About => "About"@,
    }
}

/// The tab that a label names; a missing label, or one that names no tab, gives
/// the default tab, the dashboard.
pub open spec fn tab_of_label(label: Option<Seq<char>>) -> Tabs {
    match label {
        Some(l) => if l == "Dashboard"@ {
            Tabs::Dashboard
        } else if l == "History"@ {
            Tabs::History
        } else if l == "Suggestion"@ {
            Tabs::Suggestion
        } else if l == "About"@ {
            Tabs::About
        } else {
            Tabs::Dashboard
        },
        None => Tabs::Dashboard,
    }
}

/// The position of a tab's page in the page stack.
pub open spec fn tab_page(tab: Tabs) -> nat {
    match tab {
        Tabs::Dashboard => 0,
        Tabs::History => 1,
        Tabs::Suggestion => 2,
        Tabs::About => 3,
    }
}

impl Default for Tabs {
    fn default() -> (tab: Tabs)
        ensures
            tab == Tabs::Dashboard,
    {
        Tabs::Dashboard
    }
}

impl Tabs {
    /// The label under which this tab is shown.
    pub fn label(&self) -> (label: &'static str)
        ensures
            label@ == tab_label(*self),
    {
        match self {
            Tabs::Dashboard => "Dashboard",
            Tabs::History => "History",
            Tabs::Suggestion => "Suggestion",
            Tabs::About => "About",
        }
    }

    /// The tab that a label names; any other label, or none, gives the dashboard.
    pub fn from_label(label: Option<&str>) -> (tab: Tabs)
        ensures
            tab == tab_of_label(match label {
                Some(l) => Some(l@),
                None => None,
            }),
    {
        match label {
            Some(l) => {
                if str_eq(l, "Dashboard") {
                    Tabs::Dashboard
                } else if str_eq(l, "History") {
                    Tabs::History
                } else if str_eq(l, "Suggestion") {
                    Tabs::Suggestion
                } else if str_eq(l, "About") {
                    Tabs::About
                } else {
                    Tabs::Dashboard
                }
            },
            None => Tabs::Dashboard,
        }
    }

    /// The position of this tab's page in the page stack.
    pub fn page_index(&self) -> (page: u32)
        ensures
            page as nat == tab_page(*self),
    {
        match self {
            Tabs::Dashboard => 0,
            Tabs::History => 1,
            Tabs::Suggestion => 2,
            Tabs::About => 3,
        }
    }
}

/// What a click on a navigation button leaves: the active tab, and the tab that
/// a tab switch is announced for, if any.
#[derive(Debug, Clone, Copy, PartialEq, Eq, Structural)]
pub struct NavigationOutcome {
    pub active_tab: Tabs,
    pub switched_to: Option<Tabs>,
}

/// A click on a button whose label is `label` (none when the button holds no
/// label): a label other than the active tab's makes the tab it names active and
/// announces the switch; otherwise nothing changes.
pub open spec fn navigation_outcome(active: Tabs, label: Option<Seq<char>>) -> NavigationOutcome {
    match label {
        Some(l) => if l == tab_label(active) {
            NavigationOutcome { active_tab: active, switched_to: None }
        } else {
            NavigationOutcome {
                active_tab: tab_of_label(Some(l)),
                switched_to: Some(tab_of_label(Some(l))),
            }
        },
        None => NavigationOutcome { active_tab: active, switched_to: None },
    }
}

/// Handles a click on a navigation button while `active` is the active tab.
pub fn navigation_click(active: Tabs, label: Option<&str>) -> (outcome: NavigationOutcome)
    ensures
        outcome == navigation_outcome(active, match label {
            Some(l) => Some(l@),
            None => None,
        }),
{
    match label {
        Some(l) => {
            if str_eq(active.label(), l) {
                NavigationOutcome { active_tab: active, switched_to: None }
            } else {
                let tab = Tabs::from_label(Some(l));
                NavigationOutcome { active_tab: tab, switched_to: Some(tab) }
            }
        },
        None => NavigationOutcome { active_tab: active, switched_to: None },
    }
}

/// Reading a tab's label gives the tab back.
pub proof fn lemma_label_round_trip(tab: Tabs)
    ensures
        tab_of_label(Some(tab_label(tab))) == tab,
{
    reveal_strlit("Dashboard");
    reveal_strlit("History");
    reveal_strlit("Suggestion");
    reveal_strlit("About");
    assert("Dashboard"@.len() == 9);
    assert("History"@.len() == 7);
    assert("Suggestion"@.len() == 10);
    assert("About"@.len() == 5);
}

/// Different tabs have different labels and different pages.
pub proof fn lemma_tabs_distinct(a: Tabs, b: Tabs)
    requires
        a != b,
    ensures
        tab_label(a) != tab_label(b),
        tab_page(a) != tab_page(b),
        tab_page(a) < 4,
{
    lemma_label_round_trip(a);
    lemma_label_round_trip(b);
}

/// A click on a tab's own button makes that tab active, announcing the switch
/// exactly when another tab was active; a second click on it changes nothing.
pub proof fn lemma_click_own_tab(active: Tabs, tab: Tabs)
    ensures
        navigation_outcome(active, Some(tab_label(tab))).active_tab == tab,
        navigation_outcome(active, Some(tab_label(tab))).switched_to == (if active == tab {
            None
        } else {
            Some(tab)
        }),
        navigation_outcome(tab, Some(tab_label(tab))) == (NavigationOutcome {
            active_tab: tab,
            switched_to: None,
        }),
{
    lemma_label_round_trip(tab);
    if active != tab {
        lemma_tabs_distinct(active, tab);
    }
}

} // verus!
