use prophesy::tabs::{navigation_click, NavigationOutcome, Tabs};

const ALL: [Tabs; 4] = [Tabs::Dashboard, Tabs::History, Tabs::Suggestion, Tabs::About];

#[test]
fn tab_labels_read_back() {
    for tab in ALL {
        assert_eq!(Tabs::from_label(Some(tab.label())), tab);
    }
    assert_eq!(Tabs::Dashboard.label(), "Dashboard");
    assert_eq!(Tabs::History.label(), "History");
    assert_eq!(Tabs::Suggestion.label(), "Suggestion");
    assert_eq!(Tabs::About.label(), "About");
}

#[test]
fn unknown_labels_give_the_default_tab() {
    assert_eq!(Tabs::from_label(None), Tabs::Dashboard);
    assert_eq!(Tabs::from_label(Some("Suggestions")), Tabs::Dashboard);
    assert_eq!(Tabs::from_label(Some("history")), Tabs::Dashboard);
    assert_eq!(Tabs::default(), Tabs::Dashboard);
}

#[test]
fn tab_pages() {
    let pages: Vec<u32> = ALL.iter().map(|t| t.page_index()).collect();
    assert_eq!(pages, vec![0, 1, 2, 3]);
}

#[test]
fn clicking_another_tab_switches_and_announces() {
    let outcome = navigation_click(Tabs::Dashboard, Some("History"));
    assert_eq!(outcome, NavigationOutcome { active_tab: Tabs::History, switched_to: Some(Tabs::History) });
    let again = navigation_click(outcome.active_tab, Some("History"));
    assert_eq!(again, NavigationOutcome { active_tab: Tabs::History, switched_to: None });
}

#[test]
fn clicks_without_label_or_with_unknown_label() {
    assert_eq!(
        navigation_click(Tabs::About, None),
        NavigationOutcome { active_tab: Tabs::About, switched_to: None }
    );
    assert_eq!(
        navigation_click(Tabs::About, Some("Battery")),
        NavigationOutcome { active_tab: Tabs::Dashboard, switched_to: Some(Tabs::Dashboard) }
    );
    assert_eq!(
        navigation_click(Tabs::Dashboard, Some("Battery")),
        NavigationOutcome { active_tab: Tabs::Dashboard, switched_to: Some(Tabs::Dashboard) }
    );
}
