use guild_scrape::work::ChannelKind;
use guild_scrape::work::WorkItem;

#[test]
fn text_and_threads_are_eligible() {
    let kinds = [ChannelKind::Text, ChannelKind::PublicThread, ChannelKind::PrivateThread];
    for kind in kinds {
        let item = WorkItem { id: 1, kind, parent: None };
        assert!(item.is_eligible());
    }
}

#[test]
fn other_kinds_are_ineligible() {
    let item = WorkItem { id: 1, kind: ChannelKind::Other, parent: Some(2) };
    assert!(!item.is_eligible());
}
