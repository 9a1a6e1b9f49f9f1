use groupme_downloader::groups::{GroupListing, GROUP_CAP, GROUP_PAGE_SIZE};
use groupme_downloader::model::Group;

fn group(n: usize) -> Group {
    Group {
        id: format!("{n}"),
        name: format!("group {n}"),
        kind: "private".to_string(),
        description: String::new(),
        creator_user_id: "u1".to_string(),
        image_url: None,
        share_url: None,
        created_at: 0,
        updated_at: 0,
        members: vec![],
    }
}

fn page(start: usize, len: usize) -> Vec<Group> {
    (start..start + len).map(group).collect()
}

#[test]
fn listing_stops_once_over_the_cap() {
    let mut listing = GroupListing::new();
    let mut fetched = 0;
    while let Some(p) = listing.next_page() {
        assert_eq!(p, fetched + 1);
        fetched += 1;
        listing.accept_page(page(fetched as usize * 10, GROUP_PAGE_SIZE as usize));
        assert!(fetched < 1000);
    }
    assert_eq!(fetched, 11);
    let groups = listing.into_groups();
    assert_eq!(groups.len(), 110);
    assert!(groups.len() > GROUP_CAP);
    assert_eq!(groups[0].id, "10");
}

#[test]
fn listing_stops_at_empty_page() {
    let mut listing = GroupListing::new();
    assert_eq!(listing.next_page(), Some(1));
    listing.accept_page(page(0, 10));
    assert_eq!(listing.next_page(), Some(2));
    listing.accept_page(page(10, 3));
    assert_eq!(listing.next_page(), Some(3));
    listing.accept_page(vec![]);
    assert!(listing.is_finished());
    assert_eq!(listing.next_page(), None);
    listing.accept_page(page(20, 5));
    assert_eq!(listing.into_groups().len(), 13);
}

#[test]
fn listing_of_exactly_the_cap_goes_on() {
    let mut listing = GroupListing::new();
    for i in 0..10 {
        listing.accept_page(page(i * 10, 10));
    }
    assert!(!listing.is_finished());
    assert_eq!(listing.next_page(), Some(11));
    listing.accept_page(page(100, 1));
    assert!(listing.is_finished());
}
